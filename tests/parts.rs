use git_regraph::{
    Commit, CommitEdit, Oid, RefArg, Reference, Regraph, RegraphError, RemapTable, Signature,
};

fn id(n: u8) -> Oid {
    Oid::from_bytes([n; 20])
}

fn sig(name: &str) -> Signature {
    Signature { name: name.as_bytes().to_vec(), email: b"e@example.com".to_vec(), seconds: 7, offset_minutes: -60 }
}

fn commit(n: u8, parents: Vec<Oid>, message: Option<&str>) -> Commit {
    Commit {
        id: id(n),
        parent_ids: parents,
        tree_id: id(200 + n),
        message: message.map(|m| m.to_string()),
        author: sig("author"),
        committer: sig("committer"),
    }
}

fn reference(name: &str, target: Oid, is_remote: bool) -> Reference {
    Reference { name: name.to_string(), target, is_remote }
}

#[test]
fn oid_same_compares_every_byte() {
    let mut b = [3u8; 20];
    assert!(id(3).same(&id(3)));
    b[19] = 4;
    assert!(!id(3).same(&Oid::from_bytes(b)));
    b[19] = 3;
    b[0] = 0;
    assert!(!id(3).same(&Oid::from_bytes(b)));
    assert_eq!(id(9), id(9));
    assert_ne!(id(9), id(8));
}

#[test]
fn remap_table_lookup_and_overwrite() {
    let mut t = RemapTable::new();
    assert_eq!(t.get(&id(1)), None);
    t.insert(id(1), id(2));
    t.insert(id(3), id(4));
    assert_eq!(t.get(&id(1)), Some(id(2)));
    assert_eq!(t.get(&id(3)), Some(id(4)));
    assert!(t.contains_key(&id(3)));
    assert!(!t.contains_key(&id(2)));
    t.insert(id(1), id(5));
    assert_eq!(t.get(&id(1)), Some(id(5)));
    assert_eq!(t.get(&id(3)), Some(id(4)));
}

#[test]
fn resolve_without_edits_reproduces_the_original() {
    let c = commit(1, vec![id(7), id(8)], Some("msg"));
    let n = CommitEdit::new().resolve(c.clone()).unwrap();
    assert_eq!(n.parent_ids, c.parent_ids);
    assert_eq!(n.tree_id, c.tree_id);
    assert_eq!(n.message, "msg");
    assert_eq!(n.author, c.author);
    assert_eq!(n.committer, c.committer);
}

#[test]
fn resolve_replaces_only_the_fields_given() {
    let c = commit(1, vec![id(7)], Some("msg"));
    let mut e = CommitEdit::new();
    e.edit_tree(id(99));
    e.edit_committer(sig("other"));
    let n = e.resolve(c.clone()).unwrap();
    assert_eq!(n.parent_ids, vec![id(7)]);
    assert_eq!(n.tree_id, id(99));
    assert_eq!(n.message, "msg");
    assert_eq!(n.author, c.author);
    assert_eq!(n.committer, sig("other"));
}

#[test]
fn resolve_fails_on_a_kept_message_that_is_not_text() {
    let c = commit(4, vec![], None);
    assert_eq!(
        CommitEdit::new().resolve(c.clone()),
        Err(RegraphError::InvalidMessageEncoding { commit: id(4) })
    );
    let mut e = CommitEdit::new();
    e.edit_message("fresh".to_string());
    assert_eq!(e.resolve(c).unwrap().message, "fresh");
}

#[test]
fn all_local_refs_leaves_out_remote_ones() {
    let all = vec![
        reference("refs/heads/a", id(1), false),
        reference("refs/remotes/origin/a", id(1), true),
        reference("refs/heads/b", id(2), false),
    ];
    let got = RefArg::AllLocalRefs.resolve(all.clone());
    assert_eq!(got, vec![all[0].clone(), all[2].clone()]);
    assert_eq!(RefArg::AllLocalRefs.resolve(vec![]), vec![]);
}

#[test]
fn explicit_refs_are_taken_as_given() {
    let chosen = vec![reference("refs/remotes/origin/a", id(1), true)];
    let all = vec![reference("refs/heads/a", id(1), false)];
    assert_eq!(RefArg::Refs(chosen.clone()).resolve(all), chosen);
}

#[test]
fn begin_refuses_an_unchanged_commit() {
    assert_eq!(Regraph::begin(vec![], id(1), id(1)).err(), Some(RegraphError::NoChange));
    let run = Regraph::begin(vec![], id(1), id(2)).unwrap();
    assert_eq!(run.target(), id(1));
    assert_eq!(run.replacement(), id(2));
    assert_eq!(run.replacement_of(&id(1)), Some(id(2)));
    assert_eq!(run.replacement_of(&id(2)), None);
}

#[test]
fn walk_starts_follow_the_references() {
    let refs = vec![reference("refs/heads/a", id(5), false), reference("refs/heads/b", id(3), false)];
    let run = Regraph::begin(refs, id(1), id(2)).unwrap();
    assert_eq!(run.walk_starts(), vec![id(5), id(3)]);
}

#[test]
fn visit_keeps_a_commit_whose_parents_were_not_replaced() {
    let mut run = Regraph::begin(vec![], id(1), id(2)).unwrap();
    assert_eq!(run.visit(commit(3, vec![id(4), id(2)], Some("m"))), Ok(None));
    assert_eq!(run.replacement_of(&id(3)), None);
    assert_eq!(run.visit(commit(5, vec![], Some("m"))), Ok(None));
}

#[test]
fn visit_rebuilds_with_translated_parents_in_order() {
    let mut run = Regraph::begin(vec![], id(1), id(2)).unwrap();
    let c = commit(3, vec![id(4), id(1), id(6)], Some("m"));
    let n = run.visit(c.clone()).unwrap().unwrap();
    assert_eq!(n.parent_ids, vec![id(4), id(2), id(6)]);
    assert_eq!(n.tree_id, c.tree_id);
    assert_eq!(n.message, "m");
    assert_eq!(n.author, c.author);
    assert_eq!(n.committer, c.committer);
    run.record(id(30));
    assert_eq!(run.replacement_of(&id(3)), Some(id(30)));
    let n2 = run.visit(commit(7, vec![id(3)], Some("n"))).unwrap().unwrap();
    assert_eq!(n2.parent_ids, vec![id(30)]);
}

#[test]
fn visit_fails_on_a_rewritten_commit_without_text_message() {
    let mut run = Regraph::begin(vec![], id(1), id(2)).unwrap();
    assert_eq!(
        run.visit(commit(3, vec![id(1)], None)),
        Err(RegraphError::InvalidMessageEncoding { commit: id(3) })
    );
    // Nothing was recorded: the run can still report its moves.
    assert_eq!(run.replacement_of(&id(3)), None);
    assert_eq!(run.ref_updates(), vec![]);
}

#[test]
fn ref_updates_skip_references_outside_the_table() {
    let refs = vec![
        reference("refs/heads/a", id(1), false),
        reference("refs/heads/b", id(9), false),
        reference("refs/heads/c", id(3), false),
    ];
    let mut run = Regraph::begin(refs, id(1), id(2)).unwrap();
    run.visit(commit(3, vec![id(1)], Some("m"))).unwrap().unwrap();
    run.record(id(33));
    let moves = run.ref_updates();
    assert_eq!(moves.len(), 2);
    assert_eq!(moves[0].name, "refs/heads/a");
    assert_eq!((moves[0].old_target, moves[0].new_target), (id(1), id(2)));
    assert_eq!(moves[1].name, "refs/heads/c");
    assert_eq!((moves[1].old_target, moves[1].new_target), (id(3), id(33)));
}

#[test]
fn oid_prints_as_lowercase_hex() {
    let mut b = [0u8; 20];
    b[0] = 0xab;
    b[1] = 0x01;
    b[19] = 0xf0;
    assert_eq!(
        Oid::from_bytes(b).to_hex(),
        "ab010000000000000000000000000000000000f0"
    );
    assert_eq!(id(0x5c).to_hex(), "5c".repeat(20));
}

#[test]
fn audit_message_names_both_commits() {
    let run = Regraph::begin(vec![], id(0x12), id(0xef)).unwrap();
    assert_eq!(
        run.audit_message(),
        format!("regraph: update after editing commit {} -> {}", "12".repeat(20), "ef".repeat(20))
    );
}

