use vstd::prelude::*;

verus! {

/// Number of bytes in a commit or tree identifier.
pub const OID_LEN: usize = 20;

/// A content hash naming an immutable object of the store.
#[derive(Clone, Copy, Debug)]
pub struct Oid {
    pub bytes: [u8; 20],
}

/// The lowercase hexadecimal digit for a value below sixteen.
pub open spec fn hex_digit(n: int) -> char {
    seq!['0', '1', '2', '3', '4', '5', '6', '7', '8', '9', 'a', 'b', 'c', 'd', 'e', 'f'][n]
}

/// Two lowercase hexadecimal digits for each byte, the high one first.
pub open spec fn hex_of(bytes: Seq<u8>) -> Seq<char>
    decreases bytes.len(),
{
    if bytes.len() == 0 {
        Seq::empty()
    } else {
        let b = bytes.last();
        hex_of(bytes.drop_last()) + seq![hex_digit(b as int / 16), hex_digit(b as int % 16)]
    }
}

/// Relies on git2's `Display` for `git2::Oid`, which writes an identifier as
/// libgit2's `git_oid_tostr` does: two lowercase hexadecimal digits for each
/// of the twenty bytes, the high one first. `git2::Oid::from_bytes` accepts
/// any twenty bytes.
#[verifier::external_body]
fn hex_string(bytes: &[u8; 20]) -> (r: String)
    ensures
        r@ == hex_of(bytes@),
{
    git2::Oid::from_bytes(bytes).expect("an object id is twenty bytes").to_string()
}

impl Oid {
    /// The identifier in hexadecimal, as the store prints it.
    pub fn to_hex(&self) -> (r: String)
        ensures
            r@ == hex_of(self.bytes@),
    {
        hex_string(&self.bytes)
    }

    /// The identifier made of the given bytes.
    pub fn from_bytes(bytes: [u8; 20]) -> (r: Oid)
        ensures
            r.bytes == bytes,
    {
        Oid { bytes }
    }

    /// Whether two identifiers are the same.
    pub fn same(&self, other: &Oid) -> (r: bool)
        ensures
            r == (*self == *other),
    {
        let mut i: usize = 0;
        while i < OID_LEN
            invariant
                0 <= i <= OID_LEN,
                forall|j: int| 0 <= j < i ==> self.bytes@[j] == other.bytes@[j],
            decreases OID_LEN - i,
        {
            if self.bytes[i] != other.bytes[i] {
                return false;
            }
            i = i + 1;
        }
        proof {
            assert(self.bytes@ =~= other.bytes@);
            vstd::array::axiom_array_ext_equal(self.bytes, other.bytes);
        }
        true
    }
}

impl PartialEq for Oid {
    fn eq(&self, other: &Oid) -> (r: bool) {
        self.same(other)
    }
}

impl vstd::std_specs::cmp::PartialEqSpecImpl for Oid {
    open spec fn obeys_eq_spec() -> bool {
        true
    }

    open spec fn eq_spec(&self, other: &Oid) -> bool {
        *self == *other
    }
}

impl Eq for Oid {
}

} // verus!
