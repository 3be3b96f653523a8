//! Matching node kinds against lists of kinds.
use vstd::prelude::*;

verus! {

broadcast use vstd::utf8::group_utf8_lib;

/// `kind` is one of `kinds`.
pub open spec fn kind_in(kinds: Seq<&str>, kind: Seq<char>) -> bool {
    exists|j: int| 0 <= j < kinds.len() && (#[trigger] kinds[j])@ == kind
}

/// Whether two strings are equal.
pub fn str_eq(a: &str, b: &str) -> (r: bool)
    ensures
        r == (a@ == b@),
{
    let x = a.as_bytes();
    let y = b.as_bytes();
    proof {
        vstd::utf8::encode_utf8_decode_utf8(a@);
        vstd::utf8::encode_utf8_decode_utf8(b@);
    }
    if x.len() != y.len() {
        return false;
    }
    let mut i: usize = 0;
    while i < x.len()
        invariant
            x@ == vstd::utf8::encode_utf8(a@),
            y@ == vstd::utf8::encode_utf8(b@),
            x@.len() == y@.len(),
            i <= x@.len(),
            forall|j: int| 0 <= j < i ==> x@[j] == y@[j],
        decreases x@.len() - i,
    {
        if x[i] != y[i] {
            assert(x@ != y@);
            return false;
        }
        i += 1;
    }
    assert(x@ =~= y@);
    true
}

/// Whether `kind` is one of `kinds`.
pub fn contains_kind(kinds: &[&str], kind: &str) -> (r: bool)
    ensures
        r == kind_in(kinds@, kind@),
{
    let mut j: usize = 0;
    while j < kinds.len()
        invariant
            j <= kinds@.len(),
            forall|k: int| 0 <= k < j ==> (#[trigger] kinds@[k])@ != kind@,
        decreases kinds@.len() - j,
    {
        if str_eq(kinds[j], kind) {
            assert(kinds@[j as int]@ == kind@);
            return true;
        }
        j += 1;
    }
    false
}

} // verus!
