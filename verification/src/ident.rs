use crate::outside::{is_xid_continue, is_xid_start, xid_continue, xid_start};
use crate::text::chars_of;
use vstd::prelude::*;

verus! {

/// Whether `s` can be written as an identifier: it is not empty, it begins with an
/// underscore or a character that may begin an identifier, and goes on with characters that
/// may continue one. A keyword counts as an identifier here.
pub open spec fn is_identifier(s: Seq<char>) -> bool {
    &&& s.len() > 0
    &&& (s[0] == '_' || xid_start(s[0]))
    &&& forall|i: int| 1 <= i < s.len() ==> xid_continue(#[trigger] s[i])
}

/// Tells whether `s` can be written as an identifier.
pub fn check_identifier(s: &str) -> (r: bool)
    ensures
        r == is_identifier(s@),
{
    let sv = chars_of(s);
    if sv.len() == 0 {
        return false;
    }
    if sv[0] != '_' && !is_xid_start(sv[0]) {
        return false;
    }
    let mut i: usize = 1;
    while i < sv.len()
        invariant
            1 <= i <= sv.len(),
            sv@ == s@,
            forall|k: int| 1 <= k < i ==> xid_continue(#[trigger] s@[k]),
        decreases sv.len() - i,
    {
        if !is_xid_continue(sv[i]) {
            assert(!xid_continue(s@[i as int]));
            return false;
        }
        i += 1;
    }
    true
}

} // verus!
