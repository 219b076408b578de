//! Credential gate: every API operation is allowed exactly when the
//! presented bearer credential equals the configured shared secret.

use vstd::prelude::*;

verus! {

/// Character-by-character string equality.
///
/// Returns `true` exactly when the two strings consist of the same
/// characters in the same order.
pub fn str_eq(a: &str, b: &str) -> (r: bool)
    ensures
        r == (a@ == b@),
{
    let alen = a.unicode_len();
    let blen = b.unicode_len();
    if alen != blen {
        proof {
            assert(a@ != b@) by {
                assert(a@.len() != b@.len());
            }
        }
        return false;
    }
    let mut i: usize = 0;
    while i < alen
        invariant
            alen == a@.len(),
            alen == b@.len(),
            i <= alen,
            forall|j: int| 0 <= j < i ==> a@[j] == b@[j],
        decreases alen - i,
    {
        if a.get_char(i) != b.get_char(i) {
            return false;
        }
        i += 1;
    }
    proof {
        assert(a@ =~= b@);
    }
    true
}

/// Decides whether a presented bearer credential authorizes a request:
/// allowed exactly when it equals the configured secret.
pub fn credential_ok(presented: &str, secret: &str) -> (r: bool)
    ensures
        r == (presented@ == secret@),
{
    str_eq(presented, secret)
}

} // verus!
