//! Who may control the overlay: the channel's owner and the channel's moderators.

use crate::naming::starts_with;
use vstd::prelude::*;

verus! {

/// Whether two texts are the same.
pub fn same_text(a: &str, b: &str) -> (r: bool)
    ensures
        r == (a@ == b@),
{
    let r = a.unicode_len() == b.unicode_len() && starts_with(a, b);
    proof {
        if a@.len() == b@.len() && b@.is_prefix_of(a@) {
            assert(a@ =~= b@);
        }
    }
    r
}

/// Whether the user with login `login`, who moderates the channels of the
/// logins `moderated`, may control the overlay of `channel`: exactly when the
/// user is that channel or moderates it.
pub fn grants_control(login: &str, moderated: &Vec<String>, channel: &str) -> (r: bool)
    ensures
        r == (login@ == channel@ || exists|i: int| 0 <= i < moderated@.len() && #[trigger] moderated@[i]@ == channel@),
{
    if same_text(login, channel) {
        return true;
    }
    let mut i: usize = 0;
    while i < moderated.len()
        invariant
            i <= moderated@.len(),
            forall|j: int| 0 <= j < i ==> #[trigger] moderated@[j]@ != channel@,
        decreases moderated@.len() - i,
    {
        if same_text(moderated[i].as_str(), channel) {
            return true;
        }
        i = i + 1;
    }
    false
}

} // verus!
