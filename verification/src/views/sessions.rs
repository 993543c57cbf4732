//! Sessions panel helpers.
use vstd::prelude::*;

use crate::text::{push_char, str_chars, string_from_range};

verus! {

broadcast use vstd::string::group_string_axioms;

/// Widest session id shown in the panel.
pub const ID_DISPLAY_LEN: usize = 10;

/// What `truncate_id` returns: `id` itself when it has at most `max`
/// characters, else its first `max - 1` characters and `…`.
pub open spec fn spec_truncate_id(id: Seq<char>, max: nat) -> Seq<char> {
    if id.len() <= max {
        id
    } else {
        id.take(max - 1).push('…')
    }
}

/// Shortens an id to at most `max` characters, marking the cut with `…`.
pub fn truncate_id(id: &str, max: usize) -> (r: String)
    requires
        id@.len() <= max || max > 0,
    ensures
        r@ == spec_truncate_id(id@, max as nat),
        r@.len() == if id@.len() <= max {
            id@.len()
        } else {
            max as nat
        },
{
    let chars = str_chars(id);
    if chars.len() <= max {
        id.to_owned()
    } else {
        let mut head = string_from_range(&chars, 0, max - 1);
        push_char(&mut head, '…');
        assert(chars@.subrange(0, max - 1) =~= id@.take(max - 1));
        head
    }
}

} // verus!
