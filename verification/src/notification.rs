//! The identity of the notification that shows the level.
//!
//! A run stores the identity of its notification as a decimal number, and the
//! next run replaces that notification in place of adding another. What was
//! stored is only a hint: where it cannot be read, a new notification is made.

use crate::decimal::decimal_text;
use crate::decimal::lemma_render_then_parse_unsigned;
use crate::decimal::parse_u32;
use crate::decimal::parse_u32_spec;
use crate::decimal::render_u32;
use vstd::prelude::*;

verus! {

/// Reads the identity that an earlier run has stored: `contents` as a decimal
/// number of 32 bits, with nothing around it. Anything else is no identity.
pub fn get_notification_id(contents: &str) -> (id: Option<u32>)
    ensures
        id == parse_u32_spec(contents@),
{
    parse_u32(contents)
}

/// The text to store for the identity `id`: the one that `get_notification_id`
/// reads back as `id`.
pub fn notification_id_text(id: u32) -> (text: String)
    ensures
        text@ == decimal_text(id as int),
        parse_u32_spec(text@) == Some(id),
{
    proof {
        lemma_render_then_parse_unsigned(id);
    }
    render_u32(id)
}

} // verus!
