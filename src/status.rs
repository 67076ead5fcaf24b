use vstd::prelude::*;

use crate::text::{chars_of, owned, parse_unsigned, same_chars, unsigned_value};
use crate::timestr::{lower_chars, lower_of};

verus! {

/// The name of a status code.
pub open spec fn status_name(status: u8) -> Seq<char> {
    if status == 0 {
        "ongoing"@
    } else if status == 1 {
        "completed"@
    } else if status == 2 {
        "cancelled"@
    } else if status == 3 {
        "duplicate"@
    } else if status == 4 {
        "suspended"@
    } else if status == 5 {
        "removed"@
    } else if status == 6 {
        "pending"@
    } else {
        "unknown"@
    }
}

/// The code a lowercase status word names: a single status, or one of the groups `closed`
/// (253), `open` (254) and `all` (255).
pub open spec fn status_word(l: Seq<char>) -> Option<u8> {
    if l == "ongoing"@ {
        Some(0)
    } else if l == "done"@ || l == "complete"@ || l == "completed"@ {
        Some(1)
    } else if l == "cancelled"@ || l == "canceled"@ || l == "cancel"@ {
        Some(2)
    } else if l == "duplicate"@ {
        Some(3)
    } else if l == "deferred"@ || l == "suspended"@ || l == "shelved"@ {
        Some(4)
    } else if l == "removed"@ || l == "remove"@ {
        Some(5)
    } else if l == "pending"@ {
        Some(6)
    } else if l == "closed"@ {
        Some(253)
    } else if l == "open"@ {
        Some(254)
    } else if l == "all"@ {
        Some(255)
    } else {
        None
    }
}

/// The name of a status code.
pub fn status_to_string(status: u8) -> (r: &'static str)
    ensures
        r@ == status_name(status),
{
    match status {
        0 => "ongoing",
        1 => "completed",
        2 => "cancelled",
        3 => "duplicate",
        4 => "suspended",
        5 => "removed",
        6 => "pending",
        _ => "unknown",
    }
}

/// The name of a status code, owned.
pub fn translate_status(status: u8) -> (r: String)
    ensures
        r@ == status_name(status),
{
    owned(status_to_string(status))
}

fn status_word_exec(l: &Vec<char>) -> (r: Option<u8>)
    ensures
        r == status_word(l@),
{
    if same_chars(l, "ongoing") {
        Some(0)
    } else if same_chars(l, "done") || same_chars(l, "complete") || same_chars(l, "completed") {
        Some(1)
    } else if same_chars(l, "cancelled") || same_chars(l, "canceled") || same_chars(l, "cancel") {
        Some(2)
    } else if same_chars(l, "duplicate") {
        Some(3)
    } else if same_chars(l, "deferred") || same_chars(l, "suspended") || same_chars(l, "shelved") {
        Some(4)
    } else if same_chars(l, "removed") || same_chars(l, "remove") {
        Some(5)
    } else if same_chars(l, "pending") {
        Some(6)
    } else if same_chars(l, "closed") {
        Some(253)
    } else if same_chars(l, "open") {
        Some(254)
    } else if same_chars(l, "all") {
        Some(255)
    } else {
        None
    }
}

/// Reads a status: a status word in any case, or a code from 0 to 255; anything else is
/// refused, handing back the text given.
pub fn parse_status(s: &str) -> (r: Result<u8, String>)
    ensures
        status_word(lower_of(s@)) matches Some(c) ==> r == Ok::<u8, String>(c),
        status_word(lower_of(s@)) is None ==> (match unsigned_value(s@) {
            Some(v) => if v <= 255 { r == Ok::<u8, String>(v as u8) } else { r matches Err(e) && e@ == s@ },
            None => r matches Err(e) && e@ == s@,
        }),
{
    let cs = chars_of(s);
    let l = lower_chars(&cs);
    if let Some(c) = status_word_exec(&l) {
        return Ok(c);
    }
    match parse_unsigned(&cs, 255) {
        Some(v) => Ok(v as u8),
        None => Err(owned(s)),
    }
}

} // verus!
