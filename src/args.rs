use vstd::prelude::*;

use crate::clock::{flexible_at, local_now, parse_flexible_timestr_at};
use crate::calendar::LocalDateTime;
use crate::timestr::TimeParseError;
use crate::text::{
    chars_of, is_unsigned, owned, parse_unsigned, push_str, same_chars, string_of,
    unsigned_value,
};

verus! {

/// Largest accepted listing limit and item index.
pub const MAX_COUNT: u32 = 65536;

/// Why a command-line count was refused.
#[derive(Clone, Copy, Debug, PartialEq, Eq, Structural)]
pub enum CountError {
    /// Not a number.
    NotANumber,
    /// Zero.
    TooSmall,
    /// Above `MAX_COUNT`.
    TooLarge,
}

/// A count from 1 to `MAX_COUNT`, written as an unsigned number.
pub open spec fn count_value(s: Seq<char>) -> Result<usize, CountError> {
    match unsigned_value(s) {
        Some(v) => if v == 0 {
            Err(CountError::TooSmall)
        } else if v > MAX_COUNT {
            Err(CountError::TooLarge)
        } else {
            Ok(v as usize)
        },
        None => Err(CountError::NotANumber),
    }
}

fn read_count(s: &str) -> (r: Result<usize, CountError>)
    ensures
        r == count_value(s@),
{
    let cs = chars_of(s);
    if !is_unsigned(&cs) {
        return Err(CountError::NotANumber);
    }
    match parse_unsigned(&cs, MAX_COUNT) {
        Some(v) => if v == 0 {
            Err(CountError::TooSmall)
        } else {
            Ok(v as usize)
        },
        None => Err(CountError::TooLarge),
    }
}

/// Reads a listing limit: a number from 1 to `MAX_COUNT`.
pub fn validate_limit(s: &str) -> (r: Result<usize, CountError>)
    ensures
        r == count_value(s@),
{
    read_count(s)
}

/// Reads a one-based item index: a number from 1 to `MAX_COUNT`.
pub fn validate_index(s: &str) -> (r: Result<usize, CountError>)
    ensures
        r == count_value(s@),
{
    read_count(s)
}

/// The hint given when a subcommand word is written where a value belongs.
pub open spec fn syntax_hint(cmd: Seq<char>, s: Seq<char>) -> Option<Seq<char>> {
    if s == "list"@ {
        Some("Do you mean 'list "@ + cmd + "' instead of '"@ + cmd + " list'"@)
    } else if s == "help"@ {
        Some("Do you mean --help instead of help"@)
    } else {
        None
    }
}

/// Passes a value through, unless it is the word `list` or `help`, which are refused with a
/// hint on the command meant.
pub fn syntax_helper(cmd: &str, s: &str) -> (r: Result<String, String>)
    ensures
        syntax_hint(cmd@, s@) matches Some(h) ==> (r matches Err(e) && e@ == h),
        syntax_hint(cmd@, s@) is None ==> (r matches Ok(v) && v@ == s@),
{
    let cs = chars_of(s);
    if same_chars(&cs, "list") {
        let mut out: Vec<char> = Vec::new();
        push_str(&mut out, "Do you mean 'list ");
        push_str(&mut out, cmd);
        push_str(&mut out, "' instead of '");
        push_str(&mut out, cmd);
        push_str(&mut out, " list'");
        return Err(string_of(&out));
    }
    if same_chars(&cs, "help") {
        return Err(owned("Do you mean --help instead of help"));
    }
    Ok(owned(s))
}

/// Passes a date/time phrase through when it reads as one, seen from the date of a clock
/// reading.
pub fn validate_timestr_at(s: &str, reading: Option<LocalDateTime>) -> (r: Result<String, TimeParseError>)
    requires
        reading matches Some(t) ==> t.valid(),
    ensures
        r is Ok <==> flexible_at(s@, reading) is Ok,
        r matches Ok(v) ==> v@ == s@,
        r matches Err(e) ==> flexible_at(s@, reading) == Err::<LocalDateTime, TimeParseError>(e),
{
    match parse_flexible_timestr_at(s, reading) {
        Ok(_) => Ok(owned(s)),
        Err(e) => Err(e),
    }
}

/// Passes a date/time phrase through when it reads as one, seen from the present local date.
pub fn validate_timestr(s: &str) -> (r: Result<String, TimeParseError>)
    ensures
        r matches Ok(v) ==> v@ == s@,
        exists|reading: Option<LocalDateTime>| (reading matches Some(t) ==> t.valid())
            && (r is Ok <==> flexible_at(s@, reading) is Ok)
            && (r matches Err(e) ==> flexible_at(s@, reading) == Err::<LocalDateTime, TimeParseError>(e)),
{
    let reading = local_now();
    validate_timestr_at(s, reading)
}

} // verus!
