//! The clock, and the few operations on text that the game needs.

use vstd::prelude::*;
use vstd::string::StrSliceExecFns;

verus! {

/// `std::time::SystemTime`, a reading of the system clock. Nothing is known of what is
/// inside.
#[verifier::external_type_specification]
#[verifier::external_body]
pub struct ExSystemTime(std::time::SystemTime);

/// `std::time::SystemTimeError`, the error for a reading that lies before the one it is
/// measured from. Nothing is known of what is inside.
#[verifier::external_type_specification]
#[verifier::external_body]
pub struct ExSystemTimeError(std::time::SystemTimeError);

/// `std::time::SystemTime::now`: the reading of the system clock. Nothing is claimed of it.
#[verifier::external_body]
fn clock_reading() -> std::time::SystemTime {
    std::time::SystemTime::now()
}

/// `std::time::SystemTime::duration_since`, measured from `UNIX_EPOCH`: the time elapsed
/// since the epoch, or an error for a reading that lies before it. Nothing is claimed of
/// which reading gives what.
#[verifier::external_body]
fn since_epoch(reading: &std::time::SystemTime) -> Result<
    std::time::Duration,
    std::time::SystemTimeError,
> {
    reading.duration_since(std::time::SystemTime::UNIX_EPOCH)
}

/// `std::time::Duration::as_millis`: the whole milliseconds of a duration. Nothing is
/// claimed of the number.
#[verifier::external_body]
fn whole_milliseconds(elapsed: &std::time::Duration) -> u128 {
    elapsed.as_millis()
}

/// The time now, in milliseconds since the Unix epoch; 0 for a clock set before the epoch.
pub fn get_time() -> u128 {
    let reading = clock_reading();
    match since_epoch(&reading) {
        Ok(elapsed) => whole_milliseconds(&elapsed),
        Err(_) => 0,
    }
}

/// An upper-case letter of the English alphabet.
pub open spec fn is_upper_letter(c: char) -> bool {
    'A' <= c <= 'Z'
}

/// A character with `a` to `z` turned into `A` to `Z` and every other character kept.
pub open spec fn upper_char(c: char) -> char {
    if 'a' <= c <= 'z' {
        ((c as u32) - 32) as char
    } else {
        c
    }
}

/// A text with `a` to `z` turned into `A` to `Z` and every other character kept.
pub open spec fn upper_text(text: Seq<char>) -> Seq<char> {
    text.map_values(|c: char| upper_char(c))
}

/// `str::to_ascii_uppercase`: a copy of the text in which each of the letters `a` to `z`
/// has become its upper-case letter and every other character, those outside ASCII too,
/// is unchanged.
#[verifier::external_body]
pub(crate) fn to_upper(text: &String) -> (upper: String)
    ensures
        upper@ == upper_text(text@),
{
    text.to_ascii_uppercase()
}

/// `String::push`: the character is appended to the text.
#[verifier::external_body]
pub(crate) fn push_char(text: &mut String, c: char)
    ensures
        final(text)@ == old(text)@.push(c),
{
    text.push(c)
}

/// The number of characters of a text.
pub fn char_count(text: &String) -> (count: usize)
    ensures
        count == text@.len(),
{
    text.as_str().unicode_len()
}

} // verus!
