//! What the library takes from the clock, the random source, the user's environment and the
//! Unicode tables. Verus believes the contracts in this file without proof.

use vstd::prelude::*;
use vstd::utf8::*;

verus! {

/// Whether every character is ASCII.
pub open spec fn ascii(s: Seq<char>) -> bool {
    forall|i: int| 0 <= i < s.len() ==> #[trigger] s[i] <= '\u{7f}'
}

/// The lower-case form of an ASCII character.
pub open spec fn ascii_lower(c: char) -> char {
    if 'A' <= c <= 'Z' {
        (c as u32 + 32) as char
    } else {
        c
    }
}

/// The upper-case form of an ASCII character.
pub open spec fn ascii_upper(c: char) -> char {
    if 'a' <= c <= 'z' {
        (c as u32 - 32) as char
    } else {
        c
    }
}

/// `s` with its ASCII letters in lower case.
pub open spec fn ascii_lowered(s: Seq<char>) -> Seq<char> {
    s.map_values(|c: char| ascii_lower(c))
}

/// `s` with its ASCII letters in upper case.
pub open spec fn ascii_uppered(s: Seq<char>) -> Seq<char> {
    s.map_values(|c: char| ascii_upper(c))
}

/// Whether `c` is an ASCII digit.
pub open spec fn digit(c: char) -> bool {
    '0' <= c <= '9'
}

/// Whether `c` is a hexadecimal digit in lower case.
pub open spec fn hex_digit(c: char) -> bool {
    digit(c) || 'a' <= c <= 'f'
}

/// What `str::to_lowercase` makes of a text.
pub uninterp spec fn lowercase(s: Seq<char>) -> Seq<char>;

/// Calls `str::to_lowercase`, which maps a text to lower case by the Unicode tables. The contract
/// names the result and adds three facts about it: a text of ASCII characters is mapped letter by
/// letter, no result holds an upper-case ASCII letter, and the result is the same where the ASCII
/// letters were in lower case before.
#[verifier::external_body]
pub(crate) fn to_lowercase(s: &str) -> (r: String)
    ensures
        r@ == lowercase(s@),
        ascii(s@) ==> r@ == ascii_lowered(s@),
        r@ == lowercase(ascii_lowered(s@)),
        forall|i: int| 0 <= i < r@.len() ==> !('A' <= #[trigger] r@[i] <= 'Z'),
{
    s.to_lowercase()
}

/// What `char::to_uppercase` makes of a character.
pub uninterp spec fn uppercase(c: char) -> Seq<char>;

/// Calls `char::to_uppercase`, which maps a character to one or more characters by the Unicode
/// tables. The contract names the result and adds that it is never empty, that an ASCII character
/// is mapped to one ASCII character, and that no other character is mapped to a slash or a dot.
#[verifier::external_body]
pub(crate) fn to_uppercase(c: char) -> (r: String)
    ensures
        r@ == uppercase(c),
        r@.len() > 0,
        c <= '\u{7f}' ==> r@ == seq![ascii_upper(c)],
        c != '/' && c != '.' ==> !r@.contains('/') && !r@.contains('.'),
{
    c.to_uppercase().to_string()
}

/// What `String::from_utf8_lossy` makes of bytes.
pub uninterp spec fn lossy_text(bytes: Seq<u8>) -> Seq<char>;

/// Calls `String::from_utf8_lossy`, which decodes UTF-8 and puts a replacement character for what
/// is not valid. The contract names the result and adds that valid UTF-8 is decoded as it stands.
#[verifier::external_body]
pub(crate) fn from_utf8_lossy(bytes: &Vec<u8>) -> (r: String)
    ensures
        r@ == lossy_text(bytes@),
        valid_utf8(bytes@) ==> r@ == decode_utf8(bytes@),
{
    String::from_utf8_lossy(bytes).to_string()
}

/// Calls `dirs::home_dir`, which looks up the home directory of the user who runs the program,
/// and hands it out as text. Nothing is promised of it: the result depends on the environment.
#[verifier::external_body]
pub(crate) fn home_dir() -> (r: Option<String>) {
    dirs::home_dir().map(|path| path.to_string_lossy().to_string())
}

/// Reads `std::path::MAIN_SEPARATOR`, which the system puts between the parts of a path. Nothing is
/// promised of it: the result depends on the machine.
#[verifier::external_body]
pub(crate) fn main_separator() -> (r: char) {
    std::path::MAIN_SEPARATOR
}

/// Calls `uuid::Uuid::new_v4` and writes the identifier without hyphens. Whatever the random
/// source gives, that is 32 hexadecimal digits in lower case, with the version and the variant at
/// their fixed places. The call panics on a machine without a random source.
#[verifier::external_body]
pub(crate) fn new_uuid() -> (r: String)
    ensures
        uuid_v4(r@),
{
    uuid::Uuid::new_v4().simple().to_string()
}

/// The form of a random identifier without hyphens.
pub open spec fn uuid_v4(s: Seq<char>) -> bool {
    &&& s.len() == 32
    &&& forall|i: int| 0 <= i < 32 ==> hex_digit(#[trigger] s[i])
    &&& s[12] == '4'
    &&& s[16] == '8' || s[16] == '9' || s[16] == 'a' || s[16] == 'b'
}

/// What follows the year in a date and time of RFC 3339, in UTC: month, day, hour, minute and
/// second with two digits each, a fraction of 3, 6 or 9 digits unless it is zero, and the offset.
pub open spec fn after_year(s: Seq<char>) -> bool {
    &&& s.len() >= 21
    &&& s[0] == '-' && digit(s[1]) && digit(s[2])
    &&& s[3] == '-' && digit(s[4]) && digit(s[5])
    &&& s[6] == 'T' && digit(s[7]) && digit(s[8])
    &&& s[9] == ':' && digit(s[10]) && digit(s[11])
    &&& s[12] == ':' && digit(s[13]) && digit(s[14])
    &&& second_fraction(s.subrange(15, s.len() - 6))
    &&& s.skip(s.len() - 6) == "+00:00"@
}

/// A fraction of a second behind a dot, or nothing.
pub open spec fn second_fraction(s: Seq<char>) -> bool {
    ||| s.len() == 0
    ||| {
        &&& s.len() == 4 || s.len() == 7 || s.len() == 10
        &&& s[0] == '.'
        &&& forall|i: int| 1 <= i < s.len() ==> digit(#[trigger] s[i])
    }
}

/// A year: four digits up to 9999, and a plus sign with more digits after it.
pub open spec fn year_digits(s: Seq<char>) -> bool {
    ||| s.len() == 4 && forall|i: int| 0 <= i < s.len() ==> digit(#[trigger] s[i])
    ||| s.len() >= 6 && s[0] == '+' && forall|i: int| 1 <= i < s.len() ==> digit(#[trigger] s[i])
}

/// A date and time of RFC 3339, in UTC.
pub open spec fn date_time(s: Seq<char>) -> bool {
    exists|n: int|
        0 <= n <= s.len() && #[trigger] year_digits(s.take(n)) && after_year(s.skip(n))
}

/// Calls `chrono::Utc::now` and writes the time by RFC 3339. Whatever the time is, the text has the
/// form of a date and time in UTC; which time it is, no contract can say. The call panics where the
/// clock of the machine stands before 1970.
#[verifier::external_body]
pub(crate) fn now_rfc3339() -> (r: String)
    ensures
        date_time(r@),
{
    chrono::Utc::now().to_rfc3339()
}

/// A time as year, month, day, hour, minute and second, all in digits: fourteen of them up to
/// the year 9999, and a plus sign with more digits after it.
pub open spec fn time_digits(s: Seq<char>) -> bool {
    ||| s.len() == 14 && forall|i: int| 0 <= i < s.len() ==> digit(#[trigger] s[i])
    ||| s.len() >= 16 && s[0] == '+' && forall|i: int| 1 <= i < s.len() ==> digit(#[trigger] s[i])
}

/// Calls `chrono::Utc::now` and writes the time by a format; other formats could panic. For the one
/// that is let in, the text is made of digits, with a plus sign before a year of more than four.
/// The call panics where the clock of the machine stands before 1970.
#[verifier::external_body]
pub(crate) fn now_formatted(format: &str) -> (r: String)
    requires
        format@ == "%Y%m%d%H%M%S"@,
    ensures
        time_digits(r@),
{
    chrono::Utc::now().format(format).to_string()
}

} // verus!
