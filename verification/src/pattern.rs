//! The two text patterns of device discovery: the MAC address that a
//! physical path may carry, and the ACPI-style names of devices that are
//! never offered for selection. Both are searched with the `regex` crate.

use vstd::prelude::*;

verus! {

/// Whether `regex::Regex::new` accepts `pattern` as a regular expression.
pub uninterp spec fn regex_compiles(pattern: Seq<char>) -> bool;

/// What `regex::Regex::is_match` answers for the compiled `pattern` on `haystack`.
pub uninterp spec fn regex_is_match(pattern: Seq<char>, haystack: Seq<char>) -> bool;

/// The pattern of a MAC address: six pairs of hexadecimal digits, in either
/// case, separated by colons.
pub open spec fn mac_pattern_spec() -> Seq<char> {
    "(?i)([0-9a-f]{2}:){5}[0-9a-f]{2}"@
}

/// The pattern of an ACPI-style device name such as `ELAN0001:00 04F3:3195`.
pub open spec fn acpi_name_pattern_spec() -> Seq<char> {
    "^[A-Z0-9]+:\\d{2}\\s+[0-9A-F]{4}:[0-9A-F]{4}$"@
}

pub open spec fn is_hex_digit(c: char) -> bool {
    ||| ('0' <= c && c <= '9')
    ||| ('a' <= c && c <= 'f')
    ||| ('A' <= c && c <= 'F')
}

/// A MAC address `hh:hh:hh:hh:hh:hh` starts at position `i` of `s`.
pub open spec fn mac_address_at(s: Seq<char>, i: int) -> bool {
    &&& 0 <= i
    &&& i + 17 <= s.len()
    &&& forall|k: int|
        0 <= k < 17 ==> if k % 3 == 2 {
            #[trigger] s[i + k] == ':'
        } else {
            is_hex_digit(s[i + k])
        }
}

/// `s` holds a MAC address somewhere in it.
pub open spec fn contains_mac_address(s: Seq<char>) -> bool {
    exists|i: int| mac_address_at(s, i)
}

/// Whether a device name has the ACPI shape, by the `regex` crate's verdict.
pub open spec fn is_acpi_style_name(name: Seq<char>) -> bool {
    regex_is_match(acpi_name_pattern_spec(), name)
}

/// Compiles `pattern` with `regex::Regex::new` and, where that succeeds, asks
/// `regex::Regex::is_match` whether it matches somewhere in `haystack`.
/// `None` stands for a pattern that the crate refuses.
///
/// Claimed of the crate: the result is a function of the two texts alone;
/// the MAC pattern compiles, and under `(?i)` its classes `[0-9a-f]` match
/// exactly the ASCII hexadecimal digits of either case (the crate's simple
/// case folding maps `a`..`f` to `A`..`F` and nothing else), so it matches
/// exactly where a substring of the form `hh:hh:hh:hh:hh:hh` occurs; the
/// ACPI-name pattern compiles. Its `\d` and `\s` are Unicode classes, so
/// what it matches is left to the name `regex_is_match`.
#[verifier::external_body]
fn regex_search(pattern: &str, haystack: &str) -> (res: Option<bool>)
    ensures
        res is Some <==> regex_compiles(pattern@),
        res matches Some(b) ==> b == regex_is_match(pattern@, haystack@),
        pattern@ == mac_pattern_spec() ==> res == Some(contains_mac_address(haystack@)),
        pattern@ == acpi_name_pattern_spec() ==> res is Some,
{
    match regex::Regex::new(pattern) {
        Ok(re) => Some(re.is_match(haystack)),
        Err(_) => None,
    }
}

fn mac_pattern() -> (p: &'static str)
    ensures
        p@ == mac_pattern_spec(),
{
    "(?i)([0-9a-f]{2}:){5}[0-9a-f]{2}"
}

fn acpi_name_pattern() -> (p: &'static str)
    ensures
        p@ == acpi_name_pattern_spec(),
{
    "^[A-Z0-9]+:\\d{2}\\s+[0-9A-F]{4}:[0-9A-F]{4}$"
}

/// Whether `text` holds a MAC address anywhere.
pub fn has_mac_address(text: &str) -> (res: bool)
    ensures
        res == contains_mac_address(text@),
{
    match regex_search(mac_pattern(), text) {
        Some(found) => found,
        None => false,
    }
}

/// The patterns of device names that are never offered for selection.
fn get_device_names_to_ignore() -> (res: Vec<&'static str>)
    ensures
        res.len() == 1,
        res[0]@ == acpi_name_pattern_spec(),
{
    let mut patterns: Vec<&'static str> = Vec::new();
    patterns.push(acpi_name_pattern());
    patterns
}

/// Whether a device with this name is left out of the device list: true
/// exactly when the name has the ACPI shape.
pub fn should_ignore_device_by_name(device_name: &str) -> (res: bool)
    ensures
        res == is_acpi_style_name(device_name@),
{
    let patterns = get_device_names_to_ignore();
    let n = patterns.len();
    let mut i: usize = 0;
    while i < n
        invariant
            n == patterns.len(),
            i <= n,
            forall|j: int| 0 <= j < n ==> (#[trigger] patterns[j])@ == acpi_name_pattern_spec(),
            forall|j: int| 0 <= j < i ==> !regex_is_match(#[trigger] patterns[j]@, device_name@),
        decreases n - i,
    {
        if let Some(true) = regex_search(patterns[i], device_name) {
            return true;
        }
        i = i + 1;
    }
    false
}

} // verus!
