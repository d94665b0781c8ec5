//! Decimal and hexadecimal renderings of numbers, and small string helpers.

use vstd::prelude::*;

verus! {

/// Appends `c` to the end of `s` (`String::push`, which std documents as
/// appending the given char to the end of the string).
#[verifier::external_body]
pub(crate) fn string_push(s: &mut String, c: char)
    ensures
        final(s)@ == old(s)@.push(c),
{
    s.push(c);
}

/// Appends `t` to the end of `s` (`String::push_str`, which std documents as
/// appending the given string slice to the end of the string).
#[verifier::external_body]
pub(crate) fn string_push_str(s: &mut String, t: &str)
    ensures
        final(s)@ == old(s)@ + t@,
{
    s.push_str(t);
}

/// The character of a decimal digit.
pub open spec fn decimal_digit(d: nat) -> char {
    (48 + d) as char
}

/// The character of a lowercase hexadecimal digit.
pub open spec fn hex_digit_lower(d: nat) -> char {
    if d < 10 {
        (48 + d) as char
    } else {
        (87 + d) as char
    }
}

/// The decimal rendering of `n`, without leading zeros.
pub open spec fn decimal_text(n: nat) -> Seq<char>
    decreases n,
{
    if n < 10 {
        seq![decimal_digit(n)]
    } else {
        decimal_text(n / 10).push(decimal_digit(n % 10))
    }
}

/// The rendering of `n` as four lowercase hexadecimal digits, zero-padded.
pub open spec fn hex4_text(n: u16) -> Seq<char> {
    seq![
        hex_digit_lower((n as nat / 4096) % 16),
        hex_digit_lower((n as nat / 256) % 16),
        hex_digit_lower((n as nat / 16) % 16),
        hex_digit_lower(n as nat % 16),
    ]
}

fn digit_char(d: u64) -> (c: char)
    requires
        d < 10,
    ensures
        c == decimal_digit(d as nat),
{
    let b: u8 = 48u8 + (d as u8);
    b as char
}

fn hex_char(d: u16) -> (c: char)
    requires
        d < 16,
    ensures
        c == hex_digit_lower(d as nat),
{
    if d < 10 {
        let b: u8 = 48u8 + (d as u8);
        b as char
    } else {
        let b: u8 = 87u8 + (d as u8);
        b as char
    }
}

/// Appends the decimal rendering of `n` to `s`.
pub fn push_decimal(s: &mut String, n: u64)
    ensures
        final(s)@ == old(s)@ + decimal_text(n as nat),
    decreases n,
{
    if n >= 10 {
        push_decimal(s, n / 10);
    }
    string_push(s, digit_char(n % 10));
    proof {
        if n >= 10 {
            assert(old(s)@ + decimal_text(n as nat) == old(s)@ + decimal_text((n / 10) as nat) + seq![
                decimal_digit((n % 10) as nat),
            ]);
        }
    }
}

/// The decimal rendering of `n`, as `n.to_string()` writes it.
pub fn decimal_string(n: u64) -> (res: String)
    ensures
        res@ == decimal_text(n as nat),
        decimal_value(res@) == n as int,
        forall|i: int| 0 <= i < res@.len() ==> is_decimal_digit(#[trigger] res@[i]),
{
    proof {
        lemma_decimal_text_reads_back(n as nat);
    }
    let mut s = String::new();
    push_decimal(&mut s, n);
    assert(s@ == Seq::<char>::empty() + decimal_text(n as nat));
    s
}

/// The four-digit lowercase hexadecimal rendering of `n`, as
/// `format!("{:04x}", n)` writes it.
pub fn hex4_string(n: u16) -> (res: String)
    ensures
        res@ == hex4_text(n),
        res@.len() == 4,
        hex_value(res@) == n as int,
        forall|i: int| 0 <= i < 4 ==> is_lower_hex_digit(#[trigger] res@[i]),
{
    proof {
        lemma_hex4_text_reads_back(n);
    }
    let mut s = String::new();
    string_push(&mut s, hex_char((n / 4096) % 16));
    string_push(&mut s, hex_char((n / 256) % 16));
    string_push(&mut s, hex_char((n / 16) % 16));
    string_push(&mut s, hex_char(n % 16));
    assert(s@ == hex4_text(n));
    s
}

/// A decimal digit character.
pub open spec fn is_decimal_digit(c: char) -> bool {
    '0' <= c && c <= '9'
}

/// A lowercase hexadecimal digit character.
pub open spec fn is_lower_hex_digit(c: char) -> bool {
    ('0' <= c && c <= '9') || ('a' <= c && c <= 'f')
}

/// The value of a hexadecimal digit character: `0`-`9` are 0 to 9, `a`-`f`
/// are 10 to 15.
pub open spec fn hex_digit_value(c: char) -> int {
    if '0' <= c && c <= '9' {
        c as int - 48
    } else {
        c as int - 87
    }
}

/// The number that a text of decimal digits denotes, most significant first.
pub open spec fn decimal_value(s: Seq<char>) -> int
    decreases s.len(),
{
    if s.len() == 0 {
        0
    } else {
        decimal_value(s.drop_last()) * 10 + (s.last() as int - 48)
    }
}

/// The number that a text of hexadecimal digits denotes, most significant first.
pub open spec fn hex_value(s: Seq<char>) -> int
    decreases s.len(),
{
    if s.len() == 0 {
        0
    } else {
        hex_value(s.drop_last()) * 16 + hex_digit_value(s.last())
    }
}

/// The decimal rendering of `n` is made of decimal digits, has no leading
/// zero (but for `n == 0`), and read back as a decimal number it is `n`.
pub proof fn lemma_decimal_text_reads_back(n: nat)
    ensures
        decimal_text(n).len() > 0,
        forall|i: int| 0 <= i < decimal_text(n).len() ==> is_decimal_digit(#[trigger] decimal_text(n)[i]),
        n > 0 ==> decimal_text(n)[0] != '0',
        decimal_value(decimal_text(n)) == n,
    decreases n,
{
    if n >= 10 {
        lemma_decimal_text_reads_back(n / 10);
        let prefix = decimal_text(n / 10);
        assert(decimal_text(n) == prefix.push(decimal_digit(n % 10)));
        assert(decimal_text(n).drop_last() == prefix);
        assert(decimal_text(n)[0] == prefix[0]);
        assert((decimal_digit(n % 10) as int) == 48 + n % 10);
        assert(decimal_value(decimal_text(n)) == decimal_value(prefix) * 10 + (n % 10) as int);
    } else {
        assert(decimal_text(n) == seq![decimal_digit(n)]);
        assert(decimal_text(n).drop_last() =~= Seq::<char>::empty());
        assert(decimal_value(Seq::<char>::empty()) == 0);
        assert((decimal_digit(n) as int) == 48 + n);
    }
}

/// The four-character rendering of `n` is made of lowercase hexadecimal
/// digits, and read back as a base-16 number it is `n`.
pub proof fn lemma_hex4_text_reads_back(n: u16)
    ensures
        hex4_text(n).len() == 4,
        forall|i: int| 0 <= i < 4 ==> is_lower_hex_digit(#[trigger] hex4_text(n)[i]),
        hex_value(hex4_text(n)) == n as int,
{
    let s = hex4_text(n);
    let a = (n as nat / 4096) % 16;
    let b = (n as nat / 256) % 16;
    let c = (n as nat / 16) % 16;
    let d = n as nat % 16;
    assert forall|x: nat| x < 16 implies is_lower_hex_digit(#[trigger] hex_digit_lower(x))
        && hex_digit_value(hex_digit_lower(x)) == x by {
    }
    assert(hex_digit_value(s[0]) == a);
    assert(hex_digit_value(s[1]) == b);
    assert(hex_digit_value(s[2]) == c);
    assert(hex_digit_value(s[3]) == d);
    assert(s.drop_last().drop_last().drop_last().drop_last() =~= Seq::<char>::empty());
    assert(s.drop_last().drop_last().drop_last() =~= seq![s[0]]);
    assert(s.drop_last().drop_last() =~= seq![s[0], s[1]]);
    assert(s.drop_last() =~= seq![s[0], s[1], s[2]]);
    assert(hex_value(seq![s[0]]) == a) by {
        assert(seq![s[0]].drop_last() =~= Seq::<char>::empty());
        assert(hex_value(Seq::<char>::empty()) == 0);
    }
    assert(hex_value(seq![s[0], s[1]]) == a * 16 + b) by {
        assert(seq![s[0], s[1]].drop_last() =~= seq![s[0]]);
    }
    assert(hex_value(seq![s[0], s[1], s[2]]) == (a * 16 + b) * 16 + c) by {
        assert(seq![s[0], s[1], s[2]].drop_last() =~= seq![s[0], s[1]]);
    }
    assert(hex_value(s) == ((a * 16 + b) * 16 + c) * 16 + d);
    let m = n as nat;
    assert(((a * 16 + b) * 16 + c) * 16 + d == m) by (nonlinear_arith)
        requires
            m < 65536,
            a == (m / 4096) % 16,
            b == (m / 256) % 16,
            c == (m / 16) % 16,
            d == m % 16,
    ;
}

} // verus!
