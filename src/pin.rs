use vstd::prelude::*;
use vstd::string::*;

verus! {

/// Most digits a Bluetooth passkey has.
pub const PIN_MAX_DIGITS: usize = 6;

/// What one reply line of a PIN-entry helper means.
#[derive(Debug, Clone, Copy, PartialEq, Eq, Structural)]
pub enum PinReply {
    /// Not a data line; more replies may follow.
    NotData,
    /// The user entered this passkey.
    Passkey(u32),
    /// The user entered nothing usable: the pairing request is declined.
    Declined,
}

pub open spec fn is_space(c: char) -> bool {
    c == ' ' || c == '\t' || c == '\n' || c == '\r'
}

pub open spec fn is_digit(c: char) -> bool {
    '0' <= c && c <= '9'
}

/// Text with leading and trailing white space removed.
pub open spec fn trim_spaces(s: Seq<char>) -> Seq<char>
    decreases s.len(),
{
    if s.len() > 0 && is_space(s[0]) {
        trim_spaces(s.drop_first())
    } else if s.len() > 0 && is_space(s.last()) {
        trim_spaces(s.drop_last())
    } else {
        s
    }
}

/// The value of a string of decimal digits.
pub open spec fn digits_value(s: Seq<char>) -> nat
    decreases s.len(),
{
    if s.len() == 0 {
        0
    } else {
        (digits_value(s.drop_last()) * 10 + (s.last() as int - '0' as int)) as nat
    }
}

/// The PIN field of a data line: at most six characters after the `D ` prefix, trimmed.
pub open spec fn pin_field(s: Seq<char>) -> Seq<char> {
    trim_spaces(
        s.subrange(
            2,
            if s.len() < 2 + PIN_MAX_DIGITS {
                s.len() as int
            } else {
                2 + PIN_MAX_DIGITS
            },
        ),
    )
}

/// The meaning of a reply line: a data line (`D ` then the PIN) gives the passkey its
/// PIN field spells in decimal digits, and is declined when that field is empty or holds
/// anything else; every other line is not data.
pub open spec fn pin_reply(s: Seq<char>) -> PinReply {
    if s.len() >= 2 && s[0] == 'D' && s[1] == ' ' {
        let p = pin_field(s);
        if p.len() > 0 && forall|i: int| 0 <= i < p.len() ==> #[trigger] is_digit(p[i]) {
            PinReply::Passkey(digits_value(p) as u32)
        } else {
            PinReply::Declined
        }
    } else {
        PinReply::NotData
    }
}

fn char_is_space(c: char) -> (r: bool)
    ensures
        r == is_space(c),
{
    c == ' ' || c == '\t' || c == '\n' || c == '\r'
}

/// Ten to the power `n`.
pub open spec fn pow10(n: nat) -> nat
    decreases n,
{
    if n == 0 {
        1
    } else {
        10 * pow10((n - 1) as nat)
    }
}

/// Reads one reply line of a PIN-entry helper.
pub fn pin_from_reply(line: &str) -> (r: PinReply)
    ensures
        r == pin_reply(line@),
{
    let n = line.unicode_len();
    if n < 2 || line.get_char(0) != 'D' || line.get_char(1) != ' ' {
        return PinReply::NotData;
    }
    let ghost s = line@;
    let mut hi: usize = if n < 2 + PIN_MAX_DIGITS {
        n
    } else {
        2 + PIN_MAX_DIGITS
    };
    let mut lo: usize = 2;
    let ghost window = s.subrange(2, hi as int);
    while lo < hi && char_is_space(line.get_char(lo))
        invariant
            s == line@,
            n == s.len(),
            2 <= lo <= hi <= n,
            hi <= 2 + PIN_MAX_DIGITS,
            trim_spaces(window) == trim_spaces(s.subrange(lo as int, hi as int)),
        decreases hi - lo,
    {
        assert(s.subrange(lo as int, hi as int).drop_first() =~= s.subrange(lo + 1, hi as int));
        lo = lo + 1;
    }
    while hi > lo && char_is_space(line.get_char(hi - 1))
        invariant
            s == line@,
            n == s.len(),
            2 <= lo <= hi <= n,
            hi <= 2 + PIN_MAX_DIGITS,
            lo < hi ==> !is_space(s[lo as int]),
            trim_spaces(window) == trim_spaces(s.subrange(lo as int, hi as int)),
        decreases hi - lo,
    {
        assert(s.subrange(lo as int, hi as int).drop_last() =~= s.subrange(lo as int, hi - 1));
        hi = hi - 1;
    }
    let ghost p = s.subrange(lo as int, hi as int);
    assert(trim_spaces(p) == p);
    assert(pin_field(s) == p);
    if lo == hi {
        return PinReply::Declined;
    }
    let mut value: u32 = 0;
    let mut i: usize = lo;
    while i < hi
        invariant
            s == line@,
            n == s.len(),
            2 <= lo <= i <= hi <= n,
            hi <= 2 + PIN_MAX_DIGITS,
            p == s.subrange(lo as int, hi as int),
            p == pin_field(s),
            s[0] == 'D' && s[1] == ' ',
            forall|j: int| lo <= j < i ==> #[trigger] is_digit(s[j]),
            value as nat == digits_value(s.subrange(lo as int, i as int)),
            value < pow10((i - lo) as nat),
        decreases hi - i,
    {
        let c = line.get_char(i);
        if !('0' <= c && c <= '9') {
            assert(!is_digit(p[i - lo]));
            return PinReply::Declined;
        }
        assert(s.subrange(lo as int, i + 1).drop_last() =~= s.subrange(lo as int, i as int));
        assert(pow10((i - lo) as nat) <= 100000) by {
            assert(i - lo < 6);
            reveal_with_fuel(pow10, 7);
            if i - lo == 0 {} else if i - lo == 1 {} else if i - lo == 2 {} else if i - lo == 3 {}
            else if i - lo == 4 {} else {}
        }
        value = value * 10 + (c as u32 - '0' as u32);
        i = i + 1;
    }
    assert(p =~= s.subrange(lo as int, i as int));
    PinReply::Passkey(value)
}

} // verus!
