use vstd::prelude::*;
use vstd::string::*;

use crate::error::Error;

verus! {

/// An ASCII hexadecimal digit, in either case.
pub open spec fn is_hex_digit(c: char) -> bool {
    ('0' <= c && c <= '9') || ('a' <= c && c <= 'f') || ('A' <= c && c <= 'F')
}

/// The value of a hexadecimal digit.
pub open spec fn hex_value(c: char) -> int {
    if '0' <= c && c <= '9' {
        c as int - '0' as int
    } else if 'a' <= c && c <= 'f' {
        c as int - 'a' as int + 10
    } else {
        c as int - 'A' as int + 10
    }
}

/// Text of a device address: six two-digit hexadecimal octets joined by colons.
pub open spec fn is_mac_text(s: Seq<char>) -> bool {
    &&& s.len() == 17
    &&& forall|k: int| 0 <= k < 6 ==> #[trigger] is_hex_digit(s[3 * k]) && is_hex_digit(s[3 * k + 1])
    &&& forall|k: int| 0 <= k < 5 ==> #[trigger] s[3 * k + 2] == ':'
}

/// Octet `k` of address text.
pub open spec fn mac_octet(s: Seq<char>, k: int) -> u8 {
    (16 * hex_value(s[3 * k]) + hex_value(s[3 * k + 1])) as u8
}

/// The upper-case hexadecimal digit of a value below sixteen.
pub open spec fn hex_char(n: u8) -> char {
    if n < 10 {
        (('0' as int) + n as int) as char
    } else {
        (('A' as int) + n as int - 10) as char
    }
}

/// The canonical text of an address: upper-case digits, colon-separated.
pub open spec fn mac_text(a: Seq<u8>) -> Seq<char> {
    seq![
        hex_char(a[0] / 16), hex_char(a[0] % 16), ':',
        hex_char(a[1] / 16), hex_char(a[1] % 16), ':',
        hex_char(a[2] / 16), hex_char(a[2] % 16), ':',
        hex_char(a[3] / 16), hex_char(a[3] % 16), ':',
        hex_char(a[4] / 16), hex_char(a[4] % 16), ':',
        hex_char(a[5] / 16), hex_char(a[5] % 16),
    ]
}

fn hex_digit(c: char) -> (r: Option<u8>)
    ensures
        r is Some <==> is_hex_digit(c),
        r is Some ==> r->0 as int == hex_value(c),
{
    if '0' <= c && c <= '9' {
        Some((c as u32 - '0' as u32) as u8)
    } else if 'a' <= c && c <= 'f' {
        Some((c as u32 - 'a' as u32 + 10) as u8)
    } else if 'A' <= c && c <= 'F' {
        Some((c as u32 - 'A' as u32 + 10) as u8)
    } else {
        None
    }
}

/// Parses address text such as `ED:12:89:6C:08:37` (digits in either case) into its
/// six bytes. Anything but exactly six colon-separated two-digit octets is refused.
pub fn str_mac_to_array(mac_address: &str) -> (r: Result<[u8; 6], Error>)
    ensures
        r is Ok <==> is_mac_text(mac_address@),
        r is Ok ==> forall|k: int| 0 <= k < 6 ==> #[trigger] r->Ok_0[k] == mac_octet(mac_address@, k),
        r is Err ==> r->Err_0 == Error::MalformedAddress,
{
    if mac_address.unicode_len() != 17 {
        return Err(Error::MalformedAddress);
    }
    let mut out: [u8; 6] = [0u8; 6];
    let mut k: usize = 0;
    while k < 6
        invariant
            mac_address@.len() == 17,
            k <= 6,
            forall|j: int| 0 <= j < k ==> #[trigger] is_hex_digit(mac_address@[3 * j]) && is_hex_digit(mac_address@[3 * j + 1]),
            forall|j: int| 0 <= j < k && j < 5 ==> #[trigger] mac_address@[3 * j + 2] == ':',
            forall|j: int| 0 <= j < k ==> #[trigger] out@[j] == mac_octet(mac_address@, j),
        decreases 6 - k,
    {
        let hi = hex_digit(mac_address.get_char(3 * k));
        let lo = hex_digit(mac_address.get_char(3 * k + 1));
        if hi.is_none() || lo.is_none() {
            return Err(Error::MalformedAddress);
        }
        if k < 5 && mac_address.get_char(3 * k + 2) != ':' {
            return Err(Error::MalformedAddress);
        }
        let h = hi.unwrap();
        let l = lo.unwrap();
        out[k] = h * 16 + l;
        k = k + 1;
    }
    Ok(out)
}

fn hex_digit_text(n: u8) -> (r: &'static str)
    requires
        n < 16,
    ensures
        r@ == seq![hex_char(n)],
{
    proof {
        reveal_strlit("0");
        reveal_strlit("1");
        reveal_strlit("2");
        reveal_strlit("3");
        reveal_strlit("4");
        reveal_strlit("5");
        reveal_strlit("6");
        reveal_strlit("7");
        reveal_strlit("8");
        reveal_strlit("9");
        reveal_strlit("A");
        reveal_strlit("B");
        reveal_strlit("C");
        reveal_strlit("D");
        reveal_strlit("E");
        reveal_strlit("F");
    }
    let r = match n {
        0 => "0",
        1 => "1",
        2 => "2",
        3 => "3",
        4 => "4",
        5 => "5",
        6 => "6",
        7 => "7",
        8 => "8",
        9 => "9",
        10 => "A",
        11 => "B",
        12 => "C",
        13 => "D",
        14 => "E",
        _ => "F",
    };
    assert(r@ =~= seq![hex_char(n)]);
    r
}

fn push_octet(s: &mut String, b: u8)
    ensures
        final(s)@ == old(s)@ + seq![hex_char(b / 16), hex_char(b % 16)],
{
    let hi = hex_digit_text(b / 16);
    let lo = hex_digit_text(b % 16);
    s.append(hi);
    s.append(lo);
    assert(s@ =~= old(s)@ + seq![hex_char(b / 16), hex_char(b % 16)]);
}

/// The canonical text of an address, such as `ED:12:89:6C:08:37`.
pub fn format_mac(addr: &[u8; 6]) -> (r: String)
    ensures
        r@ == mac_text(addr@),
{
    proof {
        reveal_strlit(":");
    }
    let mut s = String::new();
    push_octet(&mut s, addr[0]);
    s.append(":");
    push_octet(&mut s, addr[1]);
    s.append(":");
    push_octet(&mut s, addr[2]);
    s.append(":");
    push_octet(&mut s, addr[3]);
    s.append(":");
    push_octet(&mut s, addr[4]);
    s.append(":");
    push_octet(&mut s, addr[5]);
    assert(s@ =~= mac_text(addr@));
    s
}

proof fn lemma_hex_char(n: u8)
    requires
        n < 16,
    ensures
        is_hex_digit(hex_char(n)),
        hex_value(hex_char(n)) == n,
{
}

/// Canonical address text parses back to the same address.
pub proof fn lemma_mac_text_round_trip(a: [u8; 6])
    ensures
        is_mac_text(mac_text(a@)),
        forall|k: int| 0 <= k < 6 ==> #[trigger] mac_octet(mac_text(a@), k) == a@[k],
{
    let t = mac_text(a@);
    assert forall|k: int| 0 <= k < 6 implies #[trigger] is_hex_digit(t[3 * k]) && is_hex_digit(t[3 * k + 1])
        && mac_octet(t, k) == a@[k] by {
        let b = a@[k];
        lemma_hex_char(b / 16);
        lemma_hex_char(b % 16);
        assert(t[3 * k] == hex_char(b / 16) && t[3 * k + 1] == hex_char(b % 16)) by {
            assert(0 <= k < 6);
        }
    }
}

} // verus!
