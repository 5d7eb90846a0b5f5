//! MAC addresses: the six-byte hardware address, the textual forms it is
//! written in, and the validation of candidate strings.

use vstd::prelude::*;
use vstd::string::StrSliceExecFns;
use vstd::string::StringExecFns;

use crate::errors::MacParseError;

verus! {

/// A hardware (MAC) address: exactly six raw bytes.
#[derive(Debug)]
pub struct MacAddress {
    pub bytes: Vec<u8>,
}

impl MacAddress {
    /// A well-formed address holds exactly six bytes.
    pub open spec fn wf(&self) -> bool {
        self.bytes@.len() == 6
    }

    /// The six bytes of the address, in order.
    pub fn octets(&self) -> (r: &Vec<u8>)
        ensures
            r@ == self.bytes@,
    {
        &self.bytes
    }
}

/// True for the sixteen hexadecimal digit characters, either case.
pub open spec fn is_hex_digit(c: char) -> bool {
    ('0' <= c && c <= '9') || ('a' <= c && c <= 'f') || ('A' <= c && c <= 'F')
}

/// Numeric value of a hexadecimal digit character (0 for non-digits).
pub open spec fn hex_digit_val(c: char) -> u8 {
    if '0' <= c && c <= '9' {
        ((c as int) - 48) as u8
    } else if 'a' <= c && c <= 'f' {
        ((c as int) - 97 + 10) as u8
    } else if 'A' <= c && c <= 'F' {
        ((c as int) - 65 + 10) as u8
    } else {
        0
    }
}

/// Number of occurrences of `c` among the first `n` characters of `s`.
pub open spec fn count_char_upto(s: Seq<char>, c: char, n: int) -> nat
    decreases n,
{
    if n <= 0 {
        0
    } else {
        count_char_upto(s, c, n - 1) + (if s[n - 1] == c {
            1nat
        } else {
            0nat
        })
    }
}

/// Number of occurrences of `c` in `s`; splitting `s` by `c` yields one part
/// more than this count.
pub open spec fn count_char(s: Seq<char>, c: char) -> nat {
    count_char_upto(s, c, s.len() as int)
}

/// In a 17-character string, the five separator slots all hold `sep`;
/// equivalently, splitting by `sep` yields six parts of two characters each.
pub open spec fn separators_in_place(s: Seq<char>, sep: char) -> bool {
    s[2] == sep && s[5] == sep && s[8] == sep && s[11] == sep && s[14] == sep
}

/// Part `k` of a 17-character string (characters `3k` and `3k + 1`) is two
/// hexadecimal digits.
pub open spec fn pair_is_hex(s: Seq<char>, k: int) -> bool {
    is_hex_digit(s[3 * k]) && is_hex_digit(s[3 * k + 1])
}

/// All six two-character parts are hexadecimal.
pub open spec fn all_pairs_hex(s: Seq<char>) -> bool {
    forall|k: int| 0 <= k < 6 ==> #[trigger] pair_is_hex(s, k)
}

/// Splitting by `:` yields exactly six parts, or splitting by `-` does.
pub open spec fn splits_into_six(s: Seq<char>) -> bool {
    count_char(s, ':') == 5 || count_char(s, '-') == 5
}

/// The separator the validation settles on: `:` when splitting by `:` yields
/// six parts, `-` otherwise.
pub open spec fn chosen_separator(s: Seq<char>) -> char {
    if count_char(s, ':') == 5 {
        ':'
    } else {
        '-'
    }
}

/// The byte encoded by part `k` of a MAC string.
pub open spec fn mac_byte_at(s: Seq<char>, k: int) -> u8 {
    (hex_digit_val(s[3 * k]) * 16 + hex_digit_val(s[3 * k + 1])) as u8
}

/// The six bytes encoded by a valid MAC string.
pub open spec fn mac_bytes_of(s: Seq<char>) -> Seq<u8> {
    Seq::new(6, |k: int| mac_byte_at(s, k))
}

/// A string the whole validation sequence accepts: 17 characters, six parts
/// under one separator, each part two hexadecimal digits.
pub open spec fn is_valid_mac(s: Seq<char>) -> bool {
    &&& s.len() == 17
    &&& splits_into_six(s)
    &&& separators_in_place(s, chosen_separator(s))
    &&& all_pairs_hex(s)
}

/// Numeric value of one hexadecimal digit, or `None` when `c` is no such
/// digit.
pub fn hex_val(c: char) -> (r: Option<u8>)
    ensures
        r is Some <==> is_hex_digit(c),
        is_hex_digit(c) ==> r == Some(hex_digit_val(c)) && hex_digit_val(c) < 16,
{
    let v: u32 = c as u32;
    if 48 <= v && v <= 57 {
        Some((v - 48) as u8)
    } else if 97 <= v && v <= 102 {
        Some((v - 97 + 10) as u8)
    } else if 65 <= v && v <= 70 {
        Some((v - 65 + 10) as u8)
    } else {
        None
    }
}

/// Counts how often `c` occurs in `s`.
pub fn count_char_exec(s: &str, c: char) -> (n: usize)
    ensures
        n == count_char(s@, c),
{
    let len = s.unicode_len();
    let mut n: usize = 0;
    let mut i: usize = 0;
    while i < len
        invariant
            i <= len,
            len == s@.len(),
            n <= i,
            n == count_char_upto(s@, c, i as int),
        decreases len - i,
    {
        if s.get_char(i) == c {
            n = n + 1;
        }
        i = i + 1;
    }
    n
}

/// Validates a textual MAC address and converts it to its six raw bytes.
///
/// The checks run in order — length, presence of a separator, part count
/// (splitting by `:` first, then by `-`), part length, hexadecimal content —
/// and the first failing check names the error. Parsing is case-insensitive.
pub fn parse_mac(s: &str) -> (r: Result<MacAddress, MacParseError>)
    ensures
        r is Ok <==> is_valid_mac(s@),
        r matches Ok(m) ==> m.wf() && m.bytes@ == mac_bytes_of(s@),
        r == Err::<MacAddress, MacParseError>(MacParseError::WrongLength) <==> s@.len() != 17,
        r == Err::<MacAddress, MacParseError>(MacParseError::MissingSeparator) <==> s@.len() == 17
            && count_char(s@, ':') == 0 && count_char(s@, '-') == 0,
        r == Err::<MacAddress, MacParseError>(MacParseError::WrongPartCount) <==> s@.len() == 17
            && (count_char(s@, ':') > 0 || count_char(s@, '-') > 0) && !splits_into_six(s@),
        r == Err::<MacAddress, MacParseError>(MacParseError::WrongPartLength) <==> s@.len() == 17
            && splits_into_six(s@) && !separators_in_place(s@, chosen_separator(s@)),
        r == Err::<MacAddress, MacParseError>(MacParseError::NotHexadecimal) <==> s@.len() == 17
            && splits_into_six(s@) && separators_in_place(s@, chosen_separator(s@))
            && !all_pairs_hex(s@),
{
    let len = s.unicode_len();
    if len != 17 {
        return Err(MacParseError::WrongLength);
    }
    let colons = count_char_exec(s, ':');
    let dashes = count_char_exec(s, '-');
    if colons == 0 && dashes == 0 {
        return Err(MacParseError::MissingSeparator);
    }
    if colons != 5 && dashes != 5 {
        return Err(MacParseError::WrongPartCount);
    }
    let sep = if colons == 5 {
        ':'
    } else {
        '-'
    };
    if s.get_char(2) != sep || s.get_char(5) != sep || s.get_char(8) != sep || s.get_char(11) != sep
        || s.get_char(14) != sep {
        return Err(MacParseError::WrongPartLength);
    }
    let mut bytes: Vec<u8> = Vec::new();
    let mut k: usize = 0;
    while k < 6
        invariant
            k <= 6,
            s@.len() == 17,
            splits_into_six(s@),
            separators_in_place(s@, chosen_separator(s@)),
            bytes@.len() == k,
            forall|j: int| 0 <= j < k ==> #[trigger] pair_is_hex(s@, j),
            forall|j: int| 0 <= j < k ==> bytes@[j] == mac_byte_at(s@, j),
        decreases 6 - k,
    {
        let hi = hex_val(s.get_char(3 * k));
        let lo = hex_val(s.get_char(3 * k + 1));
        match (hi, lo) {
            (Some(h), Some(l)) => {
                bytes.push(h * 16 + l);
            },
            _ => {
                proof {
                    assert(!pair_is_hex(s@, k as int));
                }
                return Err(MacParseError::NotHexadecimal);
            },
        }
        k = k + 1;
    }
    proof {
        assert(bytes@ =~= mac_bytes_of(s@));
    }
    Ok(MacAddress { bytes })
}

/// Upper-case hexadecimal digit character for a value below 16.
pub open spec fn hex_char_upper(v: u8) -> char {
    if v == 0 {
        '0'
    } else if v == 1 {
        '1'
    } else if v == 2 {
        '2'
    } else if v == 3 {
        '3'
    } else if v == 4 {
        '4'
    } else if v == 5 {
        '5'
    } else if v == 6 {
        '6'
    } else if v == 7 {
        '7'
    } else if v == 8 {
        '8'
    } else if v == 9 {
        '9'
    } else if v == 10 {
        'A'
    } else if v == 11 {
        'B'
    } else if v == 12 {
        'C'
    } else if v == 13 {
        'D'
    } else if v == 14 {
        'E'
    } else {
        'F'
    }
}

/// The canonical text of six MAC bytes: upper-case hex pairs joined by `:`.
pub open spec fn format_mac_seq(b: Seq<u8>) -> Seq<char> {
    Seq::new(
        17,
        |i: int|
            if i % 3 == 2 {
                ':'
            } else if i % 3 == 0 {
                hex_char_upper((b[i / 3] / 16) as u8)
            } else {
                hex_char_upper((b[i / 3] % 16) as u8)
            },
    )
}

fn hex_digit_str(v: u8) -> (r: &'static str)
    requires
        v < 16,
    ensures
        r@.len() == 1,
        r@[0] == hex_char_upper(v),
{
    proof {
        reveal_strlit("0");
        reveal_strlit("1");
        reveal_strlit("2");
        reveal_strlit("3");
        reveal_strlit("4");
        reveal_strlit("5");
        reveal_strlit("6");
        reveal_strlit("7");
        reveal_strlit("8");
        reveal_strlit("9");
        reveal_strlit("A");
        reveal_strlit("B");
        reveal_strlit("C");
        reveal_strlit("D");
        reveal_strlit("E");
        reveal_strlit("F");
    }
    if v == 0 {
        "0"
    } else if v == 1 {
        "1"
    } else if v == 2 {
        "2"
    } else if v == 3 {
        "3"
    } else if v == 4 {
        "4"
    } else if v == 5 {
        "5"
    } else if v == 6 {
        "6"
    } else if v == 7 {
        "7"
    } else if v == 8 {
        "8"
    } else if v == 9 {
        "9"
    } else if v == 10 {
        "A"
    } else if v == 11 {
        "B"
    } else if v == 12 {
        "C"
    } else if v == 13 {
        "D"
    } else if v == 14 {
        "E"
    } else {
        "F"
    }
}

/// Formats a MAC address in its canonical form: six upper-case hexadecimal
/// pairs joined by `:`.
pub fn format_mac(mac: &MacAddress) -> (r: String)
    requires
        mac.wf(),
    ensures
        r@ == format_mac_seq(mac.bytes@),
{
    let ghost t = format_mac_seq(mac.bytes@);
    let mut out = String::new();
    let mut k: usize = 0;
    while k < 6
        invariant
            k <= 6,
            mac.wf(),
            t == format_mac_seq(mac.bytes@),
            out@ == t.take(if k == 0 { 0int } else { 3 * k - 1 }),
        decreases 6 - k,
    {
        if k > 0 {
            let sep = ":";
            proof {
                reveal_strlit(":");
            }
            out.append(sep);
            proof {
                assert(out@ =~= t.take(3 * k as int));
            }
        }
        let byte = mac.bytes[k];
        let hi = byte / 16;
        let lo = byte % 16;
        out.append(hex_digit_str(hi));
        proof {
            assert(out@ =~= t.take(3 * k as int + 1));
        }
        out.append(hex_digit_str(lo));
        proof {
            assert(out@ =~= t.take(3 * k as int + 2));
        }
        k = k + 1;
    }
    proof {
        assert(out@ =~= t);
    }
    out
}

/// Upper-case image of one character: ASCII letters are raised, every other
/// character is kept.
pub open spec fn upper_char(c: char) -> char {
    if 'a' <= c && c <= 'z' {
        ((c as int) - 32) as char
    } else {
        c
    }
}

/// Character-wise upper-casing of a string, ASCII letters only.
pub open spec fn upper_seq(s: Seq<char>) -> Seq<char> {
    Seq::new(s.len(), |i: int| upper_char(s[i]))
}

fn upper_char_exec(c: char) -> (r: char)
    ensures
        r == upper_char(c),
{
    if c == 'a' {
        'A'
    } else if c == 'b' {
        'B'
    } else if c == 'c' {
        'C'
    } else if c == 'd' {
        'D'
    } else if c == 'e' {
        'E'
    } else if c == 'f' {
        'F'
    } else if c == 'g' {
        'G'
    } else if c == 'h' {
        'H'
    } else if c == 'i' {
        'I'
    } else if c == 'j' {
        'J'
    } else if c == 'k' {
        'K'
    } else if c == 'l' {
        'L'
    } else if c == 'm' {
        'M'
    } else if c == 'n' {
        'N'
    } else if c == 'o' {
        'O'
    } else if c == 'p' {
        'P'
    } else if c == 'q' {
        'Q'
    } else if c == 'r' {
        'R'
    } else if c == 's' {
        'S'
    } else if c == 't' {
        'T'
    } else if c == 'u' {
        'U'
    } else if c == 'v' {
        'V'
    } else if c == 'w' {
        'W'
    } else if c == 'x' {
        'X'
    } else if c == 'y' {
        'Y'
    } else if c == 'z' {
        'Z'
    } else {
        c
    }
}

/// Relies on String::push: appends exactly the given character.
#[verifier::external_body]
fn push_char(out: &mut String, c: char)
    ensures
        final(out)@ == old(out)@ + seq![c],
{
    out.push(c);
}

/// Normalizes a MAC string for display: ASCII letters become upper-case,
/// every other character (separators included) is kept as it is.
pub fn normalize_case(s: &str) -> (r: String)
    ensures
        r@ == upper_seq(s@),
{
    let len = s.unicode_len();
    let mut out = String::new();
    let mut i: usize = 0;
    while i < len
        invariant
            i <= len,
            len == s@.len(),
            out@ == upper_seq(s@).take(i as int),
        decreases len - i,
    {
        let u = upper_char_exec(s.get_char(i));
        push_char(&mut out, u);
        proof {
            assert(out@ =~= upper_seq(s@).take(i as int + 1));
        }
        i = i + 1;
    }
    proof {
        assert(out@ =~= upper_seq(s@));
    }
    out
}

proof fn lemma_hex_char_props(v: u8)
    requires
        v < 16,
    ensures
        is_hex_digit(hex_char_upper(v)),
        hex_digit_val(hex_char_upper(v)) == v,
        hex_char_upper(v) != ':',
        hex_char_upper(v) != '-',
{
}

proof fn lemma_count_sep_pattern(s: Seq<char>, c: char, n: int)
    requires
        0 <= n <= s.len(),
        forall|i: int| 0 <= i < n ==> ((#[trigger] s[i]) == c <==> i % 3 == 2),
    ensures
        count_char_upto(s, c, n) == n / 3,
    decreases n,
{
    if n > 0 {
        lemma_count_sep_pattern(s, c, n - 1);
    }
}

/// Round trip: the canonical text of any six bytes passes the whole
/// validation sequence, and parsing it yields those bytes again.
pub proof fn lemma_format_then_parse_round_trip(b: Seq<u8>)
    requires
        b.len() == 6,
    ensures
        is_valid_mac(format_mac_seq(b)),
        mac_bytes_of(format_mac_seq(b)) == b,
{
    let s = format_mac_seq(b);
    assert forall|i: int| 0 <= i < 17 implies ((#[trigger] s[i]) == ':' <==> i % 3 == 2) by {
        if i % 3 != 2 {
            if i % 3 == 0 {
                lemma_hex_char_props((b[i / 3] / 16) as u8);
            } else {
                lemma_hex_char_props((b[i / 3] % 16) as u8);
            }
        }
    }
    lemma_count_sep_pattern(s, ':', 17);
    assert(count_char(s, ':') == 5);
    assert(separators_in_place(s, ':'));
    assert forall|k: int| 0 <= k < 6 implies #[trigger] pair_is_hex(s, k) by {
        lemma_hex_char_props((b[k] / 16) as u8);
        lemma_hex_char_props((b[k] % 16) as u8);
    }
    assert forall|k: int| 0 <= k < 6 implies #[trigger] mac_bytes_of(s)[k] == b[k] by {
        lemma_hex_char_props((b[k] / 16) as u8);
        lemma_hex_char_props((b[k] % 16) as u8);
        assert(mac_byte_at(s, k) == ((b[k] / 16) * 16 + b[k] % 16) as u8);
    }
    assert(mac_bytes_of(s) =~= b);
}

} // verus!
