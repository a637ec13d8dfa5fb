//! Text derivations: decimal rendering, hex encoding, padding trim,
//! human-readable sizes, and UTF-8 decoding of identification fields.

use vstd::prelude::*;
use vstd::string::StringExecFns;
use vstd::utf8::{decode_utf8, valid_utf8};

verus! {

/// The decimal digit character for `d` (`d < 10`).
pub open spec fn spec_digit_char(d: nat) -> char {
    if d == 0 {
        '0'
    } else if d == 1 {
        '1'
    } else if d == 2 {
        '2'
    } else if d == 3 {
        '3'
    } else if d == 4 {
        '4'
    } else if d == 5 {
        '5'
    } else if d == 6 {
        '6'
    } else if d == 7 {
        '7'
    } else if d == 8 {
        '8'
    } else {
        '9'
    }
}

/// Decimal rendering of `n`, without leading zeroes (a lone zero for 0).
pub open spec fn spec_dec_str(n: nat) -> Seq<char>
    decreases n,
{
    if n < 10 {
        seq![spec_digit_char(n)]
    } else {
        spec_dec_str(n / 10) + seq![spec_digit_char(n % 10)]
    }
}

/// The one-character string for a decimal digit.
fn digit_str(d: u64) -> (r: &'static str)
    requires
        d < 10,
    ensures
        r@ =~= seq![spec_digit_char(d as nat)],
{
    proof {
        reveal_strlit("0");
        reveal_strlit("1");
        reveal_strlit("2");
        reveal_strlit("3");
        reveal_strlit("4");
        reveal_strlit("5");
        reveal_strlit("6");
        reveal_strlit("7");
        reveal_strlit("8");
        reveal_strlit("9");
    }
    if d == 0 {
        "0"
    } else if d == 1 {
        "1"
    } else if d == 2 {
        "2"
    } else if d == 3 {
        "3"
    } else if d == 4 {
        "4"
    } else if d == 5 {
        "5"
    } else if d == 6 {
        "6"
    } else if d == 7 {
        "7"
    } else if d == 8 {
        "8"
    } else {
        "9"
    }
}

/// Renders `n` in decimal.
pub fn u64_to_dec_str(n: u64) -> (r: String)
    ensures
        r@ == spec_dec_str(n as nat),
    decreases n,
{
    if n < 10 {
        let r = digit_str(n).to_owned();
        proof {
            assert(r@ =~= spec_dec_str(n as nat));
        }
        r
    } else {
        let mut s = u64_to_dec_str(n / 10);
        s.append(digit_str(n % 10));
        proof {
            assert(s@ =~= spec_dec_str(n as nat));
        }
        s
    }
}

/// The lowercase hexadecimal digit character for `d` (`d < 16`).
pub open spec fn spec_hex_digit(d: nat) -> char {
    if d < 10 {
        spec_digit_char(d)
    } else if d == 10 {
        'a'
    } else if d == 11 {
        'b'
    } else if d == 12 {
        'c'
    } else if d == 13 {
        'd'
    } else if d == 14 {
        'e'
    } else {
        'f'
    }
}

/// The two lowercase hexadecimal digits of a byte.
pub open spec fn spec_hex_pair(b: u8) -> Seq<char> {
    seq![spec_hex_digit((b / 16) as nat), spec_hex_digit((b % 16) as nat)]
}

/// Hexadecimal rendering of a byte sequence, two digits per byte.
pub open spec fn spec_hex_str(s: Seq<u8>) -> Seq<char>
    decreases s.len(),
{
    if s.len() == 0 {
        Seq::empty()
    } else {
        spec_hex_pair(s[0]) + spec_hex_str(s.drop_first())
    }
}

/// True when every byte is zero.
pub open spec fn spec_all_zero(s: Seq<u8>) -> bool {
    forall|k: int| 0 <= k < s.len() ==> s[k] == 0
}

/// Hexadecimal rendering with all-zero suppression: an all-zero buffer
/// stands for "identifier not provided" and renders as the empty string.
pub open spec fn spec_hex_suppressed(s: Seq<u8>) -> Seq<char> {
    if spec_all_zero(s) {
        Seq::empty()
    } else {
        spec_hex_str(s)
    }
}

proof fn lemma_hex_str_snoc(s: Seq<u8>, b: u8)
    ensures
        spec_hex_str(s.push(b)) =~= spec_hex_str(s) + spec_hex_pair(b),
    decreases s.len(),
{
    let p = s.push(b);
    assert(p.len() > 0);
    if s.len() == 0 {
        assert(p[0] == b);
        assert(p.drop_first() =~= Seq::<u8>::empty());
        assert(spec_hex_str(p.drop_first()) =~= Seq::<char>::empty());
        assert(spec_hex_str(p) =~= spec_hex_pair(b));
        assert(spec_hex_str(s) =~= Seq::<char>::empty());
    } else {
        lemma_hex_str_snoc(s.drop_first(), b);
        assert(p[0] == s[0]);
        assert(p.drop_first() =~= s.drop_first().push(b));
        assert(spec_hex_str(p) == spec_hex_pair(s[0]) + spec_hex_str(s.drop_first().push(b)));
        assert(spec_hex_str(s) == spec_hex_pair(s[0]) + spec_hex_str(s.drop_first()));
    }
}

/// A hexadecimal rendering has two characters per byte, each a
/// lowercase hexadecimal digit.
pub proof fn lemma_hex_str_props(s: Seq<u8>)
    ensures
        spec_hex_str(s).len() == 2 * s.len(),
        forall|j: int|
            0 <= j < spec_hex_str(s).len() ==> #[trigger] spec_is_lower_hex_char(
                spec_hex_str(s)[j],
            ),
    decreases s.len(),
{
    if s.len() > 0 {
        lemma_hex_str_props(s.drop_first());
    }
}

/// The suppressed hexadecimal rendering: empty exactly on all-zero
/// buffers; otherwise two lowercase hexadecimal digits per byte.
pub proof fn lemma_hex_suppressed_props(s: Seq<u8>)
    ensures
        spec_all_zero(s) ==> spec_hex_suppressed(s) == Seq::<char>::empty(),
        !spec_all_zero(s) ==> spec_hex_suppressed(s).len() == 2 * s.len(),
        !spec_all_zero(s) ==> forall|j: int|
            0 <= j < spec_hex_suppressed(s).len() ==> #[trigger] spec_is_lower_hex_char(
                spec_hex_suppressed(s)[j],
            ),
{
    lemma_hex_str_props(s);
}

/// True of the sixteen lowercase hexadecimal digit characters.
pub open spec fn spec_is_lower_hex_char(c: char) -> bool {
    (48 <= c as u32 <= 57) || (97 <= c as u32 <= 102)
}

/// The two-character string for a hexadecimal digit pair of one byte.
fn hex_digit_str(d: u8) -> (r: &'static str)
    requires
        d < 16,
    ensures
        r@ =~= seq![spec_hex_digit(d as nat)],
{
    if d < 10 {
        digit_str(d as u64)
    } else {
        proof {
            reveal_strlit("a");
            reveal_strlit("b");
            reveal_strlit("c");
            reveal_strlit("d");
            reveal_strlit("e");
            reveal_strlit("f");
        }
        if d == 10 {
            "a"
        } else if d == 11 {
            "b"
        } else if d == 12 {
            "c"
        } else if d == 13 {
            "d"
        } else if d == 14 {
            "e"
        } else {
            "f"
        }
    }
}

/// Renders bytes as lowercase hexadecimal, two digits per byte, except
/// that an all-zero buffer renders as the empty string.
pub fn to_hex_string(data: &[u8]) -> (r: String)
    ensures
        r@ == spec_hex_suppressed(data@),
{
    let n = data.len();
    let mut ret = String::new();
    let mut all_zero = true;
    let mut i: usize = 0;
    while i < n
        invariant
            i <= n == data@.len(),
            ret@ =~= spec_hex_str(data@.subrange(0, i as int)),
            all_zero == spec_all_zero(data@.subrange(0, i as int)),
        decreases n - i,
    {
        let b = data[i];
        if b != 0 {
            all_zero = false;
        }
        ret.append(hex_digit_str(b / 16));
        ret.append(hex_digit_str(b % 16));
        proof {
            let pre = data@.subrange(0, i as int);
            let cur = data@.subrange(0, i + 1);
            assert(cur =~= pre.push(b));
            lemma_hex_str_snoc(pre, b);
            if spec_all_zero(pre) && b == 0 {
                assert forall|k: int| 0 <= k < cur.len() implies cur[k] == 0 by {
                    if k < i {
                        assert(cur[k] == pre[k]);
                    } else {
                        assert(cur[k] == b);
                    }
                }
            } else if !spec_all_zero(pre) {
                let k = choose|k: int| 0 <= k < pre.len() && pre[k] != 0;
                assert(cur[k] != 0);
            } else {
                assert(cur[i as int] == b);
            }
        }
        i = i + 1;
    }
    proof {
        assert(data@.subrange(0, n as int) =~= data@);
    }
    if all_zero {
        String::new()
    } else {
        ret
    }
}

/// True of the bytes trimmed from the end of a fixed-width text field:
/// ASCII whitespace and NUL padding.
pub open spec fn spec_is_pad(b: u8) -> bool {
    b == 0x20 || b == 0x00 || b == 0x09 || b == 0x0a || b == 0x0d
}

/// The byte sequence with trailing padding removed.
pub open spec fn spec_trim_trailing(s: Seq<u8>) -> Seq<u8>
    decreases s.len(),
{
    if s.len() > 0 && spec_is_pad(s.last()) {
        spec_trim_trailing(s.drop_last())
    } else {
        s
    }
}

fn is_pad_byte(b: u8) -> (r: bool)
    ensures
        r == spec_is_pad(b),
{
    b == 0x20 || b == 0x00 || b == 0x09 || b == 0x0a || b == 0x0d
}

/// Copies `s[off .. off + len]` into a fresh vector.
pub fn take_range(s: &[u8], off: usize, len: usize) -> (r: Vec<u8>)
    requires
        off + len <= s@.len(),
    ensures
        r@ =~= s@.subrange(off as int, off + len),
{
    // Materializes that the slice's length, and so `off + len`, fits in
    // usize, which the index arithmetic below needs.
    let _slice_len = s.len();
    let mut r: Vec<u8> = Vec::new();
    let mut i: usize = 0;
    while i < len
        invariant
            i <= len,
            off + len <= s@.len() <= usize::MAX,
            r@ =~= s@.subrange(off as int, off + i),
        decreases len - i,
    {
        r.push(s[off + i]);
        proof {
            assert(r@ =~= s@.subrange(off as int, off + i + 1));
        }
        i = i + 1;
    }
    r
}

/// Removes trailing padding bytes from a text field.
pub fn trim_trailing(s: &[u8]) -> (r: Vec<u8>)
    ensures
        r@ == spec_trim_trailing(s@),
{
    let mut end = s.len();
    proof {
        assert(s@.subrange(0, end as int) =~= s@);
    }
    while end > 0 && is_pad_byte(s[end - 1])
        invariant
            end <= s@.len(),
            spec_trim_trailing(s@) == spec_trim_trailing(s@.subrange(0, end as int)),
        decreases end,
    {
        proof {
            let cur = s@.subrange(0, end as int);
            assert(cur.drop_last() =~= s@.subrange(0, end - 1));
        }
        end = end - 1;
    }
    proof {
        let cur = s@.subrange(0, end as int);
        if end > 0 {
            assert(cur.last() == s@[end - 1]);
        }
        assert(spec_trim_trailing(cur) == cur);
    }
    take_range(s, 0, end)
}

/// Relies on core::str::from_utf8: it succeeds exactly on valid UTF-8
/// and yields the decoded character sequence.
#[verifier::external_body]
pub(crate) fn utf8_to_string(b: &[u8]) -> (r: Option<String>)
    ensures
        r is Some <==> valid_utf8(b@),
        r matches Some(s) ==> s@ == decode_utf8(b@),
{
    match core::str::from_utf8(b) {
        Ok(s) => Some(s.to_owned()),
        Err(_) => None,
    }
}

/// Binary unit thresholds, powers of 1024.
pub const KIB: u64 = 1024;

pub const MIB: u64 = 1048576;

pub const GIB: u64 = 1073741824;

pub const TIB: u64 = 1099511627776;

pub const PIB: u64 = 1125899906842624;

pub const EIB: u64 = 1152921504606846976;

/// The byte count of the largest binary unit not exceeding `i`
/// (1 for the plain-byte fallback).
pub open spec fn spec_unit_bytes(i: u64) -> u64 {
    if i >= EIB {
        EIB
    } else if i >= PIB {
        PIB
    } else if i >= TIB {
        TIB
    } else if i >= GIB {
        GIB
    } else if i >= MIB {
        MIB
    } else if i >= KIB {
        KIB
    } else {
        1
    }
}

/// The suffix of the unit chosen for `i`.
pub open spec fn spec_unit_suffix(i: u64) -> Seq<char> {
    if i >= EIB {
        seq!['E', 'i', 'B']
    } else if i >= PIB {
        seq!['P', 'i', 'B']
    } else if i >= TIB {
        seq!['T', 'i', 'B']
    } else if i >= GIB {
        seq!['G', 'i', 'B']
    } else if i >= MIB {
        seq!['M', 'i', 'B']
    } else if i >= KIB {
        seq!['K', 'i', 'B']
    } else {
        seq!['B']
    }
}

/// `i` over its unit, in hundredths, rounded to nearest (half away
/// from zero).
pub open spec fn spec_size_hundredths(i: u64) -> nat {
    ((i * 100 + spec_unit_bytes(i) / 2) / (spec_unit_bytes(i) as int)) as nat
}

/// The human-readable rendering of a byte count: the quotient by the
/// chosen unit with exactly two decimal digits, then the unit suffix.
pub open spec fn spec_human_size(i: u64) -> Seq<char> {
    let h = spec_size_hundredths(i);
    spec_dec_str(h / 100) + seq!['.', spec_digit_char((h / 10) % 10), spec_digit_char(h % 10)]
        + spec_unit_suffix(i)
}

fn unit_suffix_str(i: u64) -> (r: (u64, &'static str))
    ensures
        r.0 == spec_unit_bytes(i),
        r.1@ =~= spec_unit_suffix(i),
{
    proof {
        reveal_strlit("EiB");
        reveal_strlit("PiB");
        reveal_strlit("TiB");
        reveal_strlit("GiB");
        reveal_strlit("MiB");
        reveal_strlit("KiB");
        reveal_strlit("B");
    }
    if i >= EIB {
        (EIB, "EiB")
    } else if i >= PIB {
        (PIB, "PiB")
    } else if i >= TIB {
        (TIB, "TiB")
    } else if i >= GIB {
        (GIB, "GiB")
    } else if i >= MIB {
        (MIB, "MiB")
    } else if i >= KIB {
        (KIB, "KiB")
    } else {
        (1, "B")
    }
}

/// Formats a byte count with the largest binary unit it reaches and
/// exactly two decimal digits; counts below 1 KiB are given in bytes.
pub fn size_bytes_2_size_human(i: u64) -> (r: String)
    ensures
        r@ == spec_human_size(i),
{
    let (unit, suffix) = unit_suffix_str(i);
    let h128: u128 = ((i as u128) * 100 + (unit as u128) / 2) / (unit as u128);
    proof {
        let num = i as int * 100 + unit as int / 2;
        assert(unit >= 1);
        assert(num < unit as int * 102500 ==> num / (unit as int) < 102500) by (nonlinear_arith)
            requires
                unit >= 1,
                num >= 0,
        ;
        if i >= EIB {
            assert(unit == EIB);
        } else if i >= PIB {
            assert(unit == PIB);
        } else if i >= TIB {
            assert(unit == TIB);
        } else if i >= GIB {
            assert(unit == GIB);
        } else if i >= MIB {
            assert(unit == MIB);
        } else if i >= KIB {
            assert(unit == KIB);
        } else {
            assert(unit == 1);
        }
        assert(num < unit as int * 102500);
    }
    let h = h128 as u64;
    let mut s = u64_to_dec_str(h / 100);
    proof {
        reveal_strlit(".");
    }
    s.append(".");
    s.append(digit_str((h / 10) % 10));
    s.append(digit_str(h % 10));
    s.append(suffix);
    proof {
        assert(h as nat == spec_size_hundredths(i));
        assert(s@ =~= spec_human_size(i));
    }
    s
}

} // verus!
