//! Power-plan GUIDs: their canonical text and a parser for it, so that a plan
//! can be stored as text and checked away from Windows.

use vstd::prelude::*;
use vstd::arithmetic::div_mod::lemma_mod_breakdown;
use crate::text::{
    all_ascii, char_ws, chars_of, has_byte_len, lemma_utf8_len_ascii, lemma_utf8_len_concat,
    lemma_utf8_len_prefix, lemma_utf8_width_len, utf8_len, utf8_width, drop_ws_back, drop_ws_front,
    hex_digit, hex_fixed, is_ascii_char, slice_chars, trim_bounds, trim_ws, lemma_split_by_join,
    lemma_split_by_whole, push_char, push_hex, split_by, split_on,
};

verus! {

/// The identifier of a power plan, laid out as Windows lays out a `GUID`.
#[derive(Clone, Copy, Debug, PartialEq, Eq)]
pub struct SchemeGuid {
    pub data1: u32,
    pub data2: u16,
    pub data3: u16,
    pub data4: [u8; 8],
}

/// The plain value of a GUID.
pub struct GuidView {
    pub data1: u32,
    pub data2: u16,
    pub data3: u16,
    pub data4: Seq<u8>,
}

impl View for SchemeGuid {
    type V = GuidView;

    open spec fn view(&self) -> GuidView {
        GuidView { data1: self.data1, data2: self.data2, data3: self.data3, data4: self.data4@ }
    }
}

// ---------------------------------------------------------------------
// The text of a GUID
// ---------------------------------------------------------------------

/// Two small hexadecimal digits of a byte.
pub open spec fn byte_text(b: u8) -> Seq<char> {
    hex_fixed(b as nat, 2)
}

/// `8-4-4-4-12` small hexadecimal digits, the canonical form.
pub open spec fn guid_text(g: GuidView) -> Seq<char> {
    hex_fixed(g.data1 as nat, 8) + seq!['-'] + hex_fixed(g.data2 as nat, 4) + seq!['-']
        + hex_fixed(g.data3 as nat, 4) + seq!['-'] + byte_text(g.data4[0]) + byte_text(g.data4[1])
        + seq!['-'] + byte_text(g.data4[2]) + byte_text(g.data4[3]) + byte_text(g.data4[4])
        + byte_text(g.data4[5]) + byte_text(g.data4[6]) + byte_text(g.data4[7])
}

// ---------------------------------------------------------------------
// Reading a GUID back
// ---------------------------------------------------------------------

/// `s` without the copies of `c` that open it.
pub open spec fn drop_char_front(s: Seq<char>, c: char) -> Seq<char>
    decreases s.len(),
{
    if s.len() > 0 && s[0] == c {
        drop_char_front(s.drop_first(), c)
    } else {
        s
    }
}

/// `s` without the copies of `c` that close it.
pub open spec fn drop_char_back(s: Seq<char>, c: char) -> Seq<char>
    decreases s.len(),
{
    if s.len() > 0 && s.last() == c {
        drop_char_back(s.drop_last(), c)
    } else {
        s
    }
}

/// The text between the white space and the braces around it.
pub open spec fn guid_core(s: Seq<char>) -> Seq<char> {
    drop_char_back(drop_char_front(trim_ws(s), '{'), '}')
}

pub open spec fn is_hex_char(c: char) -> bool {
    ('0' <= c && c <= '9') || ('a' <= c && c <= 'f') || ('A' <= c && c <= 'F')
}

pub open spec fn hex_char_value(c: char) -> nat {
    if c <= '9' {
        (c as nat - '0' as nat) as nat
    } else if c >= 'a' {
        (c as nat - 'a' as nat + 10) as nat
    } else {
        (c as nat - 'A' as nat + 10) as nat
    }
}

/// The number that a run of hexadecimal digits writes.
pub open spec fn hex_number(d: Seq<char>) -> nat
    decreases d.len(),
{
    if d.len() == 0 {
        0
    } else {
        hex_number(d.drop_last()) * 16 + hex_char_value(d.last())
    }
}

pub open spec fn pow16(n: nat) -> nat
    decreases n,
{
    if n == 0 {
        1
    } else {
        16 * pow16((n - 1) as nat)
    }
}

/// What `from_str_radix(s, 16)` gives for an unsigned type wide enough for
/// the digits: an optional `+`, then at least one hexadecimal digit and
/// nothing else.
pub open spec fn radix16(s: Seq<char>) -> Option<nat> {
    let d = radix_digits(s);
    if d.len() > 0 && all_hex(d) {
        Some(hex_number(d))
    } else {
        None
    }
}

/// The digits of a number, after the `+` that may lead it.
pub open spec fn radix_digits(s: Seq<char>) -> Seq<char> {
    if s.len() > 0 && s[0] == '+' {
        s.drop_first()
    } else {
        s
    }
}

pub open spec fn all_hex(d: Seq<char>) -> bool {
    forall|i: int| 0 <= i < d.len() ==> is_hex_char(#[trigger] d[i])
}

/// The fields of a GUID text, between its dashes.
pub open spec fn guid_fields(s: Seq<char>) -> Seq<Seq<char>> {
    split_by(guid_core(s), '-')
}

/// Five fields of 8, 4, 4, 4 and 12 bytes.
pub open spec fn guid_shape(parts: Seq<Seq<char>>) -> bool {
    &&& parts.len() == 5
    &&& utf8_len(parts[0]) == 8
    &&& utf8_len(parts[1]) == 4
    &&& utf8_len(parts[2]) == 4
    &&& utf8_len(parts[3]) == 4
    &&& utf8_len(parts[4]) == 12
}

/// The byte written by the characters `2 i` and `2 i + 1` of the tail.
pub open spec fn tail_pair(tail: Seq<char>, i: int) -> Option<nat> {
    radix16(tail.subrange(2 * i, 2 * i + 2))
}

/// The three leading fields read as numbers.
pub open spec fn head_fields_read(parts: Seq<Seq<char>>) -> bool {
    &&& radix16(parts[0]) is Some
    &&& radix16(parts[1]) is Some
    &&& radix16(parts[2]) is Some
}

/// The GUID that a text names, if any.
pub open spec fn guid_from_text(s: Seq<char>) -> Option<GuidView> {
    let parts = guid_fields(s);
    if !guid_shape(parts) || !head_fields_read(parts) {
        None
    } else {
        let tail = parts[3] + parts[4];
        if all_ascii(tail) && (forall|i: int| 0 <= i < 8 ==> (#[trigger] tail_pair(tail, i)) is Some) {
            Some(
                GuidView {
                    data1: radix16(parts[0])->0 as u32,
                    data2: radix16(parts[1])->0 as u16,
                    data3: radix16(parts[2])->0 as u16,
                    data4: Seq::new(8, |i: int| tail_pair(tail, i)->0 as u8),
                },
            )
        } else {
            None
        }
    }
}

/// Reading the last two fields byte pair by byte pair cuts a character in
/// two: the first non-ASCII character of the tail is reached with every pair
/// before it read, and either starts in the middle of a pair or is wider
/// than one.
pub open spec fn tail_cuts_char(tail: Seq<char>) -> bool {
    exists|k: int|
        0 <= k < tail.len() && !is_ascii_char(#[trigger] tail[k]) && (forall|j: int|
            0 <= j < k ==> is_ascii_char(#[trigger] tail[j])) && (forall|j: int|
            0 <= j && 2 * j + 2 <= k ==> (#[trigger] tail_pair(tail, j)) is Some) && (k % 2 == 1
            || utf8_width(tail[k]) >= 3)
}

/// The texts that the byte-wise reading of the tail cannot take.
pub open spec fn guid_text_unreadable(s: Seq<char>) -> bool {
    let parts = guid_fields(s);
    guid_shape(parts) && head_fields_read(parts) && tail_cuts_char(parts[3] + parts[4])
}

// ---------------------------------------------------------------------
// Lemmas
// ---------------------------------------------------------------------

proof fn lemma_pow16_values()
    ensures
        pow16(2) == 256,
        pow16(4) == 0x1_0000,
        pow16(8) == 0x1_0000_0000,
{
    assert(pow16(0) == 1);
    assert(pow16(1) == 16);
    assert(pow16(2) == 256);
    assert(pow16(3) == 0x1000);
    assert(pow16(4) == 0x1_0000);
    assert(pow16(5) == 0x10_0000);
    assert(pow16(6) == 0x100_0000);
    assert(pow16(7) == 0x1000_0000);
    assert(pow16(8) == 0x1_0000_0000);
}

proof fn lemma_pow16_mono(a: nat, b: nat)
    requires
        a <= b,
    ensures
        pow16(a) <= pow16(b),
    decreases b,
{
    if a < b {
        lemma_pow16_mono(a, (b - 1) as nat);
    }
}

proof fn lemma_hex_number_bound(d: Seq<char>)
    requires
        all_hex(d),
    ensures
        hex_number(d) < pow16(d.len()),
    decreases d.len(),
{
    if d.len() > 0 {
        lemma_hex_number_bound(d.drop_last());
        assert(is_hex_char(d[d.len() - 1]));
    }
}

proof fn lemma_radix16_bound(s: Seq<char>)
    requires
        radix16(s) is Some,
    ensures
        radix16(s)->0 < pow16(s.len()),
{
    let d = radix_digits(s);
    lemma_hex_number_bound(d);
    lemma_pow16_mono(d.len(), s.len());
}

// ---------------------------------------------------------------------
// Executable parts of the reader
// ---------------------------------------------------------------------

/// The range of `cs` that `guid_core` keeps.
fn core_bounds(cs: &Vec<char>) -> (r: (usize, usize))
    ensures
        r.0 <= r.1 <= cs.len(),
        cs@.subrange(r.0 as int, r.1 as int) == guid_core(cs@),
{
    let n = cs.len();
    let (lo, hi) = trim_bounds(cs);
    let mut lo = lo;
    let mut hi = hi;
    let ghost trimmed = cs@.subrange(lo as int, hi as int);
    assert(trim_ws(cs@) == trimmed);
    let lo0 = lo;
    while lo < hi && cs[lo] == '{'
        invariant
            lo0 <= lo <= hi <= n,
            n == cs.len(),
            trimmed == cs@.subrange(lo0 as int, hi as int),
            drop_char_front(trimmed, '{') == drop_char_front(cs@.subrange(lo as int, hi as int), '{'),
        decreases hi - lo,
    {
        assert(cs@.subrange(lo as int, hi as int).drop_first() == cs@.subrange(lo + 1, hi as int));
        lo += 1;
    }
    let ghost opened = cs@.subrange(lo as int, hi as int);
    assert(drop_char_front(trimmed, '{') == opened);
    let hi0 = hi;
    while hi > lo && cs[hi - 1] == '}'
        invariant
            lo <= hi <= hi0 <= n,
            n == cs.len(),
            opened == cs@.subrange(lo as int, hi0 as int),
            drop_char_back(opened, '}') == drop_char_back(cs@.subrange(lo as int, hi as int), '}'),
        decreases hi,
    {
        assert(cs@.subrange(lo as int, hi as int).drop_last() == cs@.subrange(lo as int, hi - 1));
        hi -= 1;
    }
    (lo, hi)
}

fn hex_char_value_of(c: char) -> (r: Option<u64>)
    ensures
        r is Some <==> is_hex_char(c),
        r matches Some(x) ==> x == hex_char_value(c) && x < 16,
{
    if '0' <= c && c <= '9' {
        Some((c as u32 - 48) as u64)
    } else if 'a' <= c && c <= 'f' {
        Some((c as u32 - 87) as u64)
    } else if 'A' <= c && c <= 'F' {
        Some((c as u32 - 55) as u64)
    } else {
        None
    }
}

/// `from_str_radix(s, 16)` on a field of at most eight characters.
fn read_hex(v: &Vec<char>) -> (r: Option<u64>)
    requires
        v.len() <= 8,
    ensures
        match r {
            Some(x) => radix16(v@) == Some(x as nat),
            None => radix16(v@) is None,
        },
{
    let n = v.len();
    if n == 0 {
        return None;
    }
    let start: usize = if v[0] == '+' {
        1
    } else {
        0
    };
    let ghost d = radix_digits(v@);
    assert(d == v@.subrange(start as int, n as int));
    if start == n {
        return None;
    }
    let mut acc: u64 = 0;
    let mut i = start;
    while i < n
        invariant
            start <= i <= n <= 8,
            n == v.len(),
            d == v@.subrange(start as int, n as int),
            d == radix_digits(v@),
            forall|j: int| start <= j < i ==> is_hex_char(#[trigger] v@[j]),
            acc == hex_number(v@.subrange(start as int, i as int)),
            acc < pow16((i - start) as nat),
        decreases n - i,
    {
        let c = v[i];
        match hex_char_value_of(c) {
            None => {
                assert(d[i - start] == c);
                assert(!is_hex_char(c));
                return None;
            },
            Some(x) => {
                proof {
                    lemma_pow16_mono((i - start) as nat, 8);
                    lemma_pow16_values();
                    assert(v@.subrange(start as int, i + 1).drop_last() == v@.subrange(
                        start as int,
                        i as int,
                    ));
                }
                acc = acc * 16 + x;
                i += 1;
            },
        }
    }
    assert forall|j: int| 0 <= j < d.len() implies is_hex_char(#[trigger] d[j]) by {
        assert(d[j] == v@[start + j]);
    }
    Some(acc)
}

// ---------------------------------------------------------------------
// The canonical text reads back
// ---------------------------------------------------------------------

proof fn lemma_hex_digit_char(x: nat)
    requires
        x < 16,
    ensures
        is_hex_char(hex_digit(x)),
        is_ascii_char(hex_digit(x)),
        hex_char_value(hex_digit(x)) == x,
        hex_digit(x) != '-',
        hex_digit(x) != '+',
        hex_digit(x) != '{',
        hex_digit(x) != '}',
        !char_ws(hex_digit(x)),
{
}

/// The digits of `hex_fixed` are hexadecimal, ASCII, and write the number
/// back modulo their reach.
proof fn lemma_hex_fixed_digits(n: nat, w: nat)
    ensures
        hex_fixed(n, w).len() == w,
        all_hex(hex_fixed(n, w)),
        all_ascii(hex_fixed(n, w)),
        forall|i: int| 0 <= i < w ==> (#[trigger] hex_fixed(n, w)[i]) != '-' && hex_fixed(n, w)[i] != '+'
            && hex_fixed(n, w)[i] != '{' && hex_fixed(n, w)[i] != '}' && !char_ws(hex_fixed(n, w)[i]),
        hex_number(hex_fixed(n, w)) == n % pow16(w),
    decreases w,
{
    if w > 0 {
        let w1 = (w - 1) as nat;
        lemma_hex_fixed_digits(n / 16, w1);
        lemma_hex_digit_char(n % 16);
        let h = hex_fixed(n, w);
        assert(h == hex_fixed(n / 16, w1).push(hex_digit(n % 16)));
        assert(h.drop_last() == hex_fixed(n / 16, w1));
        assert forall|i: int| 0 <= i < w implies is_hex_char(#[trigger] h[i]) && is_ascii_char(h[i])
            && h[i] != '-' && h[i] != '+' && h[i] != '{' && h[i] != '}' && !char_ws(h[i]) by {
            if i < w1 {
                assert(h[i] == hex_fixed(n / 16, w1)[i]);
            }
        }
        lemma_pow16_mono(0, w1);
        lemma_mod_breakdown(n as int, 16, pow16(w1) as int);
    }
}

proof fn lemma_radix16_hex_fixed(n: nat, w: nat)
    requires
        0 < w,
        n < pow16(w),
    ensures
        radix16(hex_fixed(n, w)) == Some(n),
        utf8_len(hex_fixed(n, w)) == w,
{
    lemma_hex_fixed_digits(n, w);
    let h = hex_fixed(n, w);
    assert(h[0] != '+');
    assert(radix_digits(h) == h);
    assert(n % pow16(w) == n) by {
        vstd::arithmetic::div_mod::lemma_small_mod(n, pow16(w));
    }
    lemma_utf8_len_ascii(h);
}

/// Reading the canonical text of a GUID gives the GUID back, and the text
/// is one that the reader takes.
pub proof fn lemma_guid_text_reads_back(g: SchemeGuid)
    ensures
        !guid_text_unreadable(guid_text(g@)),
        guid_from_text(guid_text(g@)) == Some(g@),
{
    let v = g@;
    lemma_pow16_values();
    assert(v.data4.len() == 8);
    let p0 = hex_fixed(v.data1 as nat, 8);
    let p1 = hex_fixed(v.data2 as nat, 4);
    let p2 = hex_fixed(v.data3 as nat, 4);
    let e0 = byte_text(v.data4[0]);
    let e1 = byte_text(v.data4[1]);
    let e2 = byte_text(v.data4[2]);
    let e3 = byte_text(v.data4[3]);
    let e4 = byte_text(v.data4[4]);
    let e5 = byte_text(v.data4[5]);
    let e6 = byte_text(v.data4[6]);
    let e7 = byte_text(v.data4[7]);
    let p3 = e0 + e1;
    let p4 = e2 + e3 + e4 + e5 + e6 + e7;
    let m = seq!['-'];
    lemma_radix16_hex_fixed(v.data1 as nat, 8);
    lemma_radix16_hex_fixed(v.data2 as nat, 4);
    lemma_radix16_hex_fixed(v.data3 as nat, 4);
    lemma_radix16_hex_fixed(v.data4[0] as nat, 2);
    lemma_radix16_hex_fixed(v.data4[1] as nat, 2);
    lemma_radix16_hex_fixed(v.data4[2] as nat, 2);
    lemma_radix16_hex_fixed(v.data4[3] as nat, 2);
    lemma_radix16_hex_fixed(v.data4[4] as nat, 2);
    lemma_radix16_hex_fixed(v.data4[5] as nat, 2);
    lemma_radix16_hex_fixed(v.data4[6] as nat, 2);
    lemma_radix16_hex_fixed(v.data4[7] as nat, 2);
    lemma_hex_fixed_digits(v.data1 as nat, 8);
    lemma_hex_fixed_digits(v.data2 as nat, 4);
    lemma_hex_fixed_digits(v.data3 as nat, 4);
    lemma_hex_fixed_digits(v.data4[0] as nat, 2);
    lemma_hex_fixed_digits(v.data4[1] as nat, 2);
    lemma_hex_fixed_digits(v.data4[2] as nat, 2);
    lemma_hex_fixed_digits(v.data4[3] as nat, 2);
    lemma_hex_fixed_digits(v.data4[4] as nat, 2);
    lemma_hex_fixed_digits(v.data4[5] as nat, 2);
    lemma_hex_fixed_digits(v.data4[6] as nat, 2);
    lemma_hex_fixed_digits(v.data4[7] as nat, 2);
    let s = guid_text(v);
    assert(s =~= p0 + m + p1 + m + p2 + m + p3 + m + p4);
    // The text is bare: nothing to trim.
    assert(s.len() == 36);
    assert(s[0] == p0[0]);
    assert(s[35] == e7[1]);
    assert(drop_ws_front(s) == s);
    assert(drop_ws_back(s) == s);
    assert(drop_char_front(s, '{') == s);
    assert(drop_char_back(s, '}') == s);
    assert(guid_core(s) == s);
    // Its fields are the five groups of digits.
    assert forall|i: int| 0 <= i < p3.len() implies p3[i] != '-' by {
        if i < 2 {
            assert(p3[i] == e0[i]);
        } else {
            assert(p3[i] == e1[i - 2]);
        }
    }
    assert forall|i: int| 0 <= i < p4.len() implies p4[i] != '-' by {
        if i < 2 {
            assert(p4[i] == e2[i]);
        } else if i < 4 {
            assert(p4[i] == e3[i - 2]);
        } else if i < 6 {
            assert(p4[i] == e4[i - 4]);
        } else if i < 8 {
            assert(p4[i] == e5[i - 6]);
        } else if i < 10 {
            assert(p4[i] == e6[i - 8]);
        } else {
            assert(p4[i] == e7[i - 10]);
        }
    }
    lemma_split_by_whole(p0, '-');
    lemma_split_by_join(p0, p1, '-');
    lemma_split_by_join(p0 + m + p1, p2, '-');
    lemma_split_by_join(p0 + m + p1 + m + p2, p3, '-');
    lemma_split_by_join(p0 + m + p1 + m + p2 + m + p3, p4, '-');
    let parts = guid_fields(s);
    assert(parts =~= seq![p0, p1, p2, p3, p4]);
    lemma_utf8_len_concat(e0, e1);
    lemma_utf8_len_concat(e2, e3);
    lemma_utf8_len_concat(e2 + e3, e4);
    lemma_utf8_len_concat(e2 + e3 + e4, e5);
    lemma_utf8_len_concat(e2 + e3 + e4 + e5, e6);
    lemma_utf8_len_concat(e2 + e3 + e4 + e5 + e6, e7);
    assert(guid_shape(parts));
    assert(head_fields_read(parts));
    // The tail is ASCII and its pairs are the bytes.
    let t = p3 + p4;
    assert(t =~= e0 + e1 + e2 + e3 + e4 + e5 + e6 + e7);
    assert(t.subrange(0, 2) =~= e0);
    assert(t.subrange(2, 4) =~= e1);
    assert(t.subrange(4, 6) =~= e2);
    assert(t.subrange(6, 8) =~= e3);
    assert(t.subrange(8, 10) =~= e4);
    assert(t.subrange(10, 12) =~= e5);
    assert(t.subrange(12, 14) =~= e6);
    assert(t.subrange(14, 16) =~= e7);
    assert forall|i: int| 0 <= i < t.len() implies is_ascii_char(#[trigger] t[i]) by {
        let q = i / 2;
        assert(t[i] == t.subrange(2 * q, 2 * q + 2)[i - 2 * q]);
    }
    assert forall|i: int| 0 <= i < 8 implies (#[trigger] tail_pair(t, i)) == Some(v.data4[i] as nat) by {
        if i == 0 {
        } else if i == 1 {
        } else if i == 2 {
        } else if i == 3 {
        } else if i == 4 {
        } else if i == 5 {
        } else if i == 6 {
        } else {
        }
    }
    assert(!tail_cuts_char(t));
    let r = guid_from_text(s)->0;
    assert(r.data4 =~= v.data4);
}

// ---------------------------------------------------------------------
// The public face
// ---------------------------------------------------------------------

impl SchemeGuid {
    pub fn new(data1: u32, data2: u16, data3: u16, data4: [u8; 8]) -> (g: Self)
        ensures
            g.data1 == data1,
            g.data2 == data2,
            g.data3 == data3,
            g.data4 == data4,
    {
        SchemeGuid { data1, data2, data3, data4 }
    }

    /// Reads a GUID from its text: white space and braces around it are
    /// ignored, the fields must have 8, 4, 4, 4 and 12 bytes of hexadecimal
    /// digits.
    pub fn parse(text: &str) -> (r: Option<Self>)
        requires
            !guid_text_unreadable(text@),
        ensures
            match r {
                Some(g) => guid_from_text(text@) == Some(g@),
                None => guid_from_text(text@) is None,
            },
    {
        let cs = chars_of(text);
        let (lo, hi) = core_bounds(&cs);
        let core = slice_chars(&cs, lo, hi);
        let parts = split_on(&core, '-');
        let ghost ps = parts@.map_values(|p: Vec<char>| p@);
        assert(ps == guid_fields(text@));
        if parts.len() != 5 {
            return None;
        }
        assert(ps[0] == parts@[0]@ && ps[1] == parts@[1]@ && ps[2] == parts@[2]@);
        assert(ps[3] == parts@[3]@ && ps[4] == parts@[4]@);
        if !has_byte_len(&parts[0], 8) || !has_byte_len(&parts[1], 4) || !has_byte_len(&parts[2], 4)
            || !has_byte_len(&parts[3], 4) || !has_byte_len(&parts[4], 12) {
            return None;
        }
        proof {
            lemma_utf8_len_prefix(ps[0], 0);
            assert forall|k: int| 0 <= k < 5 implies (#[trigger] ps[k]).len() <= utf8_len(ps[k]) by {
                lemma_utf8_width_len(ps[k]);
            }
        }
        let data1 = match read_hex(&parts[0]) {
            Some(x) => x,
            None => {
                return None;
            },
        };
        let data2 = match read_hex(&parts[1]) {
            Some(x) => x,
            None => {
                return None;
            },
        };
        let data3 = match read_hex(&parts[2]) {
            Some(x) => x,
            None => {
                return None;
            },
        };
        proof {
            lemma_radix16_bound(ps[0]);
            lemma_radix16_bound(ps[1]);
            lemma_radix16_bound(ps[2]);
            lemma_pow16_mono(ps[0].len(), 8);
            lemma_pow16_mono(ps[1].len(), 4);
            lemma_pow16_mono(ps[2].len(), 4);
            lemma_pow16_values();
        }
        let mut tail: Vec<char> = Vec::new();
        let mut i: usize = 0;
        while i < parts[3].len()
            invariant
                parts.len() == 5,
                i <= parts@[3].len(),
                tail@ == parts@[3]@.take(i as int),
            decreases parts@[3].len() - i,
        {
            tail.push(parts[3][i]);
            assert(tail@ == parts@[3]@.take(i + 1));
            i += 1;
        }
        let mut i: usize = 0;
        while i < parts[4].len()
            invariant
                parts.len() == 5,
                i <= parts@[4].len(),
                tail@ == parts@[3]@ + parts@[4]@.take(i as int),
            decreases parts@[4].len() - i,
        {
            tail.push(parts[4][i]);
            assert(tail@ == parts@[3]@ + parts@[4]@.take(i + 1));
            i += 1;
        }
        assert(parts@[3]@ == parts@[3]@.take(parts@[3].len() as int));
        assert(parts@[4]@ == parts@[4]@.take(parts@[4].len() as int));
        let ghost t = ps[3] + ps[4];
        assert(tail@ == t);
        let mut k: usize = 0;
        while k < tail.len()
            invariant
                k <= tail.len(),
                tail@ == t,
                t == guid_fields(text@)[3] + guid_fields(text@)[4],
                forall|j: int| 0 <= j < k ==> is_ascii_char(#[trigger] t[j]),
            decreases tail.len() - k,
        {
            if !((tail[k] as u32) < 128) {
                assert(!is_ascii_char(t[k as int]));
                assert(!all_ascii(t));
                return None;
            }
            k += 1;
        }
        proof {
            lemma_utf8_len_concat(ps[3], ps[4]);
            lemma_utf8_len_ascii(t);
        }
        let mut bytes: Vec<u8> = Vec::new();
        let mut p: usize = 0;
        while p < 8
            invariant
                p <= 8,
                tail@ == t,
                t == guid_fields(text@)[3] + guid_fields(text@)[4],
                t.len() == 16,
                bytes.len() == p,
                forall|j: int| 0 <= j < p ==> (#[trigger] tail_pair(t, j)) is Some,
                forall|j: int| 0 <= j < p ==> bytes@[j] == tail_pair(t, j)->0 as u8,
                forall|j: int| 0 <= j < p ==> tail_pair(t, j)->0 < 256,
            decreases 8 - p,
        {
            let pair = slice_chars(&tail, 2 * p, 2 * p + 2);
            match read_hex(&pair) {
                Some(x) => {
                    proof {
                        lemma_radix16_bound(pair@);
                        lemma_pow16_values();
                    }
                    bytes.push(x as u8);
                },
                None => {
                    assert(pair@ == t.subrange(2 * p, 2 * p + 2));
                    assert(tail_pair(t, p as int) is None);
                    return None;
                },
            }
            p += 1;
        }
        let data4: [u8; 8] = [
            bytes[0],
            bytes[1],
            bytes[2],
            bytes[3],
            bytes[4],
            bytes[5],
            bytes[6],
            bytes[7],
        ];
        let g = SchemeGuid {
            data1: data1 as u32,
            data2: data2 as u16,
            data3: data3 as u16,
            data4,
        };
        proof {
            let want = guid_from_text(text@)->0;
            assert(g@.data4 =~= want.data4);
        }
        Some(g)
    }

    /// The two GUIDs name the same plan.
    pub fn equals(&self, other: &SchemeGuid) -> (r: bool)
        ensures
            r == (self@ == other@),
    {
        let mut i: usize = 0;
        while i < 8
            invariant
                i <= 8,
                forall|j: int| 0 <= j < i ==> self.data4@[j] == other.data4@[j],
            decreases 8 - i,
        {
            if self.data4[i] != other.data4[i] {
                return false;
            }
            i += 1;
        }
        assert(self.data4@ =~= other.data4@);
        self.data1 == other.data1 && self.data2 == other.data2 && self.data3 == other.data3
    }

    /// The canonical text: `8-4-4-4-12` small hexadecimal digits.
    pub fn to_string(&self) -> (s: String)
        ensures
            s@ == guid_text(self@),
    {
        let mut s = String::new();
        push_hex(&mut s, self.data1 as u64, 8);
        push_char(&mut s, '-');
        push_hex(&mut s, self.data2 as u64, 4);
        push_char(&mut s, '-');
        push_hex(&mut s, self.data3 as u64, 4);
        push_char(&mut s, '-');
        push_hex(&mut s, self.data4[0] as u64, 2);
        push_hex(&mut s, self.data4[1] as u64, 2);
        push_char(&mut s, '-');
        push_hex(&mut s, self.data4[2] as u64, 2);
        push_hex(&mut s, self.data4[3] as u64, 2);
        push_hex(&mut s, self.data4[4] as u64, 2);
        push_hex(&mut s, self.data4[5] as u64, 2);
        push_hex(&mut s, self.data4[6] as u64, 2);
        push_hex(&mut s, self.data4[7] as u64, 2);
        proof {
            assert(s@ =~= guid_text(self@));
        }
        s
    }
}

pub open spec fn balanced_view() -> GuidView {
    GuidView { data1: 0x381b4222, data2: 0xf694, data3: 0x41f0, data4: seq![0x96u8, 0x85, 0xff, 0x5b, 0xb2, 0x60, 0xdf, 0x2e] }
}

/// The balanced plan that Windows ships.
pub fn balanced() -> (g: SchemeGuid)
    ensures
        g@ == balanced_view(),
{
    let g = SchemeGuid::new(0x381b4222, 0xf694, 0x41f0, [0x96, 0x85, 0xff, 0x5b, 0xb2, 0x60, 0xdf, 0x2e]);
    assert(g@.data4 =~= seq![0x96u8, 0x85, 0xff, 0x5b, 0xb2, 0x60, 0xdf, 0x2e]);
    g
}

pub open spec fn high_performance_view() -> GuidView {
    GuidView { data1: 0x8c5e7fda, data2: 0xe8bf, data3: 0x4a96, data4: seq![0x9au8, 0x85, 0xa6, 0xe2, 0x3a, 0x8c, 0x63, 0x5c] }
}

/// The high-performance plan that Windows ships.
pub fn high_performance() -> (g: SchemeGuid)
    ensures
        g@ == high_performance_view(),
{
    let g = SchemeGuid::new(0x8c5e7fda, 0xe8bf, 0x4a96, [0x9a, 0x85, 0xa6, 0xe2, 0x3a, 0x8c, 0x63, 0x5c]);
    assert(g@.data4 =~= seq![0x9au8, 0x85, 0xa6, 0xe2, 0x3a, 0x8c, 0x63, 0x5c]);
    g
}

pub open spec fn ultimate_view() -> GuidView {
    GuidView { data1: 0xe9a42b02, data2: 0xd5df, data3: 0x448d, data4: seq![0xaau8, 0x00, 0x03, 0xf1, 0x47, 0x49, 0xeb, 0x61] }
}

/// "Ultimate performance": hidden by default and missing on laptops; it has
/// to be duplicated (`powercfg -duplicatescheme`) before it can be chosen.
pub fn ultimate() -> (g: SchemeGuid)
    ensures
        g@ == ultimate_view(),
{
    let g = SchemeGuid::new(0xe9a42b02, 0xd5df, 0x448d, [0xaa, 0x00, 0x03, 0xf1, 0x47, 0x49, 0xeb, 0x61]);
    assert(g@.data4 =~= seq![0xaau8, 0x00, 0x03, 0xf1, 0x47, 0x49, 0xeb, 0x61]);
    g
}

} // verus!
