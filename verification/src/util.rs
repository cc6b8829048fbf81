//! Small text utilities: stable identifiers, the search normalisation and
//! the human-readable renderings of play time and sizes.

use vstd::prelude::*;
use vstd::string::*;
use vstd::utf8::encode_utf8;

use crate::text::{
    chars_of, char_is_alphanumeric, char_to_lowercase, decimal, digit_char, hex_fixed, owned,
    push_char, push_decimal, push_hex, push_str, char_alnum, char_lower, is_ascii_alnum, ascii_lower,
    is_ascii_char, all_ascii,
};

verus! {

// ---------------------------------------------------------------------
// Stable identifiers (FNV-1a, 64 bits)
// ---------------------------------------------------------------------

pub open spec fn fnv_offset() -> u64 {
    0xcbf2_9ce4_8422_2325u64
}

pub open spec fn fnv_prime() -> u64 {
    0x1000_0000_01b3u64
}

/// One FNV-1a step: xor the byte in, multiply modulo 2^64.
pub open spec fn fnv_step(h: u64, b: u8) -> u64 {
    (h ^ (b as u64)).wrapping_mul(fnv_prime())
}

pub open spec fn fnv_bytes(h: u64, bytes: Seq<u8>) -> u64
    decreases bytes.len(),
{
    if bytes.len() == 0 {
        h
    } else {
        fnv_step(fnv_bytes(h, bytes.drop_last()), bytes.last())
    }
}

/// The hash of a list of fields: each field's UTF-8 bytes, then a `0xff`
/// separator that no UTF-8 text contains.
pub open spec fn fnv_fields(fields: Seq<Seq<u8>>) -> u64
    decreases fields.len(),
{
    if fields.len() == 0 {
        fnv_offset()
    } else {
        fnv_step(fnv_bytes(fnv_fields(fields.drop_last()), fields.last()), 0xffu8)
    }
}

pub open spec fn field_bytes(fields: Seq<Seq<char>>) -> Seq<Seq<u8>> {
    fields.map_values(|f: Seq<char>| encode_utf8(f))
}

pub open spec fn texts_of(parts: Seq<&str>) -> Seq<Seq<char>> {
    parts.map_values(|p: &str| p@)
}

/// The identifier of a list of fields: sixteen small hexadecimal digits of
/// the hash.
pub open spec fn stable_id_spec(fields: Seq<Seq<char>>) -> Seq<char> {
    hex_fixed(fnv_fields(field_bytes(fields)) as nat, 16)
}

/// FNV-1a over the UTF-8 bytes of the fields, with a separator after each
/// field, as sixteen hexadecimal digits.
pub fn stable_id(parts: &[&str]) -> (id: String)
    ensures
        id@ == stable_id_spec(texts_of(parts@)),
        id@.len() == 16,
{
    let mut hash: u64 = 0xcbf2_9ce4_8422_2325;
    let mut k: usize = 0;
    while k < parts.len()
        invariant
            k <= parts.len(),
            hash == fnv_fields(field_bytes(texts_of(parts@.take(k as int)))),
        decreases parts.len() - k,
    {
        let bytes = parts[k].as_bytes();
        let ghost start = hash;
        let mut i: usize = 0;
        while i < bytes.len()
            invariant
                i <= bytes.len(),
                bytes@ == parts@[k as int].spec_bytes(),
                hash == fnv_bytes(start, bytes@.take(i as int)),
            decreases bytes.len() - i,
        {
            assert(bytes@.take(i + 1).drop_last() == bytes@.take(i as int));
            hash = (hash ^ (bytes[i] as u64)).wrapping_mul(0x1000_0000_01b3);
            i += 1;
        }
        assert(bytes@.take(bytes.len() as int) == bytes@);
        hash = (hash ^ 0xff).wrapping_mul(0x1000_0000_01b3);
        proof {
            let fs = field_bytes(texts_of(parts@.take(k + 1)));
            assert(fs.drop_last() =~= field_bytes(texts_of(parts@.take(k as int))));
            assert(fs.last() == parts@[k as int].spec_bytes());
            assert((0xffu8 as u64) == 0xffu64);
        }
        k += 1;
    }
    assert(parts@.take(parts.len() as int) == parts@);
    let mut id = String::new();
    push_hex(&mut id, hash, 16);
    proof {
        lemma_hex_fixed_len(hash as nat, 16);
    }
    id
}

pub proof fn lemma_hex_fixed_len(n: nat, width: nat)
    ensures
        hex_fixed(n, width).len() == width,
    decreases width,
{
    if width > 0 {
        lemma_hex_fixed_len(n / 16, (width - 1) as nat);
    }
}

// ---------------------------------------------------------------------
// Search normalisation
// ---------------------------------------------------------------------

/// Accented Latin letters folded to their base letter, small.
pub open spec fn fold_accent_spec(c: char) -> char {
    if c == 'á' || c == 'à' || c == 'ä' || c == 'â' || c == 'ã' || c == 'Á' || c == 'À' || c
        == 'Ä' || c == 'Â' || c == 'Ã' {
        'a'
    } else if c == 'é' || c == 'è' || c == 'ë' || c == 'ê' || c == 'É' || c == 'È' || c == 'Ë'
        || c == 'Ê' {
        'e'
    } else if c == 'í' || c == 'ì' || c == 'ï' || c == 'î' || c == 'Í' || c == 'Ì' || c == 'Ï'
        || c == 'Î' {
        'i'
    } else if c == 'ó' || c == 'ò' || c == 'ö' || c == 'ô' || c == 'õ' || c == 'Ó' || c == 'Ò'
        || c == 'Ö' || c == 'Ô' || c == 'Õ' {
        'o'
    } else if c == 'ú' || c == 'ù' || c == 'ü' || c == 'û' || c == 'Ú' || c == 'Ù' || c == 'Ü'
        || c == 'Û' {
        'u'
    } else if c == 'ñ' || c == 'Ñ' {
        'n'
    } else if c == 'ç' || c == 'Ç' {
        'c'
    } else {
        c
    }
}

pub fn fold_accent(ch: char) -> (r: char)
    ensures
        r == fold_accent_spec(ch),
{
    match ch {
        'á' | 'à' | 'ä' | 'â' | 'ã' | 'Á' | 'À' | 'Ä' | 'Â' | 'Ã' => 'a',
        'é' | 'è' | 'ë' | 'ê' | 'É' | 'È' | 'Ë' | 'Ê' => 'e',
        'í' | 'ì' | 'ï' | 'î' | 'Í' | 'Ì' | 'Ï' | 'Î' => 'i',
        'ó' | 'ò' | 'ö' | 'ô' | 'õ' | 'Ó' | 'Ò' | 'Ö' | 'Ô' | 'Õ' => 'o',
        'ú' | 'ù' | 'ü' | 'û' | 'Ú' | 'Ù' | 'Ü' | 'Û' => 'u',
        'ñ' | 'Ñ' => 'n',
        'ç' | 'Ç' => 'c',
        other => other,
    }
}

/// One character of the normalisation: the text so far and whether a
/// separator is pending.
pub open spec fn norm_step(state: (Seq<char>, bool), c: char) -> (Seq<char>, bool) {
    let f = fold_accent_spec(c);
    if char_alnum(f) {
        let out = if state.1 && state.0.len() > 0 {
            state.0.push(' ')
        } else {
            state.0
        };
        (out + char_lower(f), false)
    } else {
        (state.0, true)
    }
}

pub open spec fn norm_state(s: Seq<char>) -> (Seq<char>, bool)
    decreases s.len(),
{
    if s.len() == 0 {
        (Seq::empty(), false)
    } else {
        norm_step(norm_state(s.drop_last()), s.last())
    }
}

/// Small letters, no accents, no punctuation; every run of separators
/// becomes a single space, and none is kept at either end.
pub open spec fn normalized(s: Seq<char>) -> Seq<char> {
    norm_state(s).0
}

pub fn normalize(input: &str) -> (out: String)
    ensures
        out@ == normalized(input@),
{
    let cs = chars_of(input);
    let mut out = String::new();
    let mut pending_space = false;
    let mut i: usize = 0;
    while i < cs.len()
        invariant
            i <= cs.len(),
            cs@ == input@,
            (out@, pending_space) == norm_state(input@.take(i as int)),
        decreases cs.len() - i,
    {
        assert(input@.take(i + 1).drop_last() == input@.take(i as int));
        let ch = fold_accent(cs[i]);
        if char_is_alphanumeric(ch) {
            if pending_space && !out.as_str().is_empty() {
                push_char(&mut out, ' ');
            }
            pending_space = false;
            let lower = char_to_lowercase(ch);
            let mut j: usize = 0;
            let ghost base = out@;
            while j < lower.len()
                invariant
                    j <= lower.len(),
                    out@ == base + lower@.take(j as int),
                decreases lower.len() - j,
            {
                push_char(&mut out, lower[j]);
                assert(lower@.take(j + 1) == lower@.take(j as int).push(lower@[j as int]));
                j += 1;
            }
            assert(lower@.take(lower.len() as int) == lower@);
        } else {
            pending_space = true;
        }
        i += 1;
    }
    assert(input@.take(cs.len() as int) == input@);
    out
}

// ---------------------------------------------------------------------
// Play time
// ---------------------------------------------------------------------

pub open spec fn playtime_text(seconds: nat) -> Seq<char> {
    if seconds < 60 {
        "sin jugar"@
    } else {
        let hours = seconds / 3600;
        let minutes = (seconds % 3600) / 60;
        if hours > 0 {
            decimal(hours) + " h "@ + decimal(minutes) + " min"@
        } else {
            decimal(minutes) + " min"@
        }
    }
}

/// "12 h 34 min", "5 min", or "sin jugar" under a minute.
pub fn format_playtime(seconds: u64) -> (s: String)
    ensures
        s@ == playtime_text(seconds as nat),
{
    if seconds < 60 {
        return owned("sin jugar");
    }
    let hours = seconds / 3600;
    let minutes = (seconds % 3600) / 60;
    let mut s = String::new();
    if hours > 0 {
        push_decimal(&mut s, hours);
        push_str(&mut s, " h ");
        push_decimal(&mut s, minutes);
        push_str(&mut s, " min");
    } else {
        push_decimal(&mut s, minutes);
        push_str(&mut s, " min");
    }
    s
}

// ---------------------------------------------------------------------
// Sizes
// ---------------------------------------------------------------------

pub open spec fn two_pow(k: nat) -> nat
    decreases k,
{
    if k == 0 {
        1
    } else {
        2 * two_pow((k - 1) as nat)
    }
}

/// Number of binary digits of `n` (0 for 0).
pub open spec fn bit_length(n: nat) -> nat
    decreases n,
{
    if n == 0 {
        0
    } else {
        1 + bit_length(n / 2)
    }
}

/// `n as f64`, as an integer: `n` rounded to 53 significant bits, ties to
/// the even mantissa (IEEE 754 round-to-nearest).
pub open spec fn nearest_f64(n: nat) -> nat {
    let len = bit_length(n);
    if len <= 53 {
        n
    } else {
        let unit = two_pow((len - 53) as nat);
        let q = n / unit;
        let r = n % unit;
        let up = r * 2 > unit || (r * 2 == unit && q % 2 == 1);
        (if up {
            q + 1
        } else {
            q
        }) * unit
    }
}

pub open spec fn kib_pow(k: nat) -> nat
    decreases k,
{
    if k == 0 {
        1
    } else {
        1024 * kib_pow((k - 1) as nat)
    }
}

/// How many times a value is divided by 1024 (at most four: TB).
pub open spec fn size_unit(v: nat) -> nat {
    if v >= kib_pow(4) {
        4
    } else if v >= kib_pow(3) {
        3
    } else if v >= kib_pow(2) {
        2
    } else if v >= kib_pow(1) {
        1
    } else {
        0
    }
}

/// `n / d` rounded to the nearest integer, ties to even.
pub open spec fn div_round_even(n: nat, d: nat) -> nat {
    let q = n / d;
    let r = n % d;
    if r * 2 > d || (r * 2 == d && q % 2 == 1) {
        q + 1
    } else {
        q
    }
}

pub open spec fn unit_name(u: nat) -> Seq<char> {
    if u == 0 {
        "B"@
    } else if u == 1 {
        "KB"@
    } else if u == 2 {
        "MB"@
    } else if u == 3 {
        "GB"@
    } else {
        "TB"@
    }
}

/// "512 B", or the value in the largest unit up to TB that keeps it at or
/// above one, with one decimal: what `{value:.1}` prints for the `f64`
/// quotient, rounded to the nearest tenth with ties to even.
pub open spec fn size_text(bytes: nat) -> Seq<char> {
    let v = nearest_f64(bytes);
    let u = size_unit(v);
    if u == 0 {
        decimal(bytes) + " B"@
    } else {
        let tenths = div_round_even(v * 10, kib_pow(u));
        decimal(tenths / 10) + "."@ + seq![digit_char(tenths % 10)] + " "@ + unit_name(u)
    }
}

fn bit_length_u64(n: u64) -> (len: u64)
    ensures
        len == bit_length(n as nat),
        len <= 64,
{
    proof {
        lemma_bit_length_u64(n);
    }
    let mut m = n;
    let mut len: u64 = 0;
    while m > 0
        invariant
            bit_length(n as nat) == len + bit_length(m as nat),
            len + bit_length(m as nat) <= 64,
        decreases m,
    {
        m = m / 2;
        len = len + 1;
    }
    len
}

proof fn lemma_bit_length_bound(n: nat, k: nat)
    requires
        n < two_pow(k),
    ensures
        bit_length(n) <= k,
    decreases k,
{
    if n > 0 {
        assert(k > 0);
        lemma_bit_length_bound(n / 2, (k - 1) as nat);
    }
}

proof fn lemma_two_pow_64()
    ensures
        two_pow(64) == 0x1_0000_0000_0000_0000,
{
    reveal_with_fuel(two_pow, 65);
}

proof fn lemma_bit_length_u64(n: u64)
    ensures
        bit_length(n as nat) <= 64,
{
    lemma_two_pow_64();
    lemma_bit_length_bound(n as nat, 64);
}

proof fn lemma_two_pow_pos(k: nat)
    ensures
        two_pow(k) >= 1,
    decreases k,
{
    if k > 0 {
        lemma_two_pow_pos((k - 1) as nat);
    }
}

proof fn lemma_two_pow_add(a: nat, b: nat)
    ensures
        two_pow(a + b) == two_pow(a) * two_pow(b),
    decreases a,
{
    if a > 0 {
        let a1 = (a - 1) as nat;
        lemma_two_pow_add(a1, b);
        let x = two_pow(a1);
        let y = two_pow(b);
        assert(two_pow((a1 + b + 1) as nat) == 2 * two_pow((a1 + b) as nat));
        assert(two_pow((a1 + 1) as nat) == 2 * x);
        assert(2 * (x * y) == (2 * x) * y) by (nonlinear_arith);
        assert((a1 + b + 1) as nat == a + b);
        assert(two_pow(a + b) == two_pow(a) * two_pow(b));
    } else {
        assert(two_pow(0) == 1);
        assert(a + b == b);
    }
}

/// `bytes as f64`, as an integer (see `nearest_f64`).
fn nearest_f64_u64(n: u64) -> (v: u128)
    ensures
        v == nearest_f64(n as nat),
        v <= 0x1_0000_0000_0000_0000,
{
    let len = bit_length_u64(n);
    if len <= 53 {
        return n as u128;
    }
    let shift = len - 53;
    let mut unit: u128 = 1;
    let mut i: u64 = 0;
    while i < shift
        invariant
            i <= shift,
            shift <= 11,
            unit == two_pow(i as nat),
            unit <= 2048,
        decreases shift - i,
    {
        proof {
            reveal_with_fuel(two_pow, 12);
            lemma_two_pow_mono(i as nat + 1, 11);
        }
        unit = unit * 2;
        i = i + 1;
    }
    proof {
        lemma_two_pow_pos(shift as nat);
    }
    let q = (n as u128) / unit;
    let r = (n as u128) % unit;
    let up = r * 2 > unit || (r * 2 == unit && q % 2 == 1);
    let q2 = if up {
        q + 1
    } else {
        q
    };
    proof {
        // q < 2^53, so the rounded value stays within 2^64.
        lemma_two_pow_64();
        lemma_two_pow_add(53, shift as nat);
        lemma_two_pow_mono(len as nat, 64);
        assert(n < two_pow(len as nat)) by {
            lemma_bit_length_strict(n as nat);
        }
        assert(two_pow(len as nat) == two_pow(53) * unit);
        assert(q < two_pow(53)) by {
            vstd::arithmetic::div_mod::lemma_div_by_multiple_is_strongly_ordered(
                n as int,
                (two_pow(53) * unit) as int,
                two_pow(53) as int,
                unit as int,
            );
            lemma_div_lt(n as nat, two_pow(53), unit as nat);
        }
        assert(q2 <= two_pow(53));
        assert(q2 * unit <= two_pow(53) * unit) by (nonlinear_arith)
            requires
                q2 <= two_pow(53),
                unit >= 1,
        ;
    }
    q2 * unit
}

proof fn lemma_div_lt(n: nat, a: nat, b: nat)
    requires
        b >= 1,
        n < a * b,
    ensures
        n / b < a,
{
    assert(n / b < a) by (nonlinear_arith)
        requires
            b >= 1,
            n < a * b,
    ;
}

proof fn lemma_bit_length_strict(n: nat)
    ensures
        n < two_pow(bit_length(n)),
    decreases n,
{
    if n > 0 {
        lemma_bit_length_strict(n / 2);
    }
}

proof fn lemma_two_pow_mono(a: nat, b: nat)
    requires
        a <= b,
    ensures
        two_pow(a) <= two_pow(b),
    decreases b,
{
    if a < b {
        lemma_two_pow_mono(a, (b - 1) as nat);
        lemma_two_pow_pos((b - 1) as nat);
    }
}

proof fn lemma_kib_pows()
    ensures
        kib_pow(1) == 1024,
        kib_pow(2) == 1048576,
        kib_pow(3) == 1073741824,
        kib_pow(4) == 1099511627776,
{
    reveal_with_fuel(kib_pow, 5);
}

fn push_unit_name(s: &mut String, u: u64)
    requires
        u <= 4,
    ensures
        final(s)@ == old(s)@ + unit_name(u as nat),
{
    if u == 0 {
        push_str(s, "B");
    } else if u == 1 {
        push_str(s, "KB");
    } else if u == 2 {
        push_str(s, "MB");
    } else if u == 3 {
        push_str(s, "GB");
    } else {
        push_str(s, "TB");
    }
}

/// "2.0 KB", "512 B": the size in the largest unit (up to TB) that keeps
/// the number at or above one.
pub fn format_bytes(bytes: u64) -> (s: String)
    ensures
        s@ == size_text(bytes as nat),
{
    let v = nearest_f64_u64(bytes);
    proof {
        lemma_kib_pows();
    }
    let u: u64 = if v >= 1099511627776 {
        4
    } else if v >= 1073741824 {
        3
    } else if v >= 1048576 {
        2
    } else if v >= 1024 {
        1
    } else {
        0
    };
    assert(u == size_unit(v as nat));
    let mut s = String::new();
    if u == 0 {
        push_decimal(&mut s, bytes);
        push_str(&mut s, " B");
        return s;
    }
    let d: u128 = if u == 1 {
        1024
    } else if u == 2 {
        1048576
    } else if u == 3 {
        1073741824
    } else {
        1099511627776
    };
    assert(d == kib_pow(u as nat));
    let n = v * 10;
    let q = n / d;
    let r = n % d;
    let tenths = if r * 2 > d || (r * 2 == d && q % 2 == 1) {
        q + 1
    } else {
        q
    };
    assert(tenths == div_round_even(v as nat * 10, kib_pow(u as nat)));
    assert(tenths <= 0x1_0000_0000_0000_0000u128 * 10 / 1024 + 1) by (nonlinear_arith)
        requires
            q == n / d,
            d >= 1024,
            n <= 0x1_0000_0000_0000_0000u128 * 10,
            tenths <= q + 1,
    ;
    let whole = (tenths / 10) as u64;
    let frac = (tenths % 10) as u64;
    push_decimal(&mut s, whole);
    push_str(&mut s, ".");
    push_char(&mut s, digit_u64(frac));
    push_str(&mut s, " ");
    push_unit_name(&mut s, u);
    s
}

fn digit_u64(d: u64) -> (c: char)
    requires
        d < 10,
    ensures
        c == digit_char(d as nat),
{
    let code: u8 = 48 + d as u8;
    code as char
}

/// A text without its spaces.
pub open spec fn without_spaces(t: Seq<char>) -> Seq<char>
    decreases t.len(),
{
    if t.len() == 0 {
        t
    } else if t.last() == ' ' {
        without_spaces(t.drop_last())
    } else {
        without_spaces(t.drop_last()).push(t.last())
    }
}

/// The letters and digits of a text, in order, letters in small case.
pub open spec fn ascii_words_content(s: Seq<char>) -> Seq<char>
    decreases s.len(),
{
    if s.len() == 0 {
        s
    } else if is_ascii_alnum(s.last()) {
        ascii_words_content(s.drop_last()).push(ascii_lower(s.last()))
    } else {
        ascii_words_content(s.drop_last())
    }
}

proof fn lemma_without_spaces_push(t: Seq<char>, c: char)
    ensures
        without_spaces(t.push(c)) == if c == ' ' {
            without_spaces(t)
        } else {
            without_spaces(t).push(c)
        },
{
    assert(t.push(c).drop_last() == t);
}

/// Normalising keeps every letter and every digit of an ASCII title or
/// query, in order and in small case, and nothing else but the spaces
/// between words: "Doom 2" gives "doom 2", "F-ZERO (USA)" gives
/// "f zero usa".
pub proof fn lemma_normalize_keeps_letters_and_digits(s: Seq<char>)
    requires
        all_ascii(s),
    ensures
        without_spaces(normalized(s)) == ascii_words_content(s),
    decreases s.len(),
{
    if s.len() > 0 {
        let p = s.drop_last();
        let c = s.last();
        assert(all_ascii(p)) by {
            assert forall|i: int| 0 <= i < p.len() implies is_ascii_char(#[trigger] p[i]) by {
                assert(p[i] == s[i]);
            }
        }
        lemma_normalize_keeps_letters_and_digits(p);
        assert(is_ascii_char(s[s.len() - 1]));
        assert(fold_accent_spec(c) == c);
        let st = norm_state(p);
        if is_ascii_alnum(c) {
            let out = if st.1 && st.0.len() > 0 {
                st.0.push(' ')
            } else {
                st.0
            };
            if st.1 && st.0.len() > 0 {
                lemma_without_spaces_push(st.0, ' ');
            }
            assert(char_lower(c) == seq![ascii_lower(c)]);
            assert(out + char_lower(c) == out.push(ascii_lower(c)));
            lemma_without_spaces_push(out, ascii_lower(c));
            assert(ascii_lower(c) != ' ');
        }
    }
}

} // verus!
