//! Primitives of the client's wire format: canonical decimal numbers and
//! escaped strings, as they appear in the JSON bodies the backend sends and
//! accepts.
//!
//! Each parser has a total specification twin (`spec_parse_*`); the
//! executable parser returns exactly what the twin says, so both success
//! and failure are pinned down. Lemmas relate the twins to the canonical
//! serializations, giving round trips.

use vstd::prelude::*;

verus! {

// ----------------------------------------------------------------------
// decimal digits
// ----------------------------------------------------------------------
/// An ASCII decimal digit.
pub open spec fn is_digit(c: char) -> bool {
    48 <= c as u32 && c as u32 <= 57
}

/// The digit character for a value below ten.
pub open spec fn digit_char(d: nat) -> char {
    if d == 0 {
        '0'
    } else if d == 1 {
        '1'
    } else if d == 2 {
        '2'
    } else if d == 3 {
        '3'
    } else if d == 4 {
        '4'
    } else if d == 5 {
        '5'
    } else if d == 6 {
        '6'
    } else if d == 7 {
        '7'
    } else if d == 8 {
        '8'
    } else {
        '9'
    }
}

/// The value of a digit character.
pub open spec fn char_digit(c: char) -> nat {
    (c as u32 - 48) as nat
}

/// Canonical decimal writing of a natural number: no sign, no leading
/// zeros (`0` itself is written as one digit).
pub open spec fn spec_digits(n: nat) -> Seq<char>
    decreases n,
{
    if n < 10 {
        seq![digit_char(n)]
    } else {
        spec_digits(n / 10).push(digit_char(n % 10))
    }
}

/// The value of a digit run, most significant first.
pub open spec fn digits_val(s: Seq<char>) -> nat
    decreases s.len(),
{
    if s.len() == 0 {
        0
    } else {
        digits_val(s.drop_last()) * 10 + char_digit(s.last())
    }
}

pub open spec fn all_digits(s: Seq<char>) -> bool {
    forall|k: int| 0 <= k < s.len() ==> is_digit(#[trigger] s[k])
}

/// The end of the digit run starting at `p`.
pub open spec fn digits_end(v: Seq<char>, p: int) -> int
    decreases v.len() - p when 0 <= p <= v.len()
{
    if p < v.len() && is_digit(v[p]) {
        digits_end(v, p + 1)
    } else {
        p
    }
}

pub proof fn lemma_digits_end(v: Seq<char>, p: int)
    requires
        0 <= p <= v.len(),
    ensures
        p <= digits_end(v, p) <= v.len(),
        all_digits(v.subrange(p, digits_end(v, p))),
        digits_end(v, p) < v.len() ==> !is_digit(v[digits_end(v, p)]),
        forall|k: int| p <= k < digits_end(v, p) ==> is_digit(#[trigger] v[k]),
    decreases v.len() - p,
{
    if p < v.len() && is_digit(v[p]) {
        lemma_digits_end(v, p + 1);
        let e = digits_end(v, p);
        assert forall|k: int| p <= k < e implies is_digit(#[trigger] v[k]) by {
            if k > p {
                assert(is_digit(v[k]));
            }
        }
        assert forall|k: int| 0 <= k < e - p implies is_digit(#[trigger] v.subrange(p, e)[k]) by {
            assert(v.subrange(p, e)[k] == v[p + k]);
        }
        assert(all_digits(v.subrange(p, e)));
    } else {
        assert(v.subrange(p, p) =~= Seq::<char>::empty());
    }
}

/// The digit run is the maximal one: any all-digit stretch from `p` that
/// stops at a non-digit (or at the end) stops exactly at `digits_end`.
pub proof fn lemma_digits_end_unique(v: Seq<char>, p: int, j: int)
    requires
        0 <= p <= j <= v.len(),
        all_digits(v.subrange(p, j)),
        j == v.len() || !is_digit(v[j]),
    ensures
        digits_end(v, p) == j,
    decreases v.len() - p,
{
    if p < j {
        assert(is_digit(v[p])) by {
            assert(v.subrange(p, j)[0] == v[p]);
        }
        assert(all_digits(v.subrange(p + 1, j))) by {
            assert forall|k: int| 0 <= k < j - (p + 1) implies is_digit(
                #[trigger] v.subrange(p + 1, j)[k],
            ) by {
                assert(v.subrange(p + 1, j)[k] == v.subrange(p, j)[k + 1]);
            }
        }
        lemma_digits_end_unique(v, p + 1, j);
    } else {
        assert(digits_end(v, p) == p);
    }
}

pub proof fn lemma_digits_val_of_spec_digits(n: nat)
    ensures
        digits_val(spec_digits(n)) == n,
        all_digits(spec_digits(n)),
        spec_digits(n).len() >= 1,
        n > 0 ==> spec_digits(n)[0] != '0',
        n == 0 ==> spec_digits(n) =~= seq!['0'],
    decreases n,
{
    if n < 10 {
        reveal_with_fuel(digits_val, 3);
        let s = spec_digits(n);
        assert(s =~= seq![digit_char(n)]);
        assert(s.drop_last() =~= Seq::<char>::empty());
        assert(digits_val(s) == char_digit(digit_char(n)));
    } else {
        let q = n / 10;
        let r = n % 10;
        assert(q >= 1 && r < 10 && n == q * 10 + r) by (nonlinear_arith)
            requires
                n >= 10,
                q == n / 10,
                r == n % 10,
        ;
        lemma_digits_val_of_spec_digits(q);
        let s = spec_digits(n);
        assert(s == spec_digits(q).push(digit_char(r)));
        assert(s.drop_last() =~= spec_digits(q));
        assert(s.last() == digit_char(r));
        assert(digits_val(s) == q * 10 + char_digit(digit_char(r)));
        assert(char_digit(digit_char(r)) == r);
        assert forall|k: int| 0 <= k < s.len() implies is_digit(#[trigger] s[k]) by {
            if k < s.len() - 1 {
                assert(s[k] == spec_digits(q)[k]);
            }
        }
        assert(s[0] == spec_digits(q)[0]);
    }
}

/// A later all-digit prefix never has a smaller value.
pub proof fn lemma_digits_val_prefix_le(s: Seq<char>, k: int)
    requires
        0 <= k <= s.len(),
    ensures
        digits_val(s.subrange(0, k)) <= digits_val(s),
    decreases s.len() - k,
{
    if k == s.len() {
        assert(s.subrange(0, k) =~= s);
    } else {
        lemma_digits_val_prefix_le(s, k + 1);
        let t = s.subrange(0, k + 1);
        assert(t.drop_last() =~= s.subrange(0, k));
        assert(digits_val(s.subrange(0, k)) * 10 + char_digit(t.last()) >= digits_val(
            s.subrange(0, k),
        )) by (nonlinear_arith);
    }
}

/// What parsing a canonical unsigned number from position `p` yields:
/// the value of the maximal digit run, refused when the run is empty, has
/// a superfluous leading zero, or exceeds `u64`.
pub open spec fn spec_parse_u64(v: Seq<char>, p: int) -> Option<(u64, int)> {
    let e = digits_end(v, p);
    if e == p {
        None
    } else if v[p] == '0' && e > p + 1 {
        None
    } else if digits_val(v.subrange(p, e)) > u64::MAX {
        None
    } else {
        Some((digits_val(v.subrange(p, e)) as u64, e))
    }
}

/// Parses a canonical unsigned decimal number.
pub fn parse_u64(v: &Vec<char>, i: usize) -> (r: Option<(u64, usize)>)
    requires
        i <= v@.len(),
    ensures
        r matches Some((x, j)) ==> i < j <= v@.len() && spec_parse_u64(v@, i as int) == Some(
            (x, j as int),
        ),
        r is None ==> spec_parse_u64(v@, i as int) is None,
{
    proof {
        lemma_digits_end(v@, i as int);
    }
    let ghost e = digits_end(v@, i as int);
    if i == v.len() || !is_digit_char(v[i]) {
        assert(e == i as int);
        return None;
    }
    if v[i] == '0' {
        assert(is_digit(v@[i as int]));
        if i + 1 == v.len() || !is_digit_char(v[i + 1]) {
            proof {
                reveal_with_fuel(digits_val, 3);
                assert(v@.subrange(i as int, i + 1) =~= seq![v@[i as int]]);
                lemma_digits_end_unique(v@, i as int, i + 1);
                assert(seq![v@[i as int]].drop_last() =~= Seq::<char>::empty());
                assert(digits_val(v@.subrange(i as int, i + 1)) == 0);
            }
            return Some((0u64, i + 1));
        } else {
            proof {
                assert(e >= i + 2) by {
                    if e == i + 1 {
                        assert(!is_digit(v@[i + 1]));
                    }
                }
            }
            return None;
        }
    }
    let mut j: usize = i;
    let mut acc: u64 = 0;
    while j < v.len() && is_digit_char(v[j])
        invariant
            i as int <= j <= v@.len(),
            j <= e,
            e == digits_end(v@, i as int),
            i < v@.len() && is_digit(v@[i as int]) && v@[i as int] != '0',
            forall|k: int| i <= k < e ==> is_digit(#[trigger] v@[k]),
            e <= v@.len(),
            e < v@.len() ==> !is_digit(v@[e]),
            acc as nat == digits_val(v@.subrange(i as int, j as int)),
        decreases v@.len() - j,
    {
        let d: u64 = digit_value(v[j]);
        proof {
            let run = v@.subrange(i as int, e);
            let pre = v@.subrange(i as int, j + 1);
            assert(pre.drop_last() =~= v@.subrange(i as int, j as int));
            assert(pre.last() == v@[j as int]);
            assert(j < e) by {
                if j >= e {
                    assert(!is_digit(v@[j as int]));
                }
            }
        }
        if acc > (u64::MAX - d) / 10 {
            proof {
                let run = v@.subrange(i as int, e);
                let prej = v@.subrange(i as int, j as int);
                let pre = v@.subrange(i as int, j + 1);
                assert(digits_val(pre) == acc as nat * 10 + d) by {
                    assert(pre.drop_last() =~= prej);
                    assert(char_digit(pre.last()) == d);
                }
                assert(acc as nat * 10 + d > u64::MAX) by (nonlinear_arith)
                    requires
                        acc > (u64::MAX - d) / 10,
                        0 <= d < 10,
                ;
                assert(pre =~= run.subrange(0, j + 1 - i));
                lemma_digits_val_prefix_le(run, j + 1 - i);
                assert(digits_val(run) > u64::MAX);
            }
            return None;
        }
        proof {
            assert(acc as nat * 10 + d <= u64::MAX) by (nonlinear_arith)
                requires
                    acc <= (u64::MAX - d) / 10,
                    0 <= d < 10,
            ;
        }
        acc = acc * 10 + d;
        j = j + 1;
        proof {
            let pre = v@.subrange(i as int, j as int);
            assert(pre.drop_last() =~= v@.subrange(i as int, j - 1));
            assert(char_digit(pre.last()) == d);
        }
    }
    proof {
        lemma_digits_end_unique(v@, i as int, j as int);
        assert(j as int == e);
        assert(v@.subrange(i as int, e)[0] == v@[i as int]);
    }
    Some((acc, j))
}

/// Executable twin of [`is_digit`].
pub fn is_digit_char(c: char) -> (r: bool)
    ensures
        r == is_digit(c),
{
    let u = c as u32;
    48 <= u && u <= 57
}

/// The numeric value of a digit character.
pub fn digit_value(c: char) -> (r: u64)
    requires
        is_digit(c),
    ensures
        r as nat == char_digit(c),
        r < 10,
{
    (c as u32 - 48) as u64
}

/// The digit character for a value below ten.
pub fn digit_of(d: u64) -> (r: char)
    requires
        d < 10,
    ensures
        r == digit_char(d as nat),
{
    if d == 0 {
        '0'
    } else if d == 1 {
        '1'
    } else if d == 2 {
        '2'
    } else if d == 3 {
        '3'
    } else if d == 4 {
        '4'
    } else if d == 5 {
        '5'
    } else if d == 6 {
        '6'
    } else if d == 7 {
        '7'
    } else if d == 8 {
        '8'
    } else {
        '9'
    }
}

/// Appends the canonical decimal writing of `n`.
pub fn push_u64_digits(out: &mut Vec<char>, n: u64)
    ensures
        final(out)@ == old(out)@ + spec_digits(n as nat),
    decreases n,
{
    if n < 10 {
        out.push(digit_of(n));
        assert(out@ =~= old(out)@ + spec_digits(n as nat));
    } else {
        proof {
            assert(n / 10 < n && n / 10 >= 1 && n % 10 < 10) by (nonlinear_arith)
                requires
                    n >= 10,
            ;
        }
        push_u64_digits(out, n / 10);
        out.push(digit_of(n % 10));
        assert(out@ =~= old(out)@ + spec_digits(n as nat));
    }
}

// ----------------------------------------------------------------------
// signed numbers
// ----------------------------------------------------------------------
/// Canonical decimal writing of a signed number.
pub open spec fn spec_i64_str(n: int) -> Seq<char> {
    if n < 0 {
        seq!['-'] + spec_digits((-n) as nat)
    } else {
        spec_digits(n as nat)
    }
}

/// What parsing a canonical signed number from position `p` yields.
pub open spec fn spec_parse_i64(v: Seq<char>, p: int) -> Option<(i64, int)> {
    if p < v.len() && v[p] == '-' {
        match spec_parse_u64(v, p + 1) {
            Some((m, e)) => if 1 <= m <= 0x8000_0000_0000_0000u64 {
                Some(((-(m as int)) as i64, e))
            } else {
                None
            },
            None => None,
        }
    } else {
        match spec_parse_u64(v, p) {
            Some((m, e)) => if m <= i64::MAX as u64 {
                Some((m as i64, e))
            } else {
                None
            },
            None => None,
        }
    }
}

/// Parses a canonical signed decimal number.
pub fn parse_i64(v: &Vec<char>, i: usize) -> (r: Option<(i64, usize)>)
    requires
        i <= v@.len(),
    ensures
        r matches Some((x, j)) ==> i < j <= v@.len() && spec_parse_i64(v@, i as int) == Some(
            (x, j as int),
        ),
        r is None ==> spec_parse_i64(v@, i as int) is None,
{
    if i < v.len() && v[i] == '-' {
        match parse_u64(v, i + 1) {
            Some((m, j)) => {
                if 1 <= m && m <= 0x8000_0000_0000_0000u64 {
                    let x: i64 = if m == 0x8000_0000_0000_0000u64 {
                        i64::MIN
                    } else {
                        -(m as i64)
                    };
                    Some((x, j))
                } else {
                    None
                }
            },
            None => None,
        }
    } else {
        match parse_u64(v, i) {
            Some((m, j)) => {
                if m <= i64::MAX as u64 {
                    Some((m as i64, j))
                } else {
                    None
                }
            },
            None => None,
        }
    }
}

/// Appends the canonical decimal writing of a signed number.
pub fn push_i64_str(out: &mut Vec<char>, n: i64)
    ensures
        final(out)@ == old(out)@ + spec_i64_str(n as int),
{
    if n < 0 {
        let m: u64 = if n == i64::MIN {
            0x8000_0000_0000_0000u64
        } else {
            (-n) as u64
        };
        out.push('-');
        push_u64_digits(out, m);
        assert(out@ =~= old(out)@ + spec_i64_str(n as int));
    } else {
        push_u64_digits(out, n as u64);
    }
}

/// Round trip: a canonically written unsigned number, followed by anything
/// that is not a digit, parses back to itself.
pub proof fn lemma_parse_u64_round_trip(v: Seq<char>, p: int, x: u64)
    requires
        0 <= p,
        p + spec_digits(x as nat).len() <= v.len(),
        v.subrange(p, p + spec_digits(x as nat).len()) == spec_digits(x as nat),
        p + spec_digits(x as nat).len() == v.len() || !is_digit(
            v[p + spec_digits(x as nat).len()],
        ),
    ensures
        spec_parse_u64(v, p) == Some((x, p + spec_digits(x as nat).len())),
{
    let s = spec_digits(x as nat);
    let j = p + s.len();
    lemma_digits_val_of_spec_digits(x as nat);
    lemma_digits_end_unique(v, p, j);
    assert(v.subrange(p, j)[0] == v[p]);
    if x == 0 {
        assert(v[p] == '0');
        assert(j == p + 1);
    } else {
        assert(v[p] != '0');
    }
}

/// Round trip for signed numbers.
pub proof fn lemma_parse_i64_round_trip(v: Seq<char>, p: int, x: i64)
    requires
        0 <= p,
        p + spec_i64_str(x as int).len() <= v.len(),
        v.subrange(p, p + spec_i64_str(x as int).len()) == spec_i64_str(x as int),
        p + spec_i64_str(x as int).len() == v.len() || !is_digit(
            v[p + spec_i64_str(x as int).len()],
        ),
    ensures
        spec_parse_i64(v, p) == Some((x, p + spec_i64_str(x as int).len())),
{
    let s = spec_i64_str(x as int);
    let j = p + s.len();
    if x < 0 {
        let m = (-(x as int)) as nat;
        let ds = spec_digits(m);
        assert(v[p] == '-') by {
            assert(v.subrange(p, j)[0] == s[0]);
        }
        assert(v.subrange(p + 1, p + 1 + ds.len()) =~= ds) by {
            assert forall|k: int| 0 <= k < ds.len() implies v.subrange(p + 1, p + 1 + ds.len())[k]
                == ds[k] by {
                assert(v.subrange(p, j)[k + 1] == s[k + 1]);
            }
        }
        lemma_parse_u64_round_trip(v, p + 1, m as u64);
        lemma_digits_val_of_spec_digits(m);
        assert(m >= 1);
    } else {
        assert(v.subrange(p, j) =~= spec_digits(x as nat));
        lemma_parse_u64_round_trip(v, p, x as u64);
    }
}

// ----------------------------------------------------------------------
// escaped strings
// ----------------------------------------------------------------------

/// Code-point facts about one character. Verus ties a character to its
/// code point through the type of a bound variable, so facts that relate
/// a sequence element to concrete characters are fetched through this
/// lemma.
pub proof fn lemma_char_class(c: char)
    ensures
        (c as u32 == 34) <==> c == '"',
        (c as u32 == 92) <==> c == '\\',
        (c as u32 == 8) <==> c == '\u{8}',
        (c as u32 == 9) <==> c == '\t',
        (c as u32 == 10) <==> c == '\n',
        (c as u32 == 12) <==> c == '\u{c}',
        (c as u32 == 13) <==> c == '\r',
        (c as u32 == 48) <==> c == '0',
        is_digit(c) ==> digit_char(char_digit(c)) == c && char_digit(c) < 10,
        is_hex_lower(c) ==> hex_char(hex_val(c)) == c && hex_val(c) < 16,
{
}

/// A code point below 256 pushed through `u8` and `char` comes back out.
pub proof fn lemma_u8_char(b: u8)
    ensures
        ((b as char) as u32) == b as u32,
{
}

/// Characters with the same code point are the same character.
pub proof fn lemma_char_inj(a: char, b: char)
    ensures
        a as u32 == b as u32 ==> a == b,
{
}

/// Lower-case hex digit for a value below sixteen.
pub open spec fn hex_char(d: nat) -> char {
    if d == 10 {
        'a'
    } else if d == 11 {
        'b'
    } else if d == 12 {
        'c'
    } else if d == 13 {
        'd'
    } else if d == 14 {
        'e'
    } else if d == 15 {
        'f'
    } else {
        digit_char(d)
    }
}

pub open spec fn is_hex_lower(c: char) -> bool {
    is_digit(c) || (97 <= c as u32 && c as u32 <= 102)
}

pub open spec fn hex_val(c: char) -> nat {
    if is_digit(c) {
        char_digit(c)
    } else {
        (c as u32 - 87) as nat
    }
}

/// Canonical escaping of one character inside a JSON string: quote and
/// backslash escaped, the five named controls written by letter, any other
/// control written `\u00..` in lower-case hex, everything else written as
/// itself.
pub open spec fn esc_char(c: char) -> Seq<char> {
    if c == '"' {
        seq!['\\', '"']
    } else if c == '\\' {
        seq!['\\', '\\']
    } else if c == '\u{8}' {
        seq!['\\', 'b']
    } else if c == '\t' {
        seq!['\\', 't']
    } else if c == '\n' {
        seq!['\\', 'n']
    } else if c == '\u{c}' {
        seq!['\\', 'f']
    } else if c == '\r' {
        seq!['\\', 'r']
    } else if (c as u32) < 0x20 {
        seq!['\\', 'u', '0', '0', hex_char((c as u32 / 16) as nat), hex_char((c as u32 % 16) as nat)]
    } else {
        seq![c]
    }
}

/// Canonical escaping of a whole string body.
pub open spec fn esc(s: Seq<char>) -> Seq<char>
    decreases s.len(),
{
    if s.len() == 0 {
        Seq::<char>::empty()
    } else {
        esc_char(s[0]) + esc(s.drop_first())
    }
}

/// The character written by a named escape letter, if any.
pub open spec fn named_unesc(e: char) -> Option<char> {
    if e == '"' {
        Some('"')
    } else if e == '\\' {
        Some('\\')
    } else if e == 'b' {
        Some('\u{8}')
    } else if e == 't' {
        Some('\t')
    } else if e == 'n' {
        Some('\n')
    } else if e == 'f' {
        Some('\u{c}')
    } else if e == 'r' {
        Some('\r')
    } else {
        None
    }
}

/// Whether a control code has a named escape of its own (and so may not be
/// written in the `\u00..` form).
pub open spec fn has_named_esc(code: nat) -> bool {
    code == 8 || code == 9 || code == 10 || code == 12 || code == 13
}

/// What parsing a string body (after the opening quote) from position `p`
/// yields: the unescaped text and the position just past the closing
/// quote. Refused on a missing terminator, a raw control character, or an
/// escape outside the canonical forms.
pub open spec fn spec_unesc(v: Seq<char>, p: int) -> Option<(Seq<char>, int)>
    decreases v.len() - p when 0 <= p <= v.len()
{
    if p >= v.len() {
        None
    } else if v[p] == '"' {
        Some((Seq::<char>::empty(), p + 1))
    } else if v[p] == '\\' {
        if p + 2 <= v.len() && named_unesc(v[p + 1]) is Some {
            match spec_unesc(v, p + 2) {
                Some((t, e)) => Some((seq![named_unesc(v[p + 1])->Some_0] + t, e)),
                None => None,
            }
        } else if p + 6 <= v.len() && v[p + 1] == 'u' && v[p + 2] == '0' && v[p + 3] == '0'
            && is_hex_lower(v[p + 4]) && is_hex_lower(v[p + 5]) && (hex_val(v[p + 4]) * 16
            + hex_val(v[p + 5])) < 0x20 && !has_named_esc(
            hex_val(v[p + 4]) * 16 + hex_val(v[p + 5]),
        ) {
            match spec_unesc(v, p + 6) {
                Some((t, e)) => Some(
                    (seq![(((hex_val(v[p + 4]) * 16 + hex_val(v[p + 5])) as u8) as char)] + t, e),
                ),
                None => None,
            }
        } else {
            None
        }
    } else if (v[p] as u32) < 0x20 {
        None
    } else {
        match spec_unesc(v, p + 1) {
            Some((t, e)) => Some((seq![v[p]] + t, e)),
            None => None,
        }
    }
}

/// Escaping one more character extends the escaped text.
pub proof fn lemma_esc_push(t: Seq<char>, c: char)
    ensures
        esc(t.push(c)) == esc(t) + esc_char(c),
    decreases t.len(),
{
    if t.len() == 0 {
        reveal_with_fuel(esc, 3);
        assert(t.push(c)[0] == c);
        assert(t.push(c).drop_first() =~= Seq::<char>::empty());
        assert(esc(t.push(c)) =~= esc(t) + esc_char(c));
    } else {
        assert(t.push(c)[0] == t[0]);
        assert(t.push(c).drop_first() =~= t.drop_first().push(c));
        lemma_esc_push(t.drop_first(), c);
        assert(esc(t.push(c)) =~= esc(t) + esc_char(c));
    }
}

/// Executable twin of [`named_unesc`].
pub fn named_unesc_char(e: char) -> (r: Option<char>)
    ensures
        r == named_unesc(e),
{
    if e == '"' {
        Some('"')
    } else if e == '\\' {
        Some('\\')
    } else if e == 'b' {
        Some('\u{8}')
    } else if e == 't' {
        Some('\t')
    } else if e == 'n' {
        Some('\n')
    } else if e == 'f' {
        Some('\u{c}')
    } else if e == 'r' {
        Some('\r')
    } else {
        None
    }
}

/// Executable twin of [`is_hex_lower`].
pub fn is_hex_lower_char(c: char) -> (r: bool)
    ensures
        r == is_hex_lower(c),
{
    let u = c as u32;
    (48 <= u && u <= 57) || (97 <= u && u <= 102)
}

/// The value of a lower-case hex digit.
pub fn hex_value(c: char) -> (r: u32)
    requires
        is_hex_lower(c),
    ensures
        r as nat == hex_val(c),
        r < 16,
{
    let u = c as u32;
    if 48 <= u && u <= 57 {
        u - 48
    } else {
        u - 87
    }
}

/// The lower-case hex digit for a value below sixteen.
pub fn hex_of(d: u32) -> (r: char)
    requires
        d < 16,
    ensures
        r == hex_char(d as nat),
{
    if d == 10 {
        'a'
    } else if d == 11 {
        'b'
    } else if d == 12 {
        'c'
    } else if d == 13 {
        'd'
    } else if d == 14 {
        'e'
    } else if d == 15 {
        'f'
    } else {
        digit_of(d as u64)
    }
}

/// Appends the canonical escaping of one character.
pub fn push_esc_char(out: &mut Vec<char>, c: char)
    ensures
        final(out)@ == old(out)@ + esc_char(c),
{
    if c == '"' {
        out.push('\\');
        out.push('"');
    } else if c == '\\' {
        out.push('\\');
        out.push('\\');
    } else if c == '\u{8}' {
        out.push('\\');
        out.push('b');
    } else if c == '\t' {
        out.push('\\');
        out.push('t');
    } else if c == '\n' {
        out.push('\\');
        out.push('n');
    } else if c == '\u{c}' {
        out.push('\\');
        out.push('f');
    } else if c == '\r' {
        out.push('\\');
        out.push('r');
    } else {
        let u = c as u32;
        if u < 0x20 {
            out.push('\\');
            out.push('u');
            out.push('0');
            out.push('0');
            out.push(hex_of(u / 16));
            out.push(hex_of(u % 16));
        } else {
            out.push(c);
        }
    }
    assert(out@ =~= old(out)@ + esc_char(c));
}

/// Appends the canonical escaping of a whole string body.
pub fn push_escaped(out: &mut Vec<char>, s: &Vec<char>)
    ensures
        final(out)@ == old(out)@ + esc(s@),
{
    let mut k: usize = 0;
    proof {
        assert(s@.subrange(0, 0) =~= Seq::<char>::empty());
        assert(out@ =~= old(out)@ + esc(s@.subrange(0, 0)));
    }
    while k < s.len()
        invariant
            k <= s@.len(),
            out@ == old(out)@ + esc(s@.subrange(0, k as int)),
        decreases s@.len() - k,
    {
        push_esc_char(out, s[k]);
        proof {
            assert(s@.subrange(0, k + 1) =~= s@.subrange(0, k as int).push(s@[k as int]));
            lemma_esc_push(s@.subrange(0, k as int), s@[k as int]);
        }
        k = k + 1;
    }
    proof {
        assert(s@.subrange(0, s@.len() as int) =~= s@);
    }
}

/// Parses a string body up to and including the closing quote.
pub fn parse_string(v: &Vec<char>, i: usize) -> (r: Option<(Vec<char>, usize)>)
    requires
        i <= v@.len(),
    ensures
        r matches Some((s, j)) ==> i < j <= v@.len() && spec_unesc(v@, i as int) == Some(
            (s@, j as int),
        ),
        r is None ==> spec_unesc(v@, i as int) is None,
{
    let mut acc: Vec<char> = Vec::new();
    let mut j: usize = i;
    proof {
        assert(acc@ =~= Seq::<char>::empty());
    }
    loop
        invariant
            i <= j <= v@.len(),
            spec_unesc(v@, i as int) == (match spec_unesc(v@, j as int) {
                Some((t, e)) => Some((acc@ + t, e)),
                None => None::<(Seq<char>, int)>,
            }),
        decreases v@.len() - j,
    {
        if j == v.len() {
            return None;
        }
        let c = v[j];
        if c == '"' {
            proof {
                assert(acc@ + Seq::<char>::empty() =~= acc@);
            }
            return Some((acc, j + 1));
        }
        if c == '\\' {
            if v.len() - j < 2 {
                return None;
            }
            let e = v[j + 1];
            match named_unesc_char(e) {
                Some(u) => {
                    let ghost pre = acc@;
                    acc.push(u);
                    proof {
                        assert forall|t: Seq<char>| true implies pre + (seq![u] + t) =~= acc@
                            + t by {}
                    }
                    j = j + 2;
                },
                None => {
                    if e != 'u' {
                        return None;
                    }
                    if v.len() - j < 6 {
                        return None;
                    }
                    if !(v[j + 2] == '0' && v[j + 3] == '0') {
                        return None;
                    }
                    if !(is_hex_lower_char(v[j + 4]) && is_hex_lower_char(v[j + 5])) {
                        return None;
                    }
                    let code: u32 = hex_value(v[j + 4]) * 16 + hex_value(v[j + 5]);
                    if !(code < 0x20) {
                        return None;
                    }
                    if code == 8 || code == 9 || code == 10 || code == 12 || code == 13 {
                        return None;
                    }
                    let u: char = (code as u8) as char;
                    let ghost pre = acc@;
                    acc.push(u);
                    proof {
                        assert forall|t: Seq<char>| true implies pre + (seq![u] + t) =~= acc@
                            + t by {}
                    }
                    j = j + 6;
                },
            }
        } else if (c as u32) < 0x20 {
            return None;
        } else {
            let ghost pre = acc@;
            acc.push(c);
            proof {
                assert forall|t: Seq<char>| true implies pre + (seq![c] + t) =~= acc@ + t by {}
            }
            j = j + 1;
        }
    }
}

/// Round trip: a canonically escaped body followed by a closing quote
/// parses back to the original text.
pub proof fn lemma_unesc_esc(v: Seq<char>, p: int, s: Seq<char>)
    requires
        0 <= p,
        p + esc(s).len() + 1 <= v.len(),
        v.subrange(p, p + esc(s).len() + 1) == esc(s) + seq!['"'],
    ensures
        spec_unesc(v, p) == Some((s, p + esc(s).len() + 1)),
    decreases s.len(),
{
    let w = esc(s) + seq!['"'];
    let q = p + esc(s).len() + 1;
    if s.len() == 0 {
        assert(v[p] == '"') by {
            assert(v.subrange(p, q)[0] == w[0]);
        }
    } else {
        let c = s[0];
        let s2 = s.drop_first();
        let ec = esc_char(c);
        assert(esc(s) == ec + esc(s2));
        let p2 = p + ec.len();
        assert forall|k: int| 0 <= k < ec.len() implies v[p + k] == ec[k] by {
            assert(v.subrange(p, q)[k] == w[k]);
        }
        assert(v.subrange(p2, q) =~= esc(s2) + seq!['"']) by {
            assert forall|k: int| 0 <= k < q - p2 implies v.subrange(p2, q)[k] == (esc(s2)
                + seq!['"'])[k] by {
                assert(v.subrange(p, q)[k + ec.len()] == w[k + ec.len()]);
            }
        }
        lemma_unesc_esc(v, p2, s2);
        if c == '"' {
            assert(v[p] == '\\' && v[p + 1] == '"');
        } else if c == '\\' {
            assert(v[p] == '\\' && v[p + 1] == '\\');
        } else if c == '\u{8}' || c == '\t' || c == '\n' || c == '\u{c}' || c == '\r' {
            assert(v[p] == '\\');
            assert(named_unesc(v[p + 1]) == Some(c));
        } else if (c as u32) < 0x20 {
            let hi = (c as u32 / 16) as nat;
            let lo = (c as u32 % 16) as nat;
            assert(hi < 2 && lo < 16 && c as u32 == hi * 16 + lo) by (nonlinear_arith)
                requires
                    (c as u32) < 0x20,
                    hi == (c as u32 / 16) as nat,
                    lo == (c as u32 % 16) as nat,
            ;
            assert(v[p] == '\\' && v[p + 1] == 'u' && v[p + 2] == '0' && v[p + 3] == '0');
            assert(v[p + 4] == hex_char(hi) && v[p + 5] == hex_char(lo));
            assert(is_hex_lower(hex_char(hi)) && hex_val(hex_char(hi)) == hi);
            assert(is_hex_lower(hex_char(lo)) && hex_val(hex_char(lo)) == lo);
            lemma_char_class(c);
            assert(hex_val(v[p + 4]) * 16 + hex_val(v[p + 5]) == c as u32);
            assert(!has_named_esc(hex_val(v[p + 4]) * 16 + hex_val(v[p + 5])));
            lemma_u8_char((c as u32) as u8);
            lemma_char_inj((((c as u32) as u8) as char), c);
            assert((((hex_val(v[p + 4]) * 16 + hex_val(v[p + 5])) as u8) as char) == c);
            assert(seq![c] + s2 =~= s);
        } else {
            assert(ec =~= seq![c]);
            assert(v[p + 0] == ec[0]);
            assert(v[p] == c);
        }
        assert(seq![c] + s2 =~= s);
    }
}

// ----------------------------------------------------------------------
// fixed literals
// ----------------------------------------------------------------------
/// Whether `w` stands verbatim at position `p`.
pub open spec fn lit_at(v: Seq<char>, p: int, w: Seq<char>) -> bool {
    0 <= p && p + w.len() <= v.len() && v.subrange(p, p + w.len()) == w
}

/// What matching a fixed literal at position `p` yields: the position just
/// past it.
pub open spec fn spec_eat_lit(v: Seq<char>, p: int, lit: Seq<char>) -> Option<int> {
    if lit_at(v, p, lit) {
        Some(p + lit.len())
    } else {
        None
    }
}

/// A literal made of two halves stands at `p` exactly when the halves
/// stand there one after the other.
pub proof fn lemma_lit_at_split(v: Seq<char>, p: int, a: Seq<char>, b: Seq<char>)
    requires
        lit_at(v, p, a + b),
    ensures
        lit_at(v, p, a),
        lit_at(v, p + a.len(), b),
{
    let w = a + b;
    assert(v.subrange(p, p + a.len()) =~= a) by {
        assert forall|k: int| 0 <= k < a.len() implies v.subrange(p, p + a.len())[k] == a[k] by {
            assert(v.subrange(p, p + w.len())[k] == w[k]);
        }
    }
    assert(v.subrange(p + a.len(), p + a.len() + b.len()) =~= b) by {
        assert forall|k: int| 0 <= k < b.len() implies v.subrange(
            p + a.len(),
            p + a.len() + b.len(),
        )[k] == b[k] by {
            assert(v.subrange(p, p + w.len())[k + a.len()] == w[k + a.len()]);
        }
    }
}

/// Matches a fixed literal.
pub fn eat_lit(v: &Vec<char>, i: usize, lit: &str) -> (r: Option<usize>)
    requires
        i <= v@.len(),
    ensures
        r matches Some(j) ==> j as int == i + lit@.len() && spec_eat_lit(v@, i as int, lit@)
            == Some(j as int),
        r is None ==> spec_eat_lit(v@, i as int, lit@) is None,
{
    let n = lit.unicode_len();
    if n > v.len() - i {
        return None;
    }
    let mut k: usize = 0;
    while k < n
        invariant
            i + n <= v@.len(),
            v@.len() <= usize::MAX,
            n == lit@.len(),
            k <= n,
            forall|m: int| 0 <= m < k ==> v@[i + m] == lit@[m],
        decreases n - k,
    {
        if v[i + k] != lit.get_char(k) {
            proof {
                if lit_at(v@, i as int, lit@) {
                    assert(v@.subrange(i as int, i + lit@.len())[k as int] == lit@[k as int]);
                }
            }
            return None;
        }
        k = k + 1;
    }
    proof {
        assert(v@.subrange(i as int, i + n as int) =~= lit@);
    }
    Some(i + n)
}

/// Whether a fixed literal stands at `i`.
pub fn at_lit(v: &Vec<char>, i: usize, lit: &str) -> (r: bool)
    requires
        i <= v@.len(),
    ensures
        r == lit_at(v@, i as int, lit@),
{
    match eat_lit(v, i, lit) {
        Some(_) => true,
        None => false,
    }
}

/// Appends a fixed literal.
pub fn push_lit(out: &mut Vec<char>, lit: &str)
    ensures
        final(out)@ == old(out)@ + lit@,
{
    let n = lit.unicode_len();
    let mut k: usize = 0;
    proof {
        assert(out@ =~= old(out)@ + lit@.subrange(0, 0));
    }
    while k < n
        invariant
            n == lit@.len(),
            k <= n,
            out@ == old(out)@ + lit@.subrange(0, k as int),
        decreases n - k,
    {
        out.push(lit.get_char(k));
        proof {
            assert(out@ =~= old(out)@ + lit@.subrange(0, k + 1));
        }
        k = k + 1;
    }
    proof {
        assert(lit@.subrange(0, lit@.len() as int) =~= lit@);
    }
}


} // verus!
