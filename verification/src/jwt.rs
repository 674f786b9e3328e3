//! The bearer token: a three-segment dotted string whose middle segment is
//! the base64url writing of the claim set's JSON. Signature and expiry are
//! checked by the token library (they depend on the key and on the clock);
//! the claims themselves are decoded here, so what the session store is
//! fed is pinned down exactly.

use vstd::prelude::*;
use vstd::utf8::{valid_utf8, decode_utf8, encode_utf8, encode_utf8_valid_utf8,
    encode_utf8_decode_utf8};
use crate::chars::{chars_of, string_of, slice_range};
use crate::message::spec_qbody;
use crate::session::{User, UserV, Role, Session, RenewOutcome, spec_apply_renewal};
use crate::wire::{
    spec_eat_lit, spec_parse_i64, spec_unesc, eat_lit, parse_i64, parse_string, lemma_u8_char,
    spec_i64_str, lit_at, lemma_lit_at_split, lemma_unesc_esc, lemma_parse_i64_round_trip,
    is_digit,
};

verus! {

// ----------------------------------------------------------------------
// base64url (no padding)
// ----------------------------------------------------------------------
/// Whether a character belongs to the base64url alphabet.
pub open spec fn is_b64_char(c: char) -> bool {
    let u = c as u32;
    (65 <= u && u <= 90) || (97 <= u && u <= 122) || (48 <= u && u <= 57) || u == 45 || u == 95
}

/// The six-bit value of a base64url character.
pub open spec fn b64_val(c: char) -> nat {
    let u = c as u32;
    if 65 <= u && u <= 90 {
        (u - 65) as nat
    } else if 97 <= u && u <= 122 {
        (u - 97 + 26) as nat
    } else if 48 <= u && u <= 57 {
        (u - 48 + 52) as nat
    } else if u == 45 {
        62
    } else {
        63
    }
}

/// What decoding an unpadded base64url text yields: three bytes for each
/// full group of four characters, a short final group for a one- or
/// two-byte tail; refused on a foreign character, an impossible length,
/// or set padding bits.
pub open spec fn spec_b64_dec(v: Seq<char>) -> Option<Seq<u8>>
    decreases v.len(),
{
    if v.len() == 0 {
        Some(Seq::<u8>::empty())
    } else if v.len() == 1 {
        None
    } else if v.len() == 2 {
        if is_b64_char(v[0]) && is_b64_char(v[1]) && b64_val(v[1]) % 16 == 0 {
            Some(seq![(b64_val(v[0]) * 4 + b64_val(v[1]) / 16) as u8])
        } else {
            None
        }
    } else if v.len() == 3 {
        if is_b64_char(v[0]) && is_b64_char(v[1]) && is_b64_char(v[2]) && b64_val(v[2]) % 4
            == 0 {
            Some(
                seq![
                    (b64_val(v[0]) * 4 + b64_val(v[1]) / 16) as u8,
                    ((b64_val(v[1]) % 16) * 16 + b64_val(v[2]) / 4) as u8,
                ],
            )
        } else {
            None
        }
    } else {
        if is_b64_char(v[0]) && is_b64_char(v[1]) && is_b64_char(v[2]) && is_b64_char(v[3]) {
            match spec_b64_dec(v.subrange(4, v.len() as int)) {
                Some(t) => Some(
                    seq![
                        (b64_val(v[0]) * 4 + b64_val(v[1]) / 16) as u8,
                        ((b64_val(v[1]) % 16) * 16 + b64_val(v[2]) / 4) as u8,
                        ((b64_val(v[2]) % 4) * 64 + b64_val(v[3])) as u8,
                    ] + t,
                ),
                None => None,
            }
        } else {
            None
        }
    }
}

/// Executable twin of [`is_b64_char`].
fn is_b64(c: char) -> (r: bool)
    ensures
        r == is_b64_char(c),
{
    let u = c as u32;
    (65 <= u && u <= 90) || (97 <= u && u <= 122) || (48 <= u && u <= 57) || u == 45 || u == 95
}

/// The six-bit value of a base64url character.
fn b64_value(c: char) -> (r: u32)
    requires
        is_b64_char(c),
    ensures
        r as nat == b64_val(c),
        r < 64,
{
    let u = c as u32;
    if 65 <= u && u <= 90 {
        u - 65
    } else if 97 <= u && u <= 122 {
        u - 97 + 26
    } else if 48 <= u && u <= 57 {
        u - 48 + 52
    } else if u == 45 {
        62
    } else {
        63
    }
}

/// Decodes an unpadded base64url text.
pub fn b64_decode(v: &Vec<char>) -> (r: Option<Vec<u8>>)
    ensures
        r matches Some(b) ==> spec_b64_dec(v@) == Some(b@),
        r is None ==> spec_b64_dec(v@) is None,
{
    let mut out: Vec<u8> = Vec::new();
    let mut j: usize = 0;
    let n = v.len();
    proof {
        assert(v@.subrange(0, v@.len() as int) =~= v@);
    }
    loop
        invariant
            j <= n,
            n == v@.len(),
            spec_b64_dec(v@) == (match spec_b64_dec(v@.subrange(j as int, v@.len() as int)) {
                Some(t) => Some(out@ + t),
                None => None::<Seq<u8>>,
            }),
        decreases n - j,
    {
        let ghost rest = v@.subrange(j as int, v@.len() as int);
        if j == n {
            proof {
                assert(out@ + Seq::<u8>::empty() =~= out@);
            }
            return Some(out);
        }
        if n - j == 1 {
            return None;
        }
        if n - j == 2 {
            if !(is_b64(v[j]) && is_b64(v[j + 1])) {
                return None;
            }
            let v1 = b64_value(v[j + 1]);
            if v1 % 16 != 0 {
                return None;
            }
            let b0: u32 = b64_value(v[j]) * 4 + v1 / 16;
            let ghost pre = out@;
            out.push(b0 as u8);
            j = j + 2;
            proof {
                assert(rest[0] == v@[j - 2] && rest[1] == v@[j - 1]);
                assert(pre + seq![b0 as u8] =~= out@);
            }
            proof {
                assert(out@ + Seq::<u8>::empty() =~= out@);
            }
            return Some(out);
        }
        if n - j == 3 {
            if !(is_b64(v[j]) && is_b64(v[j + 1]) && is_b64(v[j + 2])) {
                return None;
            }
            let v1 = b64_value(v[j + 1]);
            let v2 = b64_value(v[j + 2]);
            if v2 % 4 != 0 {
                return None;
            }
            let b0: u32 = b64_value(v[j]) * 4 + v1 / 16;
            let b1: u32 = (v1 % 16) * 16 + v2 / 4;
            let ghost pre = out@;
            out.push(b0 as u8);
            out.push(b1 as u8);
            j = j + 3;
            proof {
                assert(rest[0] == v@[j - 3] && rest[1] == v@[j - 2] && rest[2] == v@[j - 1]);
                assert(pre + seq![b0 as u8, b1 as u8] =~= out@);
            }
            proof {
                assert(out@ + Seq::<u8>::empty() =~= out@);
            }
            return Some(out);
        }
        if !(is_b64(v[j]) && is_b64(v[j + 1]) && is_b64(v[j + 2]) && is_b64(v[j + 3])) {
            return None;
        }
        let v0 = b64_value(v[j]);
        let v1 = b64_value(v[j + 1]);
        let v2 = b64_value(v[j + 2]);
        let v3 = b64_value(v[j + 3]);
        let b0: u32 = v0 * 4 + v1 / 16;
        let b1: u32 = (v1 % 16) * 16 + v2 / 4;
        let b2: u32 = (v2 % 4) * 64 + v3;
        let ghost pre = out@;
        out.push(b0 as u8);
        out.push(b1 as u8);
        out.push(b2 as u8);
        proof {
            assert(rest[0] == v@[j as int] && rest[1] == v@[j + 1] && rest[2] == v@[j + 2]
                && rest[3] == v@[j + 3]);
            assert(rest.subrange(4, rest.len() as int) =~= v@.subrange(
                j + 4,
                v@.len() as int,
            ));
            assert forall|t: Seq<u8>| true implies pre + (seq![b0 as u8, b1 as u8, b2 as u8] + t)
                =~= out@ + t by {}
        }
        j = j + 4;
    }
}


/// The base64url character for a six-bit value.
pub open spec fn b64_char(d: nat) -> char {
    ((if d < 26 {
        (65 + d) as nat
    } else if d < 52 {
        (97 + (d - 26)) as nat
    } else if d < 62 {
        (48 + (d - 52)) as nat
    } else if d == 62 {
        45 as nat
    } else {
        95 as nat
    }) as u8) as char
}

/// Canonical unpadded base64url writing of bytes: four characters for each
/// full group of three bytes, a short final group for a one- or two-byte
/// tail, with clear padding bits.
pub open spec fn spec_b64_enc(b: Seq<u8>) -> Seq<char>
    decreases b.len(),
{
    if b.len() == 0 {
        Seq::<char>::empty()
    } else if b.len() == 1 {
        seq![b64_char((b[0] / 4) as nat), b64_char(((b[0] % 4) * 16) as nat)]
    } else if b.len() == 2 {
        seq![
            b64_char((b[0] / 4) as nat),
            b64_char(((b[0] % 4) * 16 + b[1] / 16) as nat),
            b64_char(((b[1] % 16) * 4) as nat),
        ]
    } else {
        seq![
            b64_char((b[0] / 4) as nat),
            b64_char(((b[0] % 4) * 16 + b[1] / 16) as nat),
            b64_char(((b[1] % 16) * 4 + b[2] / 64) as nat),
            b64_char((b[2] % 64) as nat),
        ] + spec_b64_enc(b.subrange(3, b.len() as int))
    }
}

/// The base64url character of a six-bit value reads back as that value.
proof fn lemma_b64_char(d: nat)
    requires
        d < 64,
    ensures
        is_b64_char(b64_char(d)),
        b64_val(b64_char(d)) == d,
{
    if d < 26 {
        lemma_u8_char((65 + d) as u8);
    } else if d < 52 {
        lemma_u8_char((97 + (d - 26)) as u8);
    } else if d < 62 {
        lemma_u8_char((48 + (d - 52)) as u8);
    } else if d == 62 {
        lemma_u8_char(45u8);
    } else {
        lemma_u8_char(95u8);
    }
}

/// Round trip: canonically written base64url decodes back to the bytes it
/// was written from.
pub proof fn lemma_b64_round_trip(b: Seq<u8>)
    ensures
        spec_b64_dec(spec_b64_enc(b)) == Some(b),
    decreases b.len(),
{
    let e = spec_b64_enc(b);
    if b.len() == 0 {
        assert(b =~= Seq::<u8>::empty());
    } else if b.len() == 1 {
        let x0 = b[0] as nat;
        let d0 = x0 / 4;
        let d1 = (x0 % 4) * 16;
        lemma_b64_char(d0);
        lemma_b64_char(d1);
        assert(d1 % 16 == 0 && d0 * 4 + d1 / 16 == x0) by (nonlinear_arith)
            requires
                d0 == x0 / 4,
                d1 == (x0 % 4) * 16,
                x0 < 256,
        ;
        assert(spec_b64_dec(e) == Some(seq![(d0 * 4 + d1 / 16) as u8]));
        assert(seq![(d0 * 4 + d1 / 16) as u8] =~= b);
    } else if b.len() == 2 {
        let x0 = b[0] as nat;
        let x1 = b[1] as nat;
        let d0 = x0 / 4;
        let d1 = (x0 % 4) * 16 + x1 / 16;
        let d2 = (x1 % 16) * 4;
        lemma_b64_char(d0);
        lemma_b64_char(d1);
        lemma_b64_char(d2);
        assert(d1 < 64 && d2 < 64 && d2 % 4 == 0 && d0 * 4 + d1 / 16 == x0 && (d1 % 16) * 16
            + d2 / 4 == x1) by (nonlinear_arith)
            requires
                d0 == x0 / 4,
                d1 == (x0 % 4) * 16 + x1 / 16,
                d2 == (x1 % 16) * 4,
                x0 < 256,
                x1 < 256,
        ;
        assert(spec_b64_dec(e) == Some(seq![(d0 * 4 + d1 / 16) as u8, ((d1 % 16) * 16 + d2 / 4) as u8]));
        assert(seq![(d0 * 4 + d1 / 16) as u8, ((d1 % 16) * 16 + d2 / 4) as u8] =~= b);
    } else {
        let x0 = b[0] as nat;
        let x1 = b[1] as nat;
        let x2 = b[2] as nat;
        let d0 = x0 / 4;
        let d1 = (x0 % 4) * 16 + x1 / 16;
        let d2 = (x1 % 16) * 4 + x2 / 64;
        let d3 = x2 % 64;
        lemma_b64_char(d0);
        lemma_b64_char(d1);
        lemma_b64_char(d2);
        lemma_b64_char(d3);
        let rest = b.subrange(3, b.len() as int);
        lemma_b64_round_trip(rest);
        assert(d1 < 64 && d2 < 64 && d3 < 64 && d0 * 4 + d1 / 16 == x0 && (d1 % 16) * 16 + d2
            / 4 == x1 && (d2 % 4) * 64 + d3 == x2) by (nonlinear_arith)
            requires
                d0 == x0 / 4,
                d1 == (x0 % 4) * 16 + x1 / 16,
                d2 == (x1 % 16) * 4 + x2 / 64,
                d3 == x2 % 64,
                x0 < 256,
                x1 < 256,
                x2 < 256,
        ;
        assert(e.subrange(4, e.len() as int) =~= spec_b64_enc(rest));
        assert(e[0] == b64_char(d0) && e[1] == b64_char(d1) && e[2] == b64_char(d2) && e[3]
            == b64_char(d3));
        assert(spec_b64_dec(e) == Some(
            seq![(d0 * 4 + d1 / 16) as u8, ((d1 % 16) * 16 + d2 / 4) as u8, ((d2 % 4) * 64 + d3) as u8]
                + spec_b64_dec(e.subrange(4, e.len() as int))->Some_0,
        ));
        assert(seq![x0 as u8, x1 as u8, x2 as u8] + rest =~= b);
    }
}

/// The six-bit character for a value below sixty-four.
fn b64_of(d: u32) -> (r: char)
    requires
        d < 64,
    ensures
        r == b64_char(d as nat),
{
    let u: u8 = if d < 26 {
        (65 + d) as u8
    } else if d < 52 {
        (97 + (d - 26)) as u8
    } else if d < 62 {
        (48 + (d - 52)) as u8
    } else if d == 62 {
        45u8
    } else {
        95u8
    };
    u as char
}

/// Writes bytes as unpadded base64url.
pub fn b64_encode(b: &[u8]) -> (r: Vec<char>)
    ensures
        r@ == spec_b64_enc(b@),
{
    let mut out: Vec<char> = Vec::new();
    let mut j: usize = 0;
    let n = b.len();
    proof {
        assert(b@.subrange(0, b@.len() as int) =~= b@);
    }
    loop
        invariant
            j <= n,
            n == b@.len(),
            spec_b64_enc(b@) == out@ + spec_b64_enc(b@.subrange(j as int, b@.len() as int)),
        decreases n - j,
    {
        let ghost rest = b@.subrange(j as int, b@.len() as int);
        if j == n {
            proof {
                assert(out@ + Seq::<char>::empty() =~= out@);
            }
            return out;
        }
        let x0 = b[j] as u32;
        if n - j == 1 {
            out.push(b64_of(x0 / 4));
            out.push(b64_of((x0 % 4) * 16));
            proof {
                assert(rest[0] == b@[j as int]);
                assert(out@ =~= spec_b64_enc(b@));
            }
            return out;
        }
        let x1 = b[j + 1] as u32;
        if n - j == 2 {
            out.push(b64_of(x0 / 4));
            out.push(b64_of((x0 % 4) * 16 + x1 / 16));
            out.push(b64_of((x1 % 16) * 4));
            proof {
                assert(rest[0] == b@[j as int] && rest[1] == b@[j + 1]);
                assert(out@ =~= spec_b64_enc(b@));
            }
            return out;
        }
        let x2 = b[j + 2] as u32;
        out.push(b64_of(x0 / 4));
        out.push(b64_of((x0 % 4) * 16 + x1 / 16));
        out.push(b64_of((x1 % 16) * 4 + x2 / 64));
        out.push(b64_of(x2 % 64));
        proof {
            assert(rest[0] == b@[j as int] && rest[1] == b@[j + 1] && rest[2] == b@[j + 2]);
            assert(rest.subrange(3, rest.len() as int) =~= b@.subrange(j + 3, b@.len() as int));
        }
        j = j + 3;
    }
}

// ----------------------------------------------------------------------
// the claim set's JSON
// ----------------------------------------------------------------------
/// What parsing an optional string field yields: `null`, or a quoted
/// string.
pub open spec fn spec_parse_opt_str(v: Seq<char>, p: int) -> Option<(Option<Seq<char>>, int)> {
    match spec_eat_lit(v, p, "null"@) {
        Some(p1) => Some((None, p1)),
        None => match spec_eat_lit(v, p, "\""@) {
            Some(p1) => match spec_unesc(v, p1) {
                Some((t, p2)) => Some((Some(t), p2)),
                None => None,
            },
            None => None,
        },
    }
}

/// What parsing the role claim yields.
pub open spec fn spec_parse_role(v: Seq<char>, p: int) -> Option<(Role, int)> {
    match spec_eat_lit(v, p, "\"User\""@) {
        Some(p1) => Some((Role::User, p1)),
        None => match spec_eat_lit(v, p, "\"Admin\""@) {
            Some(p1) => Some((Role::Admin, p1)),
            None => None,
        },
    }
}

/// What parsing the two optional contact claims yields.
pub open spec fn spec_parse_contact(v: Seq<char>, p: int) -> Option<
    (Option<Seq<char>>, Option<Seq<char>>, int),
> {
    match spec_eat_lit(v, p, ",\"email\":"@) {
        Some(p1) => match spec_parse_opt_str(v, p1) {
            Some((email, p2)) => match spec_eat_lit(v, p2, ",\"phone\":"@) {
                Some(p3) => match spec_parse_opt_str(v, p3) {
                    Some((phone, p4)) => Some((email, phone, p4)),
                    None => None,
                },
                None => None,
            },
            None => None,
        },
        None => None,
    }
}

/// What parsing the trailing claims (graph id, role, expiry) and the
/// closing brace yields.
pub open spec fn spec_parse_tail(v: Seq<char>, p: int) -> Option<(Seq<char>, Role, i64, int)> {
    match spec_eat_lit(v, p, ",\"dgraph_uid\":\""@) {
        Some(p1) => match spec_unesc(v, p1) {
            Some((dgraph_uid, p2)) => match spec_eat_lit(v, p2, ",\"role\":"@) {
                Some(p3) => match spec_parse_role(v, p3) {
                    Some((role, p4)) => match spec_eat_lit(v, p4, ",\"exp\":"@) {
                        Some(p5) => match spec_parse_i64(v, p5) {
                            Some((exp, p6)) => match spec_eat_lit(v, p6, "}"@) {
                                Some(p7) => Some((dgraph_uid, role, exp, p7)),
                                None => None,
                            },
                            None => None,
                        },
                        None => None,
                    },
                    None => None,
                },
                None => None,
            },
            None => None,
        },
        None => None,
    }
}

/// What parsing the whole claim set's JSON yields: the claims, on exactly
/// the form the backend writes.
pub open spec fn spec_parse_claims(v: Seq<char>) -> Option<UserV> {
    match spec_eat_lit(v, 0, "{\"id\":"@) {
        Some(p1) => match spec_parse_i64(v, p1) {
            Some((id, p2)) => if i32::MIN <= id <= i32::MAX {
                match spec_eat_lit(v, p2, ",\"name\":\""@) {
                    Some(p3) => match spec_unesc(v, p3) {
                        Some((name, p4)) => match spec_parse_contact(v, p4) {
                            Some((email, phone, p5)) => match spec_parse_tail(v, p5) {
                                Some((dgraph_uid, role, exp, p6)) => if p6 == v.len() {
                                    Some(
                                        UserV {
                                            id: id as int,
                                            name,
                                            email,
                                            phone,
                                            dgraph_uid,
                                            role,
                                            exp: exp as int,
                                        },
                                    )
                                } else {
                                    None
                                },
                                None => None,
                            },
                            None => None,
                        },
                        None => None,
                    },
                    None => None,
                }
            } else {
                None
            },
            None => None,
        },
        None => None,
    }
}

fn parse_opt_str(v: &Vec<char>, i: usize) -> (r: Option<(Option<String>, usize)>)
    requires
        i <= v@.len(),
    ensures
        r matches Some((s, j)) ==> i <= j <= v@.len() && spec_parse_opt_str(v@, i as int)
            == Some(
            (
                match s {
                    Some(x) => Some(x@),
                    None => None,
                },
                j as int,
            ),
        ),
        r is None ==> spec_parse_opt_str(v@, i as int) is None,
{
    match eat_lit(v, i, "null") {
        Some(p1) => Some((None, p1)),
        None => match eat_lit(v, i, "\"") {
            Some(p1) => match parse_string(v, p1) {
                Some((t, p2)) => Some((Some(string_of(&t)), p2)),
                None => None,
            },
            None => None,
        },
    }
}

fn parse_role(v: &Vec<char>, i: usize) -> (r: Option<(Role, usize)>)
    requires
        i <= v@.len(),
    ensures
        r matches Some((x, j)) ==> i <= j <= v@.len() && spec_parse_role(v@, i as int) == Some(
            (x, j as int),
        ),
        r is None ==> spec_parse_role(v@, i as int) is None,
{
    match eat_lit(v, i, "\"User\"") {
        Some(p1) => Some((Role::User, p1)),
        None => match eat_lit(v, i, "\"Admin\"") {
            Some(p1) => Some((Role::Admin, p1)),
            None => None,
        },
    }
}

fn parse_contact(v: &Vec<char>, i: usize) -> (r: Option<(Option<String>, Option<String>, usize)>)
    requires
        i <= v@.len(),
    ensures
        r matches Some((email, phone, j)) ==> i <= j <= v@.len() && spec_parse_contact(
            v@,
            i as int,
        ) == Some(
            (
                match email {
                    Some(x) => Some(x@),
                    None => None,
                },
                match phone {
                    Some(x) => Some(x@),
                    None => None,
                },
                j as int,
            ),
        ),
        r is None ==> spec_parse_contact(v@, i as int) is None,
{
    match eat_lit(v, i, ",\"email\":") {
        Some(p1) => match parse_opt_str(v, p1) {
            Some((email, p2)) => match eat_lit(v, p2, ",\"phone\":") {
                Some(p3) => match parse_opt_str(v, p3) {
                    Some((phone, p4)) => Some((email, phone, p4)),
                    None => None,
                },
                None => None,
            },
            None => None,
        },
        None => None,
    }
}

fn parse_tail(v: &Vec<char>, i: usize) -> (r: Option<(String, Role, i64, usize)>)
    requires
        i <= v@.len(),
    ensures
        r matches Some((dgraph_uid, role, exp, j)) ==> i <= j <= v@.len() && spec_parse_tail(
            v@,
            i as int,
        ) == Some((dgraph_uid@, role, exp, j as int)),
        r is None ==> spec_parse_tail(v@, i as int) is None,
{
    match eat_lit(v, i, ",\"dgraph_uid\":\"") {
        Some(p1) => match parse_string(v, p1) {
            Some((dg, p2)) => match eat_lit(v, p2, ",\"role\":") {
                Some(p3) => match parse_role(v, p3) {
                    Some((role, p4)) => match eat_lit(v, p4, ",\"exp\":") {
                        Some(p5) => match parse_i64(v, p5) {
                            Some((exp, p6)) => match eat_lit(v, p6, "}") {
                                Some(p7) => Some((string_of(&dg), role, exp, p7)),
                                None => None,
                            },
                            None => None,
                        },
                        None => None,
                    },
                    None => None,
                },
                None => None,
            },
            None => None,
        },
        None => None,
    }
}

/// Parses a whole claim set. Returns exactly what [`spec_parse_claims`]
/// says.
pub fn parse_claims(v: &Vec<char>) -> (r: Option<User>)
    ensures
        r matches Some(u) ==> spec_parse_claims(v@) == Some(u@),
        r is None ==> spec_parse_claims(v@) is None,
{
    match eat_lit(v, 0, "{\"id\":") {
        Some(p1) => match parse_i64(v, p1) {
            Some((id, p2)) => {
                if i32::MIN as i64 <= id && id <= i32::MAX as i64 {
                    match eat_lit(v, p2, ",\"name\":\"") {
                        Some(p3) => match parse_string(v, p3) {
                            Some((name, p4)) => match parse_contact(v, p4) {
                                Some((email, phone, p5)) => match parse_tail(v, p5) {
                                    Some((dgraph_uid, role, exp, p6)) => {
                                        if p6 == v.len() {
                                            Some(
                                                User {
                                                    id: id as i32,
                                                    name: string_of(&name),
                                                    email,
                                                    phone,
                                                    dgraph_uid,
                                                    role,
                                                    exp,
                                                },
                                            )
                                        } else {
                                            None
                                        }
                                    },
                                    None => None,
                                },
                                None => None,
                            },
                            None => None,
                        },
                        None => None,
                    }
                } else {
                    None
                }
            },
            None => None,
        },
        None => None,
    }
}

// ----------------------------------------------------------------------
// the token itself
// ----------------------------------------------------------------------
/// The first `.` at or after `p`, or the end.
pub open spec fn dot_end(v: Seq<char>, p: int) -> int
    decreases v.len() - p when 0 <= p <= v.len()
{
    if p < v.len() && v[p] != '.' {
        dot_end(v, p + 1)
    } else {
        p
    }
}

pub proof fn lemma_dot_end_unique(v: Seq<char>, p: int, j: int)
    requires
        0 <= p <= j <= v.len(),
        forall|k: int| p <= k < j ==> v[k] != '.',
        j == v.len() || v[j] == '.',
    ensures
        dot_end(v, p) == j,
    decreases v.len() - p,
{
    if p < j {
        lemma_dot_end_unique(v, p + 1, j);
    }
}

/// The claims a token carries: the base64url reading of its second
/// segment, read as UTF-8, parsed as the claim set's JSON.
pub open spec fn spec_token_claims(token: Seq<char>) -> Option<UserV> {
    let d1 = dot_end(token, 0);
    if d1 >= token.len() {
        None
    } else {
        let d2 = dot_end(token, d1 + 1);
        if d2 >= token.len() {
            None
        } else {
            match spec_b64_dec(token.subrange(d1 + 1, d2)) {
                Some(bytes) => if valid_utf8(bytes) {
                    spec_parse_claims(decode_utf8(bytes))
                } else {
                    None
                },
                None => None,
            }
        }
    }
}

/// Relies on `String::from_utf8`: accepts exactly valid UTF-8 and reads
/// it as text.
#[verifier::external_body]
fn utf8_to_string(b: Vec<u8>) -> (r: Option<String>)
    ensures
        r is Some <==> valid_utf8(b@),
        r matches Some(s) ==> s@ == decode_utf8(b@),
{
    match String::from_utf8(b) {
        Ok(s) => Some(s),
        Err(_) => None,
    }
}

/// Decodes the claims of a token without checking its signature. Returns
/// exactly what [`spec_token_claims`] says.
pub fn decode_claims(token: &str) -> (r: Option<User>)
    ensures
        r matches Some(u) ==> spec_token_claims(token@) == Some(u@),
        r is None ==> spec_token_claims(token@) is None,
{
    let cs = chars_of(token);
    let n = cs.len();
    let mut d1: usize = 0;
    while d1 < n && cs[d1] != '.'
        invariant
            d1 <= n,
            n == cs@.len(),
            cs@ == token@,
            forall|k: int| 0 <= k < d1 ==> cs@[k] != '.',
        decreases n - d1,
    {
        d1 = d1 + 1;
    }
    proof {
        lemma_dot_end_unique(cs@, 0, d1 as int);
    }
    if d1 >= n {
        return None;
    }
    let mut d2: usize = d1 + 1;
    while d2 < n && cs[d2] != '.'
        invariant
            d1 + 1 <= d2 <= n,
            n == cs@.len(),
            cs@ == token@,
            forall|k: int| d1 + 1 <= k < d2 ==> cs@[k] != '.',
        decreases n - d2,
    {
        d2 = d2 + 1;
    }
    proof {
        lemma_dot_end_unique(cs@, d1 + 1 as int, d2 as int);
    }
    if d2 >= n {
        return None;
    }
    let seg = slice_range(&cs, d1 + 1, d2);
    match b64_decode(&seg) {
        Some(bytes) => {
            match utf8_to_string(bytes) {
                Some(json) => {
                    let jc = chars_of(json.as_str());
                    parse_claims(&jc)
                },
                None => None,
            }
        },
        None => None,
    }
}


// ----------------------------------------------------------------------
// the claim set's canonical writing
// ----------------------------------------------------------------------
/// An optional string claim as it stands on the wire.
pub open spec fn spec_opt_str_json(o: Option<Seq<char>>) -> Seq<char> {
    match o {
        None => "null"@,
        Some(s) => "\""@ + spec_qbody(s),
    }
}

/// A role claim as it stands on the wire.
pub open spec fn spec_role_json(r: Role) -> Seq<char> {
    match r {
        Role::User => "\"User\""@,
        Role::Admin => "\"Admin\""@,
    }
}

/// The contact claims as they stand on the wire.
pub open spec fn spec_contact_json(email: Option<Seq<char>>, phone: Option<Seq<char>>) -> Seq<
    char,
> {
    ",\"email\":"@ + spec_opt_str_json(email) + ",\"phone\":"@ + spec_opt_str_json(phone)
}

/// The trailing claims as they stand on the wire.
pub open spec fn spec_tail_json(dgraph_uid: Seq<char>, role: Role, exp: int) -> Seq<char> {
    ",\"dgraph_uid\":\""@ + spec_qbody(dgraph_uid) + ",\"role\":"@ + spec_role_json(role)
        + ",\"exp\":"@ + spec_i64_str(exp) + "}"@
}

/// The claim set's JSON, exactly as the backend writes it.
pub open spec fn spec_claims_json(u: UserV) -> Seq<char> {
    "{\"id\":"@ + spec_i64_str(u.id) + ",\"name\":\""@ + spec_qbody(u.name)
        + spec_contact_json(u.email, u.phone) + spec_tail_json(u.dgraph_uid, u.role, u.exp)
}

/// Numeric claims fit their wire types.
pub open spec fn claims_wf(u: UserV) -> bool {
    i32::MIN <= u.id <= i32::MAX && i64::MIN <= u.exp <= i64::MAX
}

proof fn lemma_opt_str_round_trip(v: Seq<char>, p: int, o: Option<Seq<char>>)
    requires
        lit_at(v, p, spec_opt_str_json(o)),
    ensures
        spec_parse_opt_str(v, p) == Some((o, p + spec_opt_str_json(o).len())),
{
    reveal_strlit("null");
    reveal_strlit("\"");
    match o {
        None => {},
        Some(s) => {
            let lq = "\""@;
            lemma_lit_at_split(v, p, lq, spec_qbody(s));
            assert(spec_eat_lit(v, p, "null"@) is None) by {
                if lit_at(v, p, "null"@) {
                    assert(v.subrange(p, p + 4)[0] == "null"@[0]);
                    assert(v.subrange(p, p + 1)[0] == lq[0]);
                }
            }
            lemma_unesc_esc(v, p + 1, s);
        },
    }
}

proof fn lemma_role_round_trip(v: Seq<char>, p: int, r: Role)
    requires
        lit_at(v, p, spec_role_json(r)),
    ensures
        spec_parse_role(v, p) == Some((r, p + spec_role_json(r).len())),
{
    reveal_strlit("\"User\"");
    reveal_strlit("\"Admin\"");
    match r {
        Role::User => {},
        Role::Admin => {
            assert(spec_eat_lit(v, p, "\"User\""@) is None) by {
                if lit_at(v, p, "\"User\""@) {
                    assert(v.subrange(p, p + 6)[1] == "\"User\""@[1]);
                    assert(v.subrange(p, p + 7)[1] == "\"Admin\""@[1]);
                }
            }
        },
    }
}

proof fn lemma_contact_round_trip(
    v: Seq<char>,
    p: int,
    email: Option<Seq<char>>,
    phone: Option<Seq<char>>,
)
    requires
        lit_at(v, p, spec_contact_json(email, phone)),
    ensures
        spec_parse_contact(v, p) == Some(
            (email, phone, p + spec_contact_json(email, phone).len()),
        ),
{
    let l3 = ",\"email\":"@;
    let oe = spec_opt_str_json(email);
    let l4 = ",\"phone\":"@;
    let op = spec_opt_str_json(phone);
    lemma_lit_at_split(v, p, l3 + oe + l4, op);
    lemma_lit_at_split(v, p, l3 + oe, l4);
    lemma_lit_at_split(v, p, l3, oe);
    lemma_opt_str_round_trip(v, p + l3.len(), email);
    lemma_opt_str_round_trip(v, p + l3.len() + oe.len() + l4.len(), phone);
}

proof fn lemma_tail_round_trip(v: Seq<char>, p: int, dgraph_uid: Seq<char>, role: Role, exp: i64)
    requires
        lit_at(v, p, spec_tail_json(dgraph_uid, role, exp as int)),
    ensures
        spec_parse_tail(v, p) == Some(
            (dgraph_uid, role, exp, p + spec_tail_json(dgraph_uid, role, exp as int).len()),
        ),
{
    reveal_strlit("}");
    let l5 = ",\"dgraph_uid\":\""@;
    let qd = spec_qbody(dgraph_uid);
    let l6 = ",\"role\":"@;
    let rj = spec_role_json(role);
    let l7 = ",\"exp\":"@;
    let n2 = spec_i64_str(exp as int);
    let l8 = "}"@;
    lemma_lit_at_split(v, p, l5 + qd + l6 + rj + l7 + n2, l8);
    lemma_lit_at_split(v, p, l5 + qd + l6 + rj + l7, n2);
    lemma_lit_at_split(v, p, l5 + qd + l6 + rj, l7);
    lemma_lit_at_split(v, p, l5 + qd + l6, rj);
    lemma_lit_at_split(v, p, l5 + qd, l6);
    lemma_lit_at_split(v, p, l5, qd);
    lemma_unesc_esc(v, p + l5.len(), dgraph_uid);
    lemma_role_round_trip(v, p + l5.len() + qd.len() + l6.len(), role);
    let p_exp: int = p + l5.len() + qd.len() + l6.len() + rj.len() + l7.len();
    let q2: int = p_exp + n2.len() as int;
    assert(v[q2] == '}') by {
        assert(v.subrange(q2, q2 + l8.len())[0] == l8[0]);
    }
    assert(!is_digit('}'));
    lemma_parse_i64_round_trip(v, p_exp, exp);
}

/// Round trip: a canonically written, well-formed claim set parses back to
/// exactly itself.
#[verifier::rlimit(100)]
#[verifier::spinoff_prover]
pub proof fn lemma_claims_round_trip(v: Seq<char>, u: UserV)
    requires
        claims_wf(u),
        v == spec_claims_json(u),
    ensures
        spec_parse_claims(v) == Some(u),
{
    reveal_strlit("{\"id\":");
    reveal_strlit(",\"name\":\"");
    let l1 = "{\"id\":"@;
    let n1 = spec_i64_str(u.id);
    let l2 = ",\"name\":\""@;
    let qn = spec_qbody(u.name);
    let cj = spec_contact_json(u.email, u.phone);
    let tj = spec_tail_json(u.dgraph_uid, u.role, u.exp);
    assert(lit_at(v, 0, v)) by {
        assert(v.subrange(0, v.len() as int) =~= v);
    }
    lemma_lit_at_split(v, 0, l1 + n1 + l2 + qn + cj, tj);
    lemma_lit_at_split(v, 0, l1 + n1 + l2 + qn, cj);
    lemma_lit_at_split(v, 0, l1 + n1 + l2, qn);
    lemma_lit_at_split(v, 0, l1 + n1, l2);
    lemma_lit_at_split(v, 0, l1, n1);
    let q1: int = l1.len() + n1.len() as int;
    assert(v[q1] == ',') by {
        assert(v.subrange(q1, q1 + l2.len())[0] == l2[0]);
    }
    assert(!is_digit(','));
    lemma_parse_i64_round_trip(v, l1.len() as int, u.id as i64);
    let p_name: int = q1 + l2.len() as int;
    lemma_unesc_esc(v, p_name, u.name);
    let p_contact: int = p_name + qn.len();
    lemma_contact_round_trip(v, p_contact, u.email, u.phone);
    let p_tail: int = p_contact + cj.len();
    lemma_tail_round_trip(v, p_tail, u.dgraph_uid, u.role, (u.exp as i64));
}

/// Every character the base64url writer emits belongs to its alphabet.
proof fn lemma_b64_enc_chars(b: Seq<u8>)
    ensures
        forall|k: int| 0 <= k < spec_b64_enc(b).len() ==> is_b64_char(#[trigger] spec_b64_enc(b)[k]),
    decreases b.len(),
{
    let e = spec_b64_enc(b);
    if b.len() == 0 {
    } else if b.len() == 1 {
        lemma_b64_char((b[0] / 4) as nat);
        lemma_b64_char(((b[0] % 4) * 16) as nat);
    } else if b.len() == 2 {
        lemma_b64_char((b[0] / 4) as nat);
        lemma_b64_char(((b[0] % 4) * 16 + b[1] / 16) as nat);
        lemma_b64_char(((b[1] % 16) * 4) as nat);
    } else {
        lemma_b64_char((b[0] / 4) as nat);
        lemma_b64_char(((b[0] % 4) * 16 + b[1] / 16) as nat);
        lemma_b64_char(((b[1] % 16) * 4 + b[2] / 64) as nat);
        lemma_b64_char((b[2] % 64) as nat);
        lemma_b64_enc_chars(b.subrange(3, b.len() as int));
        assert forall|k: int| 0 <= k < e.len() implies is_b64_char(#[trigger] e[k]) by {
            if k >= 4 {
                assert(e[k] == spec_b64_enc(b.subrange(3, b.len() as int))[k - 4]);
            }
        }
    }
}

/// Completeness of the token reader: a token whose middle segment is the
/// canonical base64url writing of a well-formed claim set's JSON decodes
/// to exactly those claims, whatever the header and signature segments
/// hold. Together with `parse_token`'s contract, a freshly issued token
/// whose signature and expiry check out is never refused.
pub proof fn lemma_token_claims_complete(header: Seq<char>, u: UserV, sig: Seq<char>)
    requires
        claims_wf(u),
        forall|k: int| 0 <= k < header.len() ==> header[k] != '.',
    ensures
        spec_token_claims(
            header + seq!['.'] + spec_b64_enc(encode_utf8(spec_claims_json(u))) + seq!['.'] + sig,
        ) == Some(u),
{
    broadcast use encode_utf8_valid_utf8, encode_utf8_decode_utf8;

    let json = spec_claims_json(u);
    let bytes = encode_utf8(json);
    let seg = spec_b64_enc(bytes);
    let token = header + seq!['.'] + seg + seq!['.'] + sig;
    let d1: int = header.len() as int;
    let d2: int = d1 + 1 + seg.len();
    lemma_b64_enc_chars(bytes);
    assert forall|k: int| 0 <= k < d1 implies token[k] != '.' by {
        assert(token[k] == header[k]);
    }
    assert(token[d1] == '.');
    lemma_dot_end_unique(token, 0, d1);
    assert forall|k: int| d1 + 1 <= k < d2 implies token[k] != '.' by {
        assert(token[k] == seg[k - (d1 + 1)]);
        assert(is_b64_char(seg[k - (d1 + 1)]));
    }
    assert(token[d2] == '.');
    lemma_dot_end_unique(token, d1 + 1, d2);
    assert(token.subrange(d1 + 1, d2) =~= seg);
    lemma_b64_round_trip(bytes);
    lemma_claims_round_trip(json, u);
}

// ----------------------------------------------------------------------
// signature and expiry (trusted)
// ----------------------------------------------------------------------
#[verifier::external_type_specification]
#[verifier::external_body]
pub struct ExDecodingKey(jsonwebtoken::DecodingKey);

#[verifier::external_type_specification]
#[verifier::external_body]
pub struct ExValidation(jsonwebtoken::Validation);

/// Relies on `jsonwebtoken::DecodingKey::from_secret`: the HMAC key for
/// this shared secret.
#[verifier::external_body]
fn key_from_secret(secret: &[u8]) -> jsonwebtoken::DecodingKey {
    jsonwebtoken::DecodingKey::from_secret(secret)
}

/// Relies on `jsonwebtoken::Validation::default`: HS256, with the expiry
/// claim required; the leeway is zeroed so expiry is exact.
#[verifier::external_body]
fn strict_validation() -> jsonwebtoken::Validation {
    let mut v = jsonwebtoken::Validation::default();
    v.leeway = 0;
    v
}

/// Relies on `jsonwebtoken::decode`: whether the token's signature checks
/// out under this key and its expiry has not passed. The outcome depends
/// on the clock, so nothing is promised of it.
#[verifier::external_body]
fn token_valid(token: &str, key: &jsonwebtoken::DecodingKey, validation: &jsonwebtoken::Validation) -> bool {
    jsonwebtoken::decode::<serde_json::Value>(token, key, validation).is_ok()
}

/// Checks a token and decodes its claims: the signature and exact expiry
/// are checked by the token library, and on success the claims returned
/// are exactly the token's own. An unparseable claim set is always
/// refused.
pub fn parse_token(token: &str, secret: &[u8]) -> (r: Result<User, String>)
    ensures
        r matches Ok(u) ==> spec_token_claims(token@) == Some(u@),
        spec_token_claims(token@) is None ==> r is Err,
{
    let key = key_from_secret(secret);
    let validation = strict_validation();
    if !token_valid(token, &key, &validation) {
        return Err("token invalid".to_owned());
    }
    match decode_claims(token) {
        Some(u) => Ok(u),
        None => Err("token invalid".to_owned()),
    }
}

/// Installs a freshly issued token: on a token whose signature, expiry and
/// claims check out, claims and token enter the store together; otherwise
/// the store is left exactly as it was, still holding the last good pair.
pub fn install_token(session: &mut Session, token: String, secret: &[u8]) -> (r: RenewOutcome)
    ensures
        *final(session) == spec_apply_renewal(*old(session), r),
        r matches RenewOutcome::Issued { user, token: t } ==> t == token && Some(user@)
            == spec_token_claims(token@),
        r is Failed ==> *final(session) == *old(session),
        old(session).inv() ==> final(session).inv(),
{
    match parse_token(token.as_str(), secret) {
        Ok(user) => {
            let out = RenewOutcome::Issued { user: user.clone(), token: token.clone() };
            session.set(user, token);
            proof {
                assert(*final(session) == spec_apply_renewal(*old(session), out));
            }
            out
        },
        Err(_) => RenewOutcome::Failed,
    }
}

} // verus!
