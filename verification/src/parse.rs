//! Reading JSON text into values.
//!
//! The grammar accepted here is JSON with insignificant whitespace between
//! tokens and the usual string escapes; `\u` escapes are taken for
//! non-surrogate code points. A number keeps its source token as its text.
//! The functions mirror `sp_value`, the mathematical parser, exactly; the
//! fuel argument bounds nesting and is chosen large enough for any input
//! (see `parse_fuel`).

use vstd::prelude::*;

use crate::json::{
    is_digit, jview, jview_pairs, jview_seq, lemma_jview_pairs, lemma_jview_seq, num_token,
    JVal, Json,
};
use crate::numbers::{check_num_token, suffix};
use crate::text::{char_from_code, chars_of, string_of};

verus! {

broadcast use vstd::std_specs::vec::group_vec_axioms, vstd::seq::group_seq_axioms;

/// Insignificant whitespace between JSON tokens.
pub open spec fn is_json_ws(c: char) -> bool {
    c == ' ' || c == '\t' || c == '\n' || c == '\r'
}

/// `s` without its leading whitespace.
pub open spec fn skip_ws(s: Seq<char>) -> Seq<char>
    decreases s.len(),
{
    if s.len() > 0 && is_json_ws(s[0]) {
        skip_ws(s.subrange(1, s.len() as int))
    } else {
        s
    }
}

/// The characters a number token is made of.
pub open spec fn is_num_char(c: char) -> bool {
    is_digit(c) || c == '.' || c == 'e' || c == 'E' || c == '+' || c == '-'
}

/// Length of the run of number characters at the front of `s`.
pub open spec fn num_prefix(s: Seq<char>) -> nat
    decreases s.len(),
{
    if s.len() > 0 && is_num_char(s[0]) {
        (1 + num_prefix(s.subrange(1, s.len() as int))) as nat
    } else {
        0
    }
}

pub open spec fn is_hex(c: char) -> bool {
    is_digit(c) || (97 <= c as u32 && c as u32 <= 102) || (65 <= c as u32 && c as u32 <= 70)
}

pub open spec fn hex_val(c: char) -> int {
    if is_digit(c) {
        c as u32 - 48
    } else if 97 <= c as u32 {
        c as u32 - 87
    } else {
        c as u32 - 55
    }
}

/// The character a single-letter escape stands for.
pub open spec fn esc_code(e: char) -> Option<char> {
    if e == '"' {
        Some('"')
    } else if e == '\\' {
        Some('\\')
    } else if e == '/' {
        Some('/')
    } else if e == 'n' {
        Some('\n')
    } else if e == 't' {
        Some('\t')
    } else if e == 'r' {
        Some('\r')
    } else if e == 'b' {
        Some((8u32) as char)
    } else if e == 'f' {
        Some((12u32) as char)
    } else {
        None
    }
}

/// Reads string content after the opening quote: the decoded characters and
/// what follows the closing quote. Raw control characters and bad escapes
/// are refused; a high and low surrogate escape pair combines into one
/// character, and a lone surrogate is refused.
pub open spec fn sp_str_body(s: Seq<char>) -> Option<(Seq<char>, Seq<char>)>
    decreases s.len(),
{
    if s.len() == 0 {
        None
    } else if s[0] == '"' {
        Some((Seq::empty(), s.subrange(1, s.len() as int)))
    } else if s[0] == '\\' {
        if s.len() < 2 {
            None
        } else if s[1] == 'u' {
            if s.len() >= 6 && is_hex(s[2]) && is_hex(s[3]) && is_hex(s[4]) && is_hex(s[5]) {
                let code = hex_val(s[2]) * 4096 + hex_val(s[3]) * 256 + hex_val(s[4]) * 16
                    + hex_val(s[5]);
                if 0xD800 <= code && code < 0xDC00 {
                    if s.len() >= 12 && s[6] == '\\' && s[7] == 'u' && is_hex(s[8]) && is_hex(
                        s[9],
                    ) && is_hex(s[10]) && is_hex(s[11]) {
                        let lo = hex_val(s[8]) * 4096 + hex_val(s[9]) * 256 + hex_val(s[10])
                            * 16 + hex_val(s[11]);
                        if 0xDC00 <= lo && lo < 0xE000 {
                            let cp = 0x10000 + (code - 0xD800) * 0x400 + (lo - 0xDC00);
                            match sp_str_body(s.subrange(12, s.len() as int)) {
                                Some((c2, r)) => Some((seq![((cp as u32) as char)] + c2, r)),
                                None => None,
                            }
                        } else {
                            None
                        }
                    } else {
                        None
                    }
                } else if 0xDC00 <= code && code < 0xE000 {
                    None
                } else {
                    match sp_str_body(s.subrange(6, s.len() as int)) {
                        Some((c2, r)) => Some((seq![((code as u32) as char)] + c2, r)),
                        None => None,
                    }
                }
            } else {
                None
            }
        } else {
            match esc_code(s[1]) {
                Some(c) => match sp_str_body(s.subrange(2, s.len() as int)) {
                    Some((c2, r)) => Some((seq![c] + c2, r)),
                    None => None,
                },
                None => None,
            }
        }
    } else if (s[0] as u32) < 32 {
        None
    } else {
        match sp_str_body(s.subrange(1, s.len() as int)) {
            Some((c2, r)) => Some((seq![s[0]] + c2, r)),
            None => None,
        }
    }
}

/// Reads one number token by maximal munch and validates it.
pub open spec fn sp_number(s: Seq<char>) -> Option<(JVal, Seq<char>)> {
    let n = num_prefix(s);
    let t = s.subrange(0, n as int);
    if num_token(t) {
        Some((JVal::Num(t), s.subrange(n as int, s.len() as int)))
    } else {
        None
    }
}

/// Reads one JSON value and what follows it.
pub open spec fn sp_value(s: Seq<char>, f: nat) -> Option<(JVal, Seq<char>)>
    decreases f,
{
    if f == 0 {
        None
    } else {
        let t = skip_ws(s);
        if t.len() == 0 {
            None
        } else if t[0] == 'n' {
            if t.len() >= 4 && t[1] == 'u' && t[2] == 'l' && t[3] == 'l' {
                Some((JVal::Null, t.subrange(4, t.len() as int)))
            } else {
                None
            }
        } else if t[0] == 't' {
            if t.len() >= 4 && t[1] == 'r' && t[2] == 'u' && t[3] == 'e' {
                Some((JVal::Bool(true), t.subrange(4, t.len() as int)))
            } else {
                None
            }
        } else if t[0] == 'f' {
            if t.len() >= 5 && t[1] == 'a' && t[2] == 'l' && t[3] == 's' && t[4] == 'e' {
                Some((JVal::Bool(false), t.subrange(5, t.len() as int)))
            } else {
                None
            }
        } else if t[0] == '"' {
            match sp_str_body(t.subrange(1, t.len() as int)) {
                Some((c, r)) => Some((JVal::Str(c), r)),
                None => None,
            }
        } else if t[0] == '[' {
            sp_arr_rest(t.subrange(1, t.len() as int), (f - 1) as nat)
        } else if t[0] == '{' {
            sp_obj_rest(t.subrange(1, t.len() as int), (f - 1) as nat)
        } else if t[0] == '-' || is_digit(t[0]) {
            sp_number(t)
        } else {
            None
        }
    }
}

/// Reads the rest of an array, after the opening bracket.
pub open spec fn sp_arr_rest(s: Seq<char>, f: nat) -> Option<(JVal, Seq<char>)>
    decreases f,
{
    if f == 0 {
        None
    } else {
        let t = skip_ws(s);
        if t.len() > 0 && t[0] == ']' {
            Some((JVal::Arr(Seq::empty()), t.subrange(1, t.len() as int)))
        } else {
            match sp_items(s, (f - 1) as nat) {
                Some((items, r)) => Some((JVal::Arr(items), r)),
                None => None,
            }
        }
    }
}

/// Reads one or more comma-separated items and the closing bracket.
pub open spec fn sp_items(s: Seq<char>, f: nat) -> Option<(Seq<JVal>, Seq<char>)>
    decreases f,
{
    if f == 0 {
        None
    } else {
        match sp_value(s, (f - 1) as nat) {
            Some((v, r)) => {
                let r1 = skip_ws(r);
                if r1.len() > 0 && r1[0] == ',' {
                    match sp_items(r1.subrange(1, r1.len() as int), (f - 1) as nat) {
                        Some((vs, r2)) => Some((seq![v] + vs, r2)),
                        None => None,
                    }
                } else if r1.len() > 0 && r1[0] == ']' {
                    Some((seq![v], r1.subrange(1, r1.len() as int)))
                } else {
                    None
                }
            },
            None => None,
        }
    }
}

/// Reads the rest of an object, after the opening brace.
pub open spec fn sp_obj_rest(s: Seq<char>, f: nat) -> Option<(JVal, Seq<char>)>
    decreases f,
{
    if f == 0 {
        None
    } else {
        let t = skip_ws(s);
        if t.len() > 0 && t[0] == '}' {
            Some((JVal::Obj(Seq::empty()), t.subrange(1, t.len() as int)))
        } else {
            match sp_members(s, (f - 1) as nat) {
                Some((ms, r)) => Some((JVal::Obj(ms), r)),
                None => None,
            }
        }
    }
}

/// Reads one or more comma-separated members and the closing brace.
pub open spec fn sp_members(s: Seq<char>, f: nat) -> Option<
    (Seq<(Seq<char>, JVal)>, Seq<char>),
>
    decreases f,
{
    if f == 0 {
        None
    } else {
        let t = skip_ws(s);
        if t.len() > 0 && t[0] == '"' {
            match sp_str_body(t.subrange(1, t.len() as int)) {
                Some((k, r1)) => {
                    let r2 = skip_ws(r1);
                    if r2.len() > 0 && r2[0] == ':' {
                        match sp_value(r2.subrange(1, r2.len() as int), (f - 1) as nat) {
                            Some((v, r3)) => {
                                let r4 = skip_ws(r3);
                                if r4.len() > 0 && r4[0] == ',' {
                                    match sp_members(
                                        r4.subrange(1, r4.len() as int),
                                        (f - 1) as nat,
                                    ) {
                                        Some((ms, r5)) => Some((seq![(k, v)] + ms, r5)),
                                        None => None,
                                    }
                                } else if r4.len() > 0 && r4[0] == '}' {
                                    Some((seq![(k, v)], r4.subrange(1, r4.len() as int)))
                                } else {
                                    None
                                }
                            },
                            None => None,
                        }
                    } else {
                        None
                    }
                },
                None => None,
            }
        } else {
            None
        }
    }
}

/// More fuel than any parse can use: nesting consumes at least one
/// character for every few fuel steps.
pub open spec fn parse_fuel(n: nat) -> nat {
    4 * n + 4
}

/// The largest input the parser takes.
pub open spec fn parse_cap() -> nat {
    0x0fff_ffff
}

/// What parsing a whole text yields: one value, with nothing but
/// whitespace around it.
pub open spec fn sp_json(s: Seq<char>) -> Option<JVal> {
    if s.len() > parse_cap() {
        None
    } else {
        match sp_value(s, parse_fuel(s.len())) {
            Some((v, r)) => if skip_ws(r).len() == 0 {
                Some(v)
            } else {
                None
            },
            None => None,
        }
    }
}

// ---------------------------------------------------------------------------
// Executable parser
// ---------------------------------------------------------------------------

/// Advances past leading whitespace.
#[verifier::loop_isolation(false)]
fn skip_ws_x(cs: &Vec<char>, pos: usize) -> (p: usize)
    requires
        pos <= cs@.len(),
    ensures
        pos <= p <= cs@.len(),
        skip_ws(suffix(cs@, pos as int)) == suffix(cs@, p as int),
        p < cs@.len() ==> !is_json_ws(cs@[p as int]),
{
    let mut p: usize = pos;
    while p < cs.len() && (cs[p] == ' ' || cs[p] == '\t' || cs[p] == '\n' || cs[p] == '\r')
        invariant
            pos <= p <= cs@.len(),
            skip_ws(suffix(cs@, pos as int)) == skip_ws(suffix(cs@, p as int)),
        decreases cs@.len() - p,
    {
        proof {
            let s = suffix(cs@, p as int);
            assert(s[0] == cs@[p as int]);
            assert(s.subrange(1, s.len() as int) =~= suffix(cs@, p + 1));
        }
        p = p + 1;
    }
    proof {
        let s = suffix(cs@, p as int);
        if s.len() > 0 {
            assert(s[0] == cs@[p as int]);
        }
        assert(skip_ws(s) == s);
    }
    p
}

/// Reads string content after the opening quote.
#[verifier::loop_isolation(false)]
fn parse_str_body_x(cs: &Vec<char>, pos: usize) -> (r: Option<(Vec<char>, usize)>)
    requires
        pos <= cs@.len(),
    ensures
        match r {
            Some(cp) => pos <= cp.1 <= cs@.len() && sp_str_body(suffix(cs@, pos as int))
                == Some((cp.0@, suffix(cs@, cp.1 as int))),
            None => sp_str_body(suffix(cs@, pos as int)) is None,
        },
{
    let mut buf: Vec<char> = Vec::new();
    let mut p: usize = pos;
    proof {
        let inner = sp_str_body(suffix(cs@, p as int));
        if inner is Some {
            assert(Seq::<char>::empty() + inner->Some_0.0 =~= inner->Some_0.0);
        }
    }
    while p < cs.len()
        invariant
            pos <= p <= cs@.len(),
            match sp_str_body(suffix(cs@, p as int)) {
                Some(cr) => sp_str_body(suffix(cs@, pos as int)) == Some(
                    (buf@ + cr.0, cr.1),
                ),
                None => sp_str_body(suffix(cs@, pos as int)) is None,
            },
        decreases cs@.len() - p,
    {
        let ghost s = suffix(cs@, p as int);
        proof {
            assert(s[0] == cs@[p as int]);
        }
        let c = cs[p];
        if c == '"' {
            proof {
                assert(s.subrange(1, s.len() as int) =~= suffix(cs@, p + 1));
                assert(buf@ + Seq::<char>::empty() =~= buf@);
            }
            return Some((buf, p + 1));
        } else if c == '\\' {
            if p + 1 >= cs.len() {
                return None;
            }
            proof {
                assert(s[1] == cs@[p + 1]);
            }
            let e = cs[p + 1];
            if e == 'u' {
                if cs.len() - p < 6 {
                    return None;
                }
                proof {
                    assert(s[2] == cs@[p + 2]);
                    assert(s[3] == cs@[p + 3]);
                    assert(s[4] == cs@[p + 4]);
                    assert(s[5] == cs@[p + 5]);
                }
                let h1 = hex_val_x(cs[p + 2]);
                let h2 = hex_val_x(cs[p + 3]);
                let h3 = hex_val_x(cs[p + 4]);
                let h4 = hex_val_x(cs[p + 5]);
                let (v1, v2, v3, v4) = match (h1, h2, h3, h4) {
                    (Some(a), Some(b), Some(cc), Some(d)) => (a, b, cc, d),
                    _ => {
                        return None;
                    },
                };
                let code: u32 = v1 * 4096 + v2 * 256 + v3 * 16 + v4;
                if 0xD800 <= code && code < 0xDC00 {
                    proof {
                        if s.len() >= 7 {
                            assert(s[6] == cs@[p + 6]);
                        }
                        if s.len() >= 8 {
                            assert(s[7] == cs@[p + 7]);
                        }
                    }
                    if cs.len() - p < 12 || !(cs[p + 6] == '\\' && cs[p + 7] == 'u') {
                        return None;
                    }
                    proof {
                        assert(s[8] == cs@[p + 8]);
                        assert(s[9] == cs@[p + 9]);
                        assert(s[10] == cs@[p + 10]);
                        assert(s[11] == cs@[p + 11]);
                    }
                    let l1 = hex_val_x(cs[p + 8]);
                    let l2 = hex_val_x(cs[p + 9]);
                    let l3 = hex_val_x(cs[p + 10]);
                    let l4 = hex_val_x(cs[p + 11]);
                    let (w1, w2, w3, w4) = match (l1, l2, l3, l4) {
                        (Some(a), Some(b), Some(cc), Some(d)) => (a, b, cc, d),
                        _ => {
                            return None;
                        },
                    };
                    let lo: u32 = w1 * 4096 + w2 * 256 + w3 * 16 + w4;
                    if !(0xDC00 <= lo && lo < 0xE000) {
                        return None;
                    }
                    let cp: u32 = 0x10000 + (code - 0xD800) * 0x400 + (lo - 0xDC00);
                    let ch = match char_from_code(cp) {
                        Some(ch) => ch,
                        None => {
                            proof {
                                assert(false);
                            }
                            return None;
                        },
                    };
                    let ghost buf0 = buf@;
                    buf.push(ch);
                    proof {
                        assert(s.subrange(12, s.len() as int) =~= suffix(cs@, p + 12));
                        let inner = sp_str_body(suffix(cs@, p + 12));
                        if inner is Some {
                            let pr = inner->Some_0;
                            assert((buf0 + (seq![ch] + pr.0)) =~= (buf@ + pr.0));
                        }
                    }
                    p = p + 12;
                    continue;
                }
                if 0xDC00 <= code && code < 0xE000 {
                    return None;
                }
                let ch = match char_from_code(code) {
                    Some(ch) => ch,
                    None => {
                        proof {
                            assert(false);
                        }
                        return None;
                    },
                };
                let ghost buf0 = buf@;
                buf.push(ch);
                proof {
                    assert(s.subrange(6, s.len() as int) =~= suffix(cs@, p + 6));
                    let inner = sp_str_body(suffix(cs@, p + 6));
                    if inner is Some {
                        let pr = inner->Some_0;
                        assert((buf0 + (seq![ch] + pr.0)) =~= (buf@ + pr.0));
                    }
                }
                p = p + 6;
            } else {
                let dec: Option<char> = if e == '"' {
                    Some('"')
                } else if e == '\\' {
                    Some('\\')
                } else if e == '/' {
                    Some('/')
                } else if e == 'n' {
                    Some('\n')
                } else if e == 't' {
                    Some('\t')
                } else if e == 'r' {
                    Some('\r')
                } else if e == 'b' {
                    char_from_code(8)
                } else if e == 'f' {
                    char_from_code(12)
                } else {
                    None
                };
                let ch = match dec {
                    Some(ch) => ch,
                    None => {
                        return None;
                    },
                };
                proof {
                    assert(esc_code(s[1]) == Some(ch));
                }
                let ghost buf0 = buf@;
                buf.push(ch);
                proof {
                    assert(s.subrange(2, s.len() as int) =~= suffix(cs@, p + 2));
                    let inner = sp_str_body(suffix(cs@, p + 2));
                    if inner is Some {
                        let pr = inner->Some_0;
                        assert((buf0 + (seq![ch] + pr.0)) =~= (buf@ + pr.0));
                    }
                }
                p = p + 2;
            }
        } else if (c as u32) < 32 {
            return None;
        } else {
            let ghost buf0 = buf@;
            buf.push(c);
            proof {
                assert(s.subrange(1, s.len() as int) =~= suffix(cs@, p + 1));
                let inner = sp_str_body(suffix(cs@, p + 1));
                if inner is Some {
                    let pr = inner->Some_0;
                    assert((buf0 + (seq![c] + pr.0)) =~= (buf@ + pr.0));
                }
            }
            p = p + 1;
        }
    }
    None
}

/// The value of one hexadecimal digit.
fn hex_val_x(c: char) -> (r: Option<u32>)
    ensures
        r matches Some(v) ==> is_hex(c) && v == hex_val(c) && v < 16,
        r is None ==> !is_hex(c),
{
    let u = c as u32;
    if 48 <= u && u <= 57 {
        Some(u - 48)
    } else if 97 <= u && u <= 102 {
        Some(u - 87)
    } else if 65 <= u && u <= 70 {
        Some(u - 55)
    } else {
        None
    }
}

pub proof fn lemma_num_prefix_from(s: Seq<char>, n: nat)
    requires
        n <= s.len(),
        forall|i: int| 0 <= i < n ==> is_num_char(s[i]),
        n < s.len() ==> !is_num_char(s[n as int]),
    ensures
        num_prefix(s) == n,
    decreases s.len(),
{
    if s.len() > 0 && is_num_char(s[0]) {
        let t = s.subrange(1, s.len() as int);
        assert(forall|i: int| 0 <= i < t.len() ==> t[i] == s[i + 1]);
        lemma_num_prefix_from(t, (n - 1) as nat);
    }
}

/// Reads one number token starting at `pos`.
#[verifier::loop_isolation(false)]
fn parse_number_x(cs: &Vec<char>, pos: usize) -> (r: Option<(Json, usize)>)
    requires
        pos <= cs@.len(),
    ensures
        match r {
            Some(jp) => pos <= jp.1 <= cs@.len() && sp_number(suffix(cs@, pos as int)) == Some(
                (jp.0@, suffix(cs@, jp.1 as int)),
            ),
            None => sp_number(suffix(cs@, pos as int)) is None,
        },
{
    let ghost s = suffix(cs@, pos as int);
    let mut p: usize = pos;
    while p < cs.len() && ((48 <= cs[p] as u32 && cs[p] as u32 <= 57) || cs[p] == '.' || cs[p]
        == 'e' || cs[p] == 'E' || cs[p] == '+' || cs[p] == '-')
        invariant
            pos <= p <= cs@.len(),
            forall|i: int| pos <= i < p ==> is_num_char(cs@[i]),
        decreases cs@.len() - p,
    {
        p = p + 1;
    }
    proof {
        assert(forall|i: int| 0 <= i < s.len() ==> s[i] == cs@[pos + i]);
        lemma_num_prefix_from(s, (p - pos) as nat);
    }
    let n = p - pos;
    let mut t: Vec<char> = Vec::new();
    let mut k: usize = 0;
    while k < n
        invariant
            k <= n,
            pos + n <= cs@.len(),
            t@.len() == k,
            forall|i: int| 0 <= i < k ==> t@[i] == cs@[pos + i],
        decreases n - k,
    {
        t.push(cs[pos + k]);
        k = k + 1;
    }
    proof {
        assert(t@ =~= s.subrange(0, n as int));
    }
    if check_num_token(&t) {
        let txt = string_of(&t);
        proof {
            assert(s.subrange(n as int, s.len() as int) =~= suffix(cs@, p as int));
        }
        Some((Json::Num(txt), p))
    } else {
        None
    }
}

/// Reads one JSON value starting at `pos`.
fn parse_value_x(cs: &Vec<char>, pos: usize, fuel: usize) -> (r: Option<(Json, usize)>)
    requires
        pos <= cs@.len(),
    ensures
        match r {
            Some(jp) => pos <= jp.1 <= cs@.len() && sp_value(suffix(cs@, pos as int), fuel as nat)
                == Some((jp.0@, suffix(cs@, jp.1 as int))),
            None => sp_value(suffix(cs@, pos as int), fuel as nat) is None,
        },
    decreases fuel,
{
    if fuel == 0 {
        return None;
    }
    let p1 = skip_ws_x(cs, pos);
    let ghost t = suffix(cs@, p1 as int);
    if p1 == cs.len() {
        return None;
    }
    proof {
        assert(t[0] == cs@[p1 as int]);
    }
    let c = cs[p1];
    if c == 'n' {
        if cs.len() - p1 >= 4 && cs[p1 + 1] == 'u' && cs[p1 + 2] == 'l' && cs[p1 + 3] == 'l' {
            proof {
                assert(t[1] == cs@[p1 + 1]);
                assert(t[2] == cs@[p1 + 2]);
                assert(t[3] == cs@[p1 + 3]);
                assert(t.subrange(4, t.len() as int) =~= suffix(cs@, p1 + 4));
            }
            Some((Json::Null, p1 + 4))
        } else {
            proof {
                if t.len() >= 4 {
                    assert(t[1] == cs@[p1 + 1]);
                    assert(t[2] == cs@[p1 + 2]);
                    assert(t[3] == cs@[p1 + 3]);
                }
            }
            None
        }
    } else if c == 't' {
        if cs.len() - p1 >= 4 && cs[p1 + 1] == 'r' && cs[p1 + 2] == 'u' && cs[p1 + 3] == 'e' {
            proof {
                assert(t[1] == cs@[p1 + 1]);
                assert(t[2] == cs@[p1 + 2]);
                assert(t[3] == cs@[p1 + 3]);
                assert(t.subrange(4, t.len() as int) =~= suffix(cs@, p1 + 4));
            }
            Some((Json::Bool(true), p1 + 4))
        } else {
            proof {
                if t.len() >= 4 {
                    assert(t[1] == cs@[p1 + 1]);
                    assert(t[2] == cs@[p1 + 2]);
                    assert(t[3] == cs@[p1 + 3]);
                }
            }
            None
        }
    } else if c == 'f' {
        if cs.len() - p1 >= 5 && cs[p1 + 1] == 'a' && cs[p1 + 2] == 'l' && cs[p1 + 3] == 's'
            && cs[p1 + 4] == 'e' {
            proof {
                assert(t[1] == cs@[p1 + 1]);
                assert(t[2] == cs@[p1 + 2]);
                assert(t[3] == cs@[p1 + 3]);
                assert(t[4] == cs@[p1 + 4]);
                assert(t.subrange(5, t.len() as int) =~= suffix(cs@, p1 + 5));
            }
            Some((Json::Bool(false), p1 + 5))
        } else {
            proof {
                if t.len() >= 5 {
                    assert(t[1] == cs@[p1 + 1]);
                    assert(t[2] == cs@[p1 + 2]);
                    assert(t[3] == cs@[p1 + 3]);
                    assert(t[4] == cs@[p1 + 4]);
                }
            }
            None
        }
    } else if c == '"' {
        proof {
            assert(t.subrange(1, t.len() as int) =~= suffix(cs@, p1 + 1));
        }
        match parse_str_body_x(cs, p1 + 1) {
            Some((content, p2)) => {
                let st = string_of(&content);
                Some((Json::Str(st), p2))
            },
            None => None,
        }
    } else if c == '[' {
        proof {
            assert(t.subrange(1, t.len() as int) =~= suffix(cs@, p1 + 1));
        }
        parse_arr_rest_x(cs, p1 + 1, fuel - 1)
    } else if c == '{' {
        proof {
            assert(t.subrange(1, t.len() as int) =~= suffix(cs@, p1 + 1));
        }
        parse_obj_rest_x(cs, p1 + 1, fuel - 1)
    } else {
        let u = c as u32;
        if c == '-' || (48 <= u && u <= 57) {
            parse_number_x(cs, p1)
        } else {
            None
        }
    }
}

/// Reads the rest of an array, after the opening bracket.
fn parse_arr_rest_x(cs: &Vec<char>, pos: usize, fuel: usize) -> (r: Option<(Json, usize)>)
    requires
        pos <= cs@.len(),
    ensures
        match r {
            Some(jp) => pos <= jp.1 <= cs@.len() && sp_arr_rest(
                suffix(cs@, pos as int),
                fuel as nat,
            ) == Some((jp.0@, suffix(cs@, jp.1 as int))),
            None => sp_arr_rest(suffix(cs@, pos as int), fuel as nat) is None,
        },
    decreases fuel,
{
    if fuel == 0 {
        return None;
    }
    let p1 = skip_ws_x(cs, pos);
    let ghost t = suffix(cs@, p1 as int);
    if p1 < cs.len() && cs[p1] == ']' {
        proof {
            assert(t[0] == cs@[p1 as int]);
            assert(t.subrange(1, t.len() as int) =~= suffix(cs@, p1 + 1));
            assert(jview_seq(Seq::<Json>::empty()) =~= Seq::<JVal>::empty());
        }
        let vs: Vec<Json> = Vec::new();
        proof {
            assert(vs@ =~= Seq::<Json>::empty());
        }
        return Some((Json::Arr(vs), p1 + 1));
    }
    proof {
        if t.len() > 0 {
            assert(t[0] == cs@[p1 as int]);
        }
    }
    match parse_items_x(cs, pos, fuel - 1) {
        Some((vs, p2)) => Some((Json::Arr(vs), p2)),
        None => None,
    }
}

/// Reads one or more comma-separated items and the closing bracket.
fn parse_items_x(cs: &Vec<char>, pos: usize, fuel: usize) -> (r: Option<(Vec<Json>, usize)>)
    requires
        pos <= cs@.len(),
    ensures
        match r {
            Some(jp) => pos <= jp.1 <= cs@.len() && sp_items(suffix(cs@, pos as int), fuel as nat)
                == Some((jview_seq(jp.0@), suffix(cs@, jp.1 as int))),
            None => sp_items(suffix(cs@, pos as int), fuel as nat) is None,
        },
    decreases fuel,
{
    if fuel == 0 {
        return None;
    }
    match parse_value_x(cs, pos, fuel - 1) {
        None => None,
        Some((v, p1)) => {
            let p2 = skip_ws_x(cs, p1);
            let ghost r1 = suffix(cs@, p2 as int);
            if p2 < cs.len() && cs[p2] == ',' {
                proof {
                    assert(r1[0] == cs@[p2 as int]);
                    assert(r1.subrange(1, r1.len() as int) =~= suffix(cs@, p2 + 1));
                }
                match parse_items_x(cs, p2 + 1, fuel - 1) {
                    Some((mut vs, p3)) => {
                        let ghost vs0 = vs@;
                        vs.insert(0, v);
                        proof {
                            assert(vs@ =~= seq![v] + vs0);
                            lemma_jview_seq(vs@);
                            lemma_jview_seq(vs0);
                            assert(jview_seq(vs@) =~= seq![jview(v)] + jview_seq(vs0));
                        }
                        Some((vs, p3))
                    },
                    None => None,
                }
            } else if p2 < cs.len() && cs[p2] == ']' {
                proof {
                    assert(r1[0] == cs@[p2 as int]);
                    assert(r1.subrange(1, r1.len() as int) =~= suffix(cs@, p2 + 1));
                }
                let mut vs: Vec<Json> = Vec::new();
                vs.push(v);
                proof {
                    lemma_jview_seq(vs@);
                    assert(jview_seq(vs@) =~= seq![jview(v)]);
                }
                Some((vs, p2 + 1))
            } else {
                proof {
                    if r1.len() > 0 {
                        assert(r1[0] == cs@[p2 as int]);
                    }
                }
                None
            }
        },
    }
}

/// Reads the rest of an object, after the opening brace.
fn parse_obj_rest_x(cs: &Vec<char>, pos: usize, fuel: usize) -> (r: Option<(Json, usize)>)
    requires
        pos <= cs@.len(),
    ensures
        match r {
            Some(jp) => pos <= jp.1 <= cs@.len() && sp_obj_rest(
                suffix(cs@, pos as int),
                fuel as nat,
            ) == Some((jp.0@, suffix(cs@, jp.1 as int))),
            None => sp_obj_rest(suffix(cs@, pos as int), fuel as nat) is None,
        },
    decreases fuel,
{
    if fuel == 0 {
        return None;
    }
    let p1 = skip_ws_x(cs, pos);
    let ghost t = suffix(cs@, p1 as int);
    if p1 < cs.len() && cs[p1] == '}' {
        proof {
            assert(t[0] == cs@[p1 as int]);
            assert(t.subrange(1, t.len() as int) =~= suffix(cs@, p1 + 1));
            assert(jview_pairs(Seq::<(String, Json)>::empty()) =~= Seq::<(Seq<char>, JVal)>::empty());
        }
        let ms: Vec<(String, Json)> = Vec::new();
        proof {
            assert(ms@ =~= Seq::<(String, Json)>::empty());
        }
        return Some((Json::Obj(ms), p1 + 1));
    }
    proof {
        if t.len() > 0 {
            assert(t[0] == cs@[p1 as int]);
        }
    }
    match parse_members_x(cs, pos, fuel - 1) {
        Some((ms, p2)) => Some((Json::Obj(ms), p2)),
        None => None,
    }
}

/// Reads one or more comma-separated members and the closing brace.
fn parse_members_x(cs: &Vec<char>, pos: usize, fuel: usize) -> (r: Option<
    (Vec<(String, Json)>, usize),
>)
    requires
        pos <= cs@.len(),
    ensures
        match r {
            Some(jp) => pos <= jp.1 <= cs@.len() && sp_members(
                suffix(cs@, pos as int),
                fuel as nat,
            ) == Some((jview_pairs(jp.0@), suffix(cs@, jp.1 as int))),
            None => sp_members(suffix(cs@, pos as int), fuel as nat) is None,
        },
    decreases fuel,
{
    if fuel == 0 {
        return None;
    }
    let p1 = skip_ws_x(cs, pos);
    let ghost t = suffix(cs@, p1 as int);
    if !(p1 < cs.len() && cs[p1] == '"') {
        proof {
            if t.len() > 0 {
                assert(t[0] == cs@[p1 as int]);
            }
        }
        return None;
    }
    proof {
        assert(t[0] == cs@[p1 as int]);
        assert(t.subrange(1, t.len() as int) =~= suffix(cs@, p1 + 1));
    }
    match parse_str_body_x(cs, p1 + 1) {
        None => None,
        Some((kc, pk)) => {
            let key = string_of(&kc);
            let p2 = skip_ws_x(cs, pk);
            let ghost r2 = suffix(cs@, p2 as int);
            if !(p2 < cs.len() && cs[p2] == ':') {
                proof {
                    if r2.len() > 0 {
                        assert(r2[0] == cs@[p2 as int]);
                    }
                }
                return None;
            }
            proof {
                assert(r2[0] == cs@[p2 as int]);
                assert(r2.subrange(1, r2.len() as int) =~= suffix(cs@, p2 + 1));
            }
            match parse_value_x(cs, p2 + 1, fuel - 1) {
                None => None,
                Some((v, p3)) => {
                    let p4 = skip_ws_x(cs, p3);
                    let ghost r4 = suffix(cs@, p4 as int);
                    if p4 < cs.len() && cs[p4] == ',' {
                        proof {
                            assert(r4[0] == cs@[p4 as int]);
                            assert(r4.subrange(1, r4.len() as int) =~= suffix(cs@, p4 + 1));
                        }
                        match parse_members_x(cs, p4 + 1, fuel - 1) {
                            Some((mut ms, p5)) => {
                                let ghost ms0 = ms@;
                                ms.insert(0, (key, v));
                                proof {
                                    assert(ms@ =~= seq![(key, v)] + ms0);
                                    lemma_jview_pairs(ms@);
                                    lemma_jview_pairs(ms0);
                                    assert(jview_pairs(ms@) =~= seq![(key@, jview(v))]
                                        + jview_pairs(ms0));
                                }
                                Some((ms, p5))
                            },
                            None => None,
                        }
                    } else if p4 < cs.len() && cs[p4] == '}' {
                        proof {
                            assert(r4[0] == cs@[p4 as int]);
                            assert(r4.subrange(1, r4.len() as int) =~= suffix(cs@, p4 + 1));
                        }
                        let mut ms: Vec<(String, Json)> = Vec::new();
                        ms.push((key, v));
                        proof {
                            lemma_jview_pairs(ms@);
                            assert(jview_pairs(ms@) =~= seq![(key@, jview(v))]);
                        }
                        Some((ms, p4 + 1))
                    } else {
                        proof {
                            if r4.len() > 0 {
                                assert(r4[0] == cs@[p4 as int]);
                            }
                        }
                        None
                    }
                },
            }
        },
    }
}

/// Parses a whole JSON text: one value, with nothing but whitespace around
/// it, exactly as `sp_json` says.
pub fn parse_json(s: &str) -> (r: Option<Json>)
    ensures
        match r {
            Some(j) => sp_json(s@) == Some(j@),
            None => sp_json(s@) is None,
        },
{
    let cs = chars_of(s);
    if cs.len() > 0x0fff_ffff {
        return None;
    }
    let fuel = 4 * cs.len() + 4;
    proof {
        assert(suffix(cs@, 0) =~= cs@);
    }
    match parse_value_x(&cs, 0, fuel) {
        None => None,
        Some((j, p)) => {
            let p2 = skip_ws_x(&cs, p);
            if p2 == cs.len() {
                Some(j)
            } else {
                proof {
                    assert(suffix(cs@, p2 as int).len() > 0);
                }
                None
            }
        },
    }
}

} // verus!
