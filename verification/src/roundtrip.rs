//! The codec round trip: canonical text reads back as the value it was
//! written from.

use vstd::prelude::*;

use crate::codec::{jv_of_command, lemma_command_json_identity, sp_decode_command};
use crate::json::{
    digit_prefix, esc_char, esc_str, hex16, is_digit, num_exp, num_frac_exp, num_token, render,
    render_items, render_pair, render_pairs, JVal,
};
use crate::numbers::lemma_digit_prefix_bounds;
use crate::parse::{
    is_json_ws, is_num_char, lemma_num_prefix_from, parse_cap, parse_fuel, skip_ws, sp_arr_rest,
    sp_items, sp_json, sp_members, sp_number, sp_obj_rest, sp_str_body, sp_value, esc_code,
    is_hex, hex_val,
};
use crate::protocol::CommandV;

verus! {

broadcast use vstd::seq::group_seq_axioms;

/// A well-formed JSON value: every number holds a valid token.
pub open spec fn jwf(v: JVal) -> bool
    decreases v,
{
    match v {
        JVal::Num(t) => num_token(t),
        JVal::Arr(es) => forall|i: int| 0 <= i < es.len() ==> jwf(#[trigger] es[i]),
        JVal::Obj(ms) => forall|i: int| 0 <= i < ms.len() ==> jwf(#[trigger] ms[i].1),
        _ => true,
    }
}

/// The first character of a rendered value announces its kind; it is never
/// whitespace nor a closing or separating character.
pub proof fn lemma_render_head(v: JVal)
    requires
        jwf(v),
    ensures
        render(v).len() > 0,
        render(v)[0] == 'n' || render(v)[0] == 't' || render(v)[0] == 'f' || render(v)[0]
            == '"' || render(v)[0] == '[' || render(v)[0] == '{' || render(v)[0] == '-'
            || is_digit(render(v)[0]),
        !is_json_ws(render(v)[0]),
        render(v)[0] != ']',
        render(v)[0] != '}',
        render(v)[0] != ',',
        render(v)[0] != ':',
        !(render(v)[0] == 'n' || render(v)[0] == 't' || render(v)[0] == 'f') || render(
            v,
        ).len() >= 4,
{
    match v {
        JVal::Num(t) => {
            let u = if t.len() > 0 && t[0] == '-' {
                t.subrange(1, t.len() as int)
            } else {
                t
            };
            assert(digit_prefix(u) > 0);
            assert(u.len() > 0 && is_digit(u[0]));
            assert(t.len() > 0);
            if t[0] != '-' {
                assert(u == t);
                assert(is_digit(t[0]));
            }
        },
        JVal::Bool(b) => {
            if b {
                assert(render(v).len() == 4);
            } else {
                assert(render(v).len() == 5);
            }
        },
        _ => {},
    }
}

/// The hexadecimal digit of a value below 16 reads back as that value.
pub proof fn lemma_hex16(k: int)
    requires
        0 <= k < 16,
    ensures
        is_hex(hex16(k)),
        hex_val(hex16(k)) == k,
{
}

/// Escaped string content, followed by the closing quote, reads back as the
/// content, leaving the tail.
pub proof fn lemma_esc_rt(content: Seq<char>, tail: Seq<char>)
    ensures
        sp_str_body(esc_str(content) + seq!['"'] + tail) == Some((content, tail)),
    decreases content.len(),
{
    let s = esc_str(content) + seq!['"'] + tail;
    if content.len() == 0 {
        assert(esc_str(content) == Seq::<char>::empty());
        assert(s[0] == '"');
        assert(s.subrange(1, s.len() as int) =~= tail);
        assert(sp_str_body(s) == Some((Seq::<char>::empty(), tail)));
        assert(Seq::<char>::empty() =~= content);
    } else {
        let c = content[0];
        let rest = content.subrange(1, content.len() as int);
        lemma_esc_rt(rest, tail);
        let s2 = esc_str(rest) + seq!['"'] + tail;
        assert(esc_str(content) == esc_char(c) + esc_str(rest));
        assert(seq![c] + rest =~= content);
        if c == '"' || c == '\\' || c == '\n' || c == '\r' || c == '\t' {
            assert(s[0] == '\\');
            let e = esc_char(c)[1];
            assert(s[1] == e);
            assert(esc_code(e) == Some(c));
            assert(s.subrange(2, s.len() as int) =~= s2);
            assert(sp_str_body(s) == Some((seq![c] + rest, tail)));
        } else if (c as u32) < 32 {
            assert(esc_char(c) == seq![
                '\\',
                'u',
                '0',
                '0',
                hex16(c as u32 as int / 16),
                hex16(c as u32 as int % 16),
            ]);
            assert(s[0] == '\\');
            assert(s[1] == 'u');
            assert(s[2] == '0');
            assert(s[3] == '0');
            assert(s[4] == hex16(c as u32 as int / 16));
            assert(s[5] == hex16(c as u32 as int % 16));
            assert(is_hex('0') && hex_val('0') == 0);
            lemma_hex16(c as u32 as int / 16);
            lemma_hex16(c as u32 as int % 16);
            let code = hex_val(s[2]) * 4096 + hex_val(s[3]) * 256 + hex_val(s[4]) * 16
                + hex_val(s[5]);
            assert(code == c as u32);
            assert(!(0xD800 <= code && code < 0xE000));
            assert(s.subrange(6, s.len() as int) =~= s2);
            vstd::utf8::char_u32_cast(c, c as u32);
            assert(((code as u32) as char) == c);
            assert(sp_str_body(s) == Some((seq![c] + rest, tail)));
        } else {
            assert(esc_char(c) == seq![c]);
            assert(s[0] == c);
            assert(s[0] != '"' && s[0] != '\\' && !((s[0] as u32) < 32));
            assert(s.subrange(1, s.len() as int) =~= s2);
            assert(sp_str_body(s) == Some((seq![c] + rest, tail)));
        }
    }
}

/// Every character of a valid exponent part is a number character.
pub proof fn lemma_num_exp_chars(r: Seq<char>)
    requires
        num_exp(r),
    ensures
        forall|i: int| 0 <= i < r.len() ==> is_num_char(#[trigger] r[i]),
{
    if r.len() > 0 {
        let r1 = r.subrange(1, r.len() as int);
        let r2 = if r1.len() > 0 && (r1[0] == '+' || r1[0] == '-') {
            r1.subrange(1, r1.len() as int)
        } else {
            r1
        };
        lemma_digit_prefix_bounds(r2);
        assert forall|i: int| 0 <= i < r.len() implies is_num_char(#[trigger] r[i]) by {
            if i >= 1 {
                assert(r[i] == r1[i - 1]);
                if r1.len() > 0 && (r1[0] == '+' || r1[0] == '-') {
                    if i >= 2 {
                        assert(r1[i - 1] == r2[i - 2]);
                        assert(is_digit(r2[i - 2]));
                    }
                } else {
                    assert(r1[i - 1] == r2[i - 1]);
                    assert(is_digit(r2[i - 1]));
                }
            }
        }
    }
}

/// Every character of a valid fraction-then-exponent part is a number
/// character.
pub proof fn lemma_num_frac_exp_chars(r: Seq<char>)
    requires
        num_frac_exp(r),
    ensures
        forall|i: int| 0 <= i < r.len() ==> is_num_char(#[trigger] r[i]),
{
    if r.len() > 0 && r[0] == '.' {
        let r1 = r.subrange(1, r.len() as int);
        let f = digit_prefix(r1);
        let r2 = r.subrange(1 + f as int, r.len() as int);
        lemma_digit_prefix_bounds(r1);
        lemma_num_exp_chars(r2);
        assert forall|i: int| 0 <= i < r.len() implies is_num_char(#[trigger] r[i]) by {
            if 1 <= i < 1 + f {
                assert(r[i] == r1[i - 1]);
                assert(is_digit(r1[i - 1]));
            } else if i >= 1 + f {
                assert(r[i] == r2[i - 1 - f]);
            }
        }
    } else {
        lemma_num_exp_chars(r);
    }
}

/// Every character of a valid number token is a number character.
pub proof fn lemma_num_token_chars(t: Seq<char>)
    requires
        num_token(t),
    ensures
        t.len() > 0,
        forall|i: int| 0 <= i < t.len() ==> is_num_char(#[trigger] t[i]),
{
    let u = if t.len() > 0 && t[0] == '-' {
        t.subrange(1, t.len() as int)
    } else {
        t
    };
    let d = digit_prefix(u);
    assert(d > 0);
    assert(u.len() > 0);
    assert(t.len() > 0);
    let off: int = if t[0] == '-' {
        1
    } else {
        0
    };
    let r = u.subrange(d as int, u.len() as int);
    lemma_digit_prefix_bounds(u);
    lemma_num_frac_exp_chars(r);
    assert forall|i: int| 0 <= i < t.len() implies is_num_char(#[trigger] t[i]) by {
        if i < off {
            assert(t[i] == '-');
        } else {
            assert(t[i] == u[i - off]);
            if i - off < d {
                assert(is_digit(u[i - off]));
            } else {
                assert(u[i - off] == r[i - off - d]);
            }
        }
    }
}

/// A number token followed by a non-number character reads back as itself.
pub proof fn lemma_num_rt(t: Seq<char>, tail: Seq<char>)
    requires
        num_token(t),
        tail.len() == 0 || !is_num_char(tail[0]),
    ensures
        sp_number(t + tail) == Some((JVal::Num(t), tail)),
{
    lemma_num_token_chars(t);
    let s = t + tail;
    assert(forall|i: int| 0 <= i < t.len() ==> s[i] == t[i]);
    if tail.len() > 0 {
        assert(s[t.len() as int] == tail[0]);
    }
    lemma_num_prefix_from(s, t.len());
    assert(s.subrange(0, t.len() as int) =~= t);
    assert(s.subrange(t.len() as int, s.len() as int) =~= tail);
}

// ---------------------------------------------------------------------------
// Fuel accounting
// ---------------------------------------------------------------------------

/// Parser fuel sufficient to read a rendered value.
pub open spec fn fuel_of(v: JVal) -> nat
    decreases v,
{
    match v {
        JVal::Arr(es) => 2 + fuel_items(es),
        JVal::Obj(ms) => 2 + fuel_members(ms),
        _ => 1,
    }
}

pub open spec fn fuel_items(es: Seq<JVal>) -> nat
    decreases es,
{
    if es.len() == 0 {
        1
    } else {
        1 + fuel_of(es[0]) + fuel_items(es.subrange(1, es.len() as int))
    }
}

pub open spec fn fuel_members(ms: Seq<(Seq<char>, JVal)>) -> nat
    decreases ms,
{
    if ms.len() == 0 {
        1
    } else {
        1 + fuel_of(ms[0].1) + fuel_members(ms.subrange(1, ms.len() as int))
    }
}

// ---------------------------------------------------------------------------
// The round trip itself
// ---------------------------------------------------------------------------

/// A rendered string value reads back as itself.
#[verifier::rlimit(100)]
proof fn lemma_rt_value_str(c: Seq<char>, tail: Seq<char>, f: nat)
    requires
        f >= 1,
    ensures
        sp_value(render(JVal::Str(c)) + tail, f) == Some((JVal::Str(c), tail)),
{
    let v = JVal::Str(c);
    let s = render(v) + tail;
    lemma_render_head(v);
    assert(s[0] == render(v)[0]);
    assert(skip_ws(s) == s);
    assert(s[0] == '"');
    assert(s.subrange(1, s.len() as int) =~= esc_str(c) + seq!['"'] + tail);
    lemma_esc_rt(c, tail);
}

/// A rendered number token reads back as itself.
#[verifier::rlimit(100)]
proof fn lemma_rt_value_num(t: Seq<char>, tail: Seq<char>, f: nat)
    requires
        num_token(t),
        f >= 1,
        tail.len() == 0 || !is_num_char(tail[0]),
    ensures
        sp_value(render(JVal::Num(t)) + tail, f) == Some((JVal::Num(t), tail)),
{
    let v = JVal::Num(t);
    let s = render(v) + tail;
    lemma_render_head(v);
    assert(s[0] == render(v)[0]);
    assert(skip_ws(s) == s);
    assert(s =~= t + tail);
    lemma_num_rt(t, tail);
    assert(s[0] == '-' || is_digit(s[0]));
    assert(s[0] != 'n' && s[0] != 't' && s[0] != 'f' && s[0] != '"' && s[0] != '[' && s[0]
        != '{');
}

/// A rendered value, followed by a tail that cannot extend a number token,
/// reads back as the value, leaving the tail.
#[verifier::rlimit(100)]
pub proof fn lemma_rt_value(v: JVal, tail: Seq<char>, f: nat)
    requires
        jwf(v),
        f >= fuel_of(v),
        tail.len() == 0 || !is_num_char(tail[0]),
    ensures
        sp_value(render(v) + tail, f) == Some((v, tail)),
    decreases v,
{
    let s = render(v) + tail;
    lemma_render_head(v);
    assert(s[0] == render(v)[0]);
    assert(skip_ws(s) == s);
    match v {
        JVal::Null => {
            assert(sp_value(s, f) == Some((v, tail))) by {
                assert(s[0] == 'n' && s[1] == 'u' && s[2] == 'l' && s[3] == 'l');
                assert(s.subrange(4, s.len() as int) =~= tail);
            }
        },
        JVal::Bool(b) => {
            assert(sp_value(s, f) == Some((v, tail))) by {
                if b {
                    assert(s[0] == 't' && s[1] == 'r' && s[2] == 'u' && s[3] == 'e');
                    assert(s.subrange(4, s.len() as int) =~= tail);
                } else {
                    assert(s[0] == 'f' && s[1] == 'a' && s[2] == 'l' && s[3] == 's' && s[4]
                        == 'e');
                    assert(s.subrange(5, s.len() as int) =~= tail);
                }
            }
        },
        JVal::Num(t) => {
            lemma_rt_value_num(t, tail, f);
        },
        JVal::Str(c) => {
            lemma_rt_value_str(c, tail, f);
        },
        JVal::Arr(es) => {
            let inner = s.subrange(1, s.len() as int);
            assert(sp_value(s, f) == Some((v, tail))) by {
            assert(s[0] == '[');
            assert(inner =~= render_items(es) + seq![']'] + tail);
            if es.len() == 0 {
                assert(render_items(es) == Seq::<char>::empty());
                assert(inner =~= seq![']'] + tail);
                assert(inner[0] == ']');
                assert(skip_ws(inner) == inner);
                assert(inner.subrange(1, inner.len() as int) =~= tail);
                assert(es =~= Seq::<JVal>::empty());
                assert(sp_arr_rest(inner, (f - 1) as nat) == Some((JVal::Arr(Seq::empty()), tail)));
            } else {
                assert(jwf(es[0]));
                lemma_render_head(es[0]);
                if es.len() == 1 {
                    assert(render_items(es) == render(es[0]));
                } else {
                    assert(render_items(es) == render(es[0]) + seq![','] + render_items(
                        es.subrange(1, es.len() as int),
                    ));
                }
                assert(inner[0] == render(es[0])[0]);
                assert(skip_ws(inner) == inner);
                assert(inner[0] != ']');
                lemma_rt_items(es, tail, (f - 2) as nat);
                assert(sp_items(inner, (f - 2) as nat) == Some((es, tail)));
                assert(sp_arr_rest(inner, (f - 1) as nat) == Some((JVal::Arr(es), tail)));
            }
            assert(skip_ws(s).subrange(1, skip_ws(s).len() as int) == inner);
            assert(sp_value(s, f) == sp_arr_rest(inner, (f - 1) as nat));
            }
        },
        JVal::Obj(ms) => {
            let inner = s.subrange(1, s.len() as int);
            assert(sp_value(s, f) == Some((v, tail))) by {
            assert(s[0] == '{');
            assert(inner =~= render_pairs(ms) + seq!['}'] + tail);
            if ms.len() == 0 {
                assert(render_pairs(ms) == Seq::<char>::empty());
                assert(inner =~= seq!['}'] + tail);
                assert(inner[0] == '}');
                assert(skip_ws(inner) == inner);
                assert(inner.subrange(1, inner.len() as int) =~= tail);
                assert(ms =~= Seq::<(Seq<char>, JVal)>::empty());
                assert(sp_obj_rest(inner, (f - 1) as nat) == Some(
                    (JVal::Obj(Seq::empty()), tail),
                ));
            } else {
                if ms.len() == 1 {
                    assert(render_pairs(ms) == render_pair(ms[0]));
                } else {
                    assert(render_pairs(ms) == render_pair(ms[0]) + seq![','] + render_pairs(
                        ms.subrange(1, ms.len() as int),
                    ));
                }
                assert(inner[0] == render_pair(ms[0])[0]);
                assert(render_pair(ms[0])[0] == '"');
                assert(skip_ws(inner) == inner);
                assert(inner[0] != '}');
                lemma_rt_members(ms, tail, (f - 2) as nat);
                assert(sp_members(inner, (f - 2) as nat) == Some((ms, tail)));
                assert(sp_obj_rest(inner, (f - 1) as nat) == Some((JVal::Obj(ms), tail)));
            }
            assert(skip_ws(s).subrange(1, skip_ws(s).len() as int) == inner);
            assert(sp_value(s, f) == sp_obj_rest(inner, (f - 1) as nat));
            }
        },
    }
}

/// Rendered items, a closing bracket and a tail read back as the items.
#[verifier::rlimit(100)]
pub proof fn lemma_rt_items(es: Seq<JVal>, tail: Seq<char>, f: nat)
    requires
        es.len() >= 1,
        forall|i: int| 0 <= i < es.len() ==> jwf(#[trigger] es[i]),
        f >= fuel_items(es),
    ensures
        sp_items(render_items(es) + seq![']'] + tail, f) == Some((es, tail)),
    decreases es,
{
    let e0 = es[0];
    let rest = es.subrange(1, es.len() as int);
    let s = render_items(es) + seq![']'] + tail;
    if es.len() == 1 {
        assert(render_items(es) == render(e0));
        let tail1 = seq![']'] + tail;
        assert(s =~= render(e0) + tail1);
        lemma_rt_value(e0, tail1, (f - 1) as nat);
        assert(sp_value(s, (f - 1) as nat) == Some((e0, tail1)));
        assert(skip_ws(tail1) == tail1);
        assert(tail1[0] == ']');
        assert(tail1.subrange(1, tail1.len() as int) =~= tail);
        assert(seq![e0] =~= es);
    } else {
        assert(render_items(es) == render(e0) + seq![','] + render_items(rest));
        let tail1 = seq![','] + render_items(rest) + seq![']'] + tail;
        assert(s =~= render(e0) + tail1);
        lemma_rt_value(e0, tail1, (f - 1) as nat);
        assert(sp_value(s, (f - 1) as nat) == Some((e0, tail1)));
        assert(skip_ws(tail1) == tail1);
        assert(tail1[0] == ',');
        let s2 = tail1.subrange(1, tail1.len() as int);
        assert(s2 =~= render_items(rest) + seq![']'] + tail);
        assert(forall|i: int| 0 <= i < rest.len() ==> jwf(#[trigger] rest[i]));
        lemma_rt_items(rest, tail, (f - 1) as nat);
        assert(sp_items(s2, (f - 1) as nat) == Some((rest, tail)));
        assert(seq![e0] + rest =~= es);
    }
}

/// Rendered members, a closing brace and a tail read back as the members.
#[verifier::rlimit(100)]
pub proof fn lemma_rt_members(ms: Seq<(Seq<char>, JVal)>, tail: Seq<char>, f: nat)
    requires
        ms.len() >= 1,
        forall|i: int| 0 <= i < ms.len() ==> jwf(#[trigger] ms[i].1),
        f >= fuel_members(ms),
    ensures
        sp_members(render_pairs(ms) + seq!['}'] + tail, f) == Some((ms, tail)),
    decreases ms,
{
    let m0 = ms[0];
    let rest = ms.subrange(1, ms.len() as int);
    let s = render_pairs(ms) + seq!['}'] + tail;
    let septail: Seq<char> = if ms.len() == 1 {
        seq!['}'] + tail
    } else {
        seq![','] + render_pairs(rest) + seq!['}'] + tail
    };
    if ms.len() == 1 {
        assert(render_pairs(ms) == render_pair(m0));
    } else {
        assert(render_pairs(ms) == render_pair(m0) + seq![','] + render_pairs(rest));
    }
    assert(s =~= render_pair(m0) + septail);
    assert(s[0] == '"');
    assert(skip_ws(s) == s);
    let tailk = seq![':'] + render(m0.1) + septail;
    assert(s.subrange(1, s.len() as int) =~= esc_str(m0.0) + seq!['"'] + tailk);
    lemma_esc_rt(m0.0, tailk);
    assert(sp_str_body(s.subrange(1, s.len() as int)) == Some((m0.0, tailk)));
    assert(skip_ws(tailk) == tailk);
    assert(tailk[0] == ':');
    let after_colon = tailk.subrange(1, tailk.len() as int);
    assert(after_colon =~= render(m0.1) + septail);
    assert(jwf(m0.1));
    assert(septail[0] == '}' || septail[0] == ',');
    lemma_rt_value(m0.1, septail, (f - 1) as nat);
    assert(sp_value(after_colon, (f - 1) as nat) == Some((m0.1, septail)));
    assert(skip_ws(septail) == septail);
    if ms.len() == 1 {
        assert(septail[0] == '}');
        assert(septail.subrange(1, septail.len() as int) =~= tail);
        assert(seq![(m0.0, m0.1)] =~= ms);
        assert(seq![(m0.0, m0.1)] == seq![m0]);
    } else {
        assert(septail[0] == ',');
        let s2 = septail.subrange(1, septail.len() as int);
        assert(s2 =~= render_pairs(rest) + seq!['}'] + tail);
        assert(forall|i: int| 0 <= i < rest.len() ==> jwf(#[trigger] rest[i].1));
        lemma_rt_members(rest, tail, (f - 1) as nat);
        assert(sp_members(s2, (f - 1) as nat) == Some((rest, tail)));
        assert(seq![(m0.0, m0.1)] + rest =~= ms);
    }
}

/// The parser's fuel for a rendered value is always enough.
pub proof fn lemma_fuel_bound(v: JVal)
    requires
        jwf(v),
    ensures
        fuel_of(v) <= 4 * render(v).len(),
    decreases v,
{
    lemma_render_head(v);
    match v {
        JVal::Arr(es) => {
            lemma_fuel_bound_items(es);
            assert(render(v).len() == render_items(es).len() + 2);
        },
        JVal::Obj(ms) => {
            lemma_fuel_bound_members(ms);
            assert(render(v).len() == render_pairs(ms).len() + 2);
        },
        _ => {},
    }
}

pub proof fn lemma_fuel_bound_items(es: Seq<JVal>)
    requires
        forall|i: int| 0 <= i < es.len() ==> jwf(#[trigger] es[i]),
    ensures
        fuel_items(es) <= 4 * render_items(es).len() + 3,
    decreases es,
{
    if es.len() > 0 {
        let rest = es.subrange(1, es.len() as int);
        lemma_fuel_bound(es[0]);
        lemma_fuel_bound_items(rest);
        lemma_render_head(es[0]);
        if es.len() == 1 {
            assert(render_items(es) == render(es[0]));
        } else {
            assert(render_items(es) == render(es[0]) + seq![','] + render_items(rest));
        }
    }
}

pub proof fn lemma_fuel_bound_members(ms: Seq<(Seq<char>, JVal)>)
    requires
        forall|i: int| 0 <= i < ms.len() ==> jwf(#[trigger] ms[i].1),
    ensures
        fuel_members(ms) <= 4 * render_pairs(ms).len() + 3,
    decreases ms,
{
    if ms.len() > 0 {
        let rest = ms.subrange(1, ms.len() as int);
        lemma_fuel_bound(ms[0].1);
        lemma_fuel_bound_members(rest);
        lemma_render_head(ms[0].1);
        assert(render_pair(ms[0]).len() >= 3 + render(ms[0].1).len());
        if ms.len() == 1 {
            assert(render_pairs(ms) == render_pair(ms[0]));
        } else {
            assert(render_pairs(ms) == render_pair(ms[0]) + seq![','] + render_pairs(rest));
        }
    }
}

/// Round-trip law at the JSON layer: the canonical text of a well-formed
/// value, when it fits the parser's input cap, parses back to the value.
pub proof fn lemma_json_round_trip(v: JVal)
    requires
        jwf(v),
        render(v).len() <= parse_cap(),
    ensures
        sp_json(render(v)) == Some(v),
{
    lemma_fuel_bound(v);
    let f = parse_fuel(render(v).len());
    assert(f >= fuel_of(v));
    lemma_rt_value(v, Seq::empty(), f);
    assert(render(v) + Seq::<char>::empty() =~= render(v));
    assert(skip_ws(Seq::<char>::empty()).len() == 0);
}

// ---------------------------------------------------------------------------
// Round trip of commands
// ---------------------------------------------------------------------------

/// A command whose parameters are well-formed JSON.
pub open spec fn cmd_wf(c: CommandV) -> bool {
    match c {
        CommandV::ExecuteTool { params, .. } => jwf(params),
        _ => true,
    }
}

/// The JSON form of a command is well-formed.
pub proof fn lemma_jwf_command(c: CommandV)
    requires
        cmd_wf(c),
    ensures
        jwf(jv_of_command(c)),
{
    let v = jv_of_command(c);
    let ms = v->Obj_0;
    let pl = ms[1].1->Obj_0;
    assert forall|i: int| 0 <= i < pl.len() implies jwf(#[trigger] pl[i].1) by {
        match c {
            CommandV::ExecuteTool { tool_id, params, correlation_id } => {
                if i == 1 {
                    assert(pl[1].1 == params);
                }
            },
            _ => {},
        }
    }
    assert forall|i: int| 0 <= i < ms.len() implies jwf(#[trigger] ms[i].1) by {
        if i == 0 {
            assert(ms[0].1 is Str);
        } else {
            assert(ms[1].1 == JVal::Obj(pl));
        }
    }
}

/// Round-trip law: writing a command as wire text and reading it back
/// reproduces an equal command, a present or absent correlation id
/// included. The parameters must be well-formed JSON values and the text
/// must fit the parser's input cap.
pub proof fn lemma_command_round_trip(c: CommandV)
    requires
        cmd_wf(c),
        render(jv_of_command(c)).len() <= parse_cap(),
    ensures
        sp_decode_command(render(jv_of_command(c))) == Some(c),
{
    lemma_jwf_command(c);
    lemma_json_round_trip(jv_of_command(c));
    lemma_command_json_identity(c);
}

} // verus!
