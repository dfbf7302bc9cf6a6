//! The library's model of JSON data.
//!
//! Commands, responses and tool payloads travel as JSON text, and the
//! normalization engine reads JSON trees. `Json` is the executable tree and
//! `JVal` its mathematical view. A number keeps its decimal source text: the
//! engine only ever needs that text, its integer reading, and whether it is a
//! valid numeric literal, so no floating-point value is stored.

use vstd::prelude::*;

use crate::text::{chars_of, string_of};

verus! {

broadcast use vstd::std_specs::vec::group_vec_axioms, vstd::seq::group_seq_axioms;

/// Mathematical view of a JSON value: strings as character sequences.
#[verifier::ext_equal]
pub enum JVal {
    Null,
    Bool(bool),
    Num(Seq<char>),
    Str(Seq<char>),
    Arr(Seq<JVal>),
    Obj(Seq<(Seq<char>, JVal)>),
}

/// Executable JSON value.
#[derive(Debug, PartialEq)]
pub enum Json {
    Null,
    Bool(bool),
    Num(String),
    Str(String),
    Arr(Vec<Json>),
    Obj(Vec<(String, Json)>),
}

pub open spec fn jview(v: Json) -> JVal
    decreases v,
{
    match v {
        Json::Null => JVal::Null,
        Json::Bool(b) => JVal::Bool(b),
        Json::Num(t) => JVal::Num(t@),
        Json::Str(s) => JVal::Str(s@),
        Json::Arr(es) => JVal::Arr(jview_seq(es@)),
        Json::Obj(ms) => JVal::Obj(jview_pairs(ms@)),
    }
}

pub open spec fn jview_seq(es: Seq<Json>) -> Seq<JVal>
    decreases es,
{
    if es.len() == 0 {
        Seq::empty()
    } else {
        seq![jview(es[0])] + jview_seq(es.subrange(1, es.len() as int))
    }
}

pub open spec fn jview_pairs(ms: Seq<(String, Json)>) -> Seq<(Seq<char>, JVal)>
    decreases ms,
{
    if ms.len() == 0 {
        Seq::empty()
    } else {
        seq![(ms[0].0@, jview(ms[0].1))] + jview_pairs(ms.subrange(1, ms.len() as int))
    }
}

impl View for Json {
    type V = JVal;

    open spec fn view(&self) -> JVal {
        jview(*self)
    }
}

pub proof fn lemma_jview_seq(es: Seq<Json>)
    ensures
        jview_seq(es).len() == es.len(),
        forall|i: int| 0 <= i < es.len() ==> jview_seq(es)[i] == jview(es[i]),
    decreases es.len(),
{
    if es.len() > 0 {
        lemma_jview_seq(es.subrange(1, es.len() as int));
    }
}

pub proof fn lemma_jview_pairs(ms: Seq<(String, Json)>)
    ensures
        jview_pairs(ms).len() == ms.len(),
        forall|i: int|
            0 <= i < ms.len() ==> jview_pairs(ms)[i] == (ms[i].0@, jview(ms[i].1)),
    decreases ms.len(),
{
    if ms.len() > 0 {
        lemma_jview_pairs(ms.subrange(1, ms.len() as int));
    }
}

/// Appending one element on the right extends the view on the right.
pub proof fn lemma_jview_seq_push(es: Seq<Json>, e: Json)
    ensures
        jview_seq(es.push(e)) == jview_seq(es).push(jview(e)),
{
    lemma_jview_seq(es.push(e));
    lemma_jview_seq(es);
    assert(jview_seq(es.push(e)) =~= jview_seq(es).push(jview(e)));
}

pub proof fn lemma_jview_pairs_push(ms: Seq<(String, Json)>, m: (String, Json))
    ensures
        jview_pairs(ms.push(m)) == jview_pairs(ms).push((m.0@, jview(m.1))),
{
    lemma_jview_pairs(ms.push(m));
    lemma_jview_pairs(ms);
    assert(jview_pairs(ms.push(m)) =~= jview_pairs(ms).push((m.0@, jview(m.1))));
}

// ---------------------------------------------------------------------------
// Object member lookup
// ---------------------------------------------------------------------------

/// The value under `key` among the members `ms`; when a key repeats, the
/// last occurrence wins, as it does in a map built by repeated insertion.
pub open spec fn obj_lookup(ms: Seq<(Seq<char>, JVal)>, key: Seq<char>) -> Option<JVal>
    decreases ms.len(),
{
    if ms.len() == 0 {
        None
    } else if ms[ms.len() - 1].0 == key {
        Some(ms[ms.len() - 1].1)
    } else {
        obj_lookup(ms.subrange(0, ms.len() - 1), key)
    }
}

/// Looks `key` up among the members of a JSON object.
#[verifier::loop_isolation(false)]
pub fn obj_get<'a>(ms: &'a Vec<(String, Json)>, key: &str) -> (r: Option<&'a Json>)
    ensures
        match r {
            Some(j) => obj_lookup(jview_pairs(ms@), key@) == Some(j@),
            None => obj_lookup(jview_pairs(ms@), key@) is None,
        },
{
    proof {
        lemma_jview_pairs(ms@);
    }
    let ghost pv = jview_pairs(ms@);
    let mut i: usize = ms.len();
    proof {
        assert(pv.subrange(0, i as int) =~= pv);
    }
    while i > 0
        invariant
            i <= ms@.len(),
            obj_lookup(pv, key@) == obj_lookup(pv.subrange(0, i as int), key@),
        decreases i,
    {
        i = i - 1;
        if crate::text::str_eq(ms[i].0.as_str(), key) {
            proof {
                assert(pv.subrange(0, i + 1)[i as int] == pv[i as int]);
            }
            return Some(&ms[i].1);
        }
        proof {
            assert(pv.subrange(0, i + 1).subrange(0, i as int) =~= pv.subrange(0, i as int));
            assert(pv.subrange(0, i + 1)[i as int] == pv[i as int]);
        }
    }
    proof {
        assert(pv.subrange(0, 0).len() == 0);
    }
    None
}

// ---------------------------------------------------------------------------
// Digits and numeric tokens
// ---------------------------------------------------------------------------

pub open spec fn is_digit(c: char) -> bool {
    48 <= c as u32 && c as u32 <= 57
}

pub open spec fn digit_val(c: char) -> int {
    c as u32 - 48
}

/// Length of the run of decimal digits at the front of `s`.
pub open spec fn digit_prefix(s: Seq<char>) -> nat
    decreases s.len(),
{
    if s.len() > 0 && is_digit(s[0]) {
        (1 + digit_prefix(s.subrange(1, s.len() as int))) as nat
    } else {
        0
    }
}

/// Value of a sequence made only of decimal digits.
pub open spec fn digits_val(s: Seq<char>) -> int
    decreases s.len(),
{
    if s.len() == 0 {
        0
    } else {
        digits_val(s.subrange(0, s.len() - 1)) * 10 + digit_val(s[s.len() - 1])
    }
}

/// Exponent part of a JSON number: empty, or `e`/`E`, an optional sign, and
/// at least one digit, reaching the end of the sequence.
pub open spec fn num_exp(r: Seq<char>) -> bool {
    if r.len() == 0 {
        true
    } else if r[0] == 'e' || r[0] == 'E' {
        let r1 = r.subrange(1, r.len() as int);
        let r2 = if r1.len() > 0 && (r1[0] == '+' || r1[0] == '-') {
            r1.subrange(1, r1.len() as int)
        } else {
            r1
        };
        r2.len() > 0 && digit_prefix(r2) == r2.len()
    } else {
        false
    }
}

/// Fraction-then-exponent part of a JSON number.
pub open spec fn num_frac_exp(r: Seq<char>) -> bool {
    if r.len() > 0 && r[0] == '.' {
        let f = digit_prefix(r.subrange(1, r.len() as int));
        f > 0 && num_exp(r.subrange(1 + f as int, r.len() as int))
    } else {
        num_exp(r)
    }
}

/// `t` is exactly one JSON number token: an optional minus sign, an integer
/// part without a superfluous leading zero, then an optional fraction and
/// exponent.
pub open spec fn num_token(t: Seq<char>) -> bool {
    let u = if t.len() > 0 && t[0] == '-' {
        t.subrange(1, t.len() as int)
    } else {
        t
    };
    let d = digit_prefix(u);
    &&& d > 0
    &&& (u[0] == '0' ==> d == 1)
    &&& num_frac_exp(u.subrange(d as int, u.len() as int))
}

/// `t` is a number token with neither fraction nor exponent.
pub open spec fn plain_int_token(t: Seq<char>) -> bool {
    let u = if t.len() > 0 && t[0] == '-' {
        t.subrange(1, t.len() as int)
    } else {
        t
    };
    &&& t.len() > 0
    &&& u.len() > 0
    &&& digit_prefix(u) == u.len()
    &&& (u[0] == '0' ==> u.len() == 1)
}

/// The signed 64-bit reading of a JSON number token, mirroring how the wire
/// format's numbers answer an integer query: fractional or exponential
/// notation has none, `-0` has none, and out-of-range magnitudes have none.
pub open spec fn num_i64(t: Seq<char>) -> Option<i64> {
    if plain_int_token(t) {
        if t[0] == '-' {
            let v = digits_val(t.subrange(1, t.len() as int));
            if 1 <= v && v <= 0x8000_0000_0000_0000 {
                Some((-v) as i64)
            } else {
                None
            }
        } else {
            let v = digits_val(t);
            if v <= 0x7fff_ffff_ffff_ffff {
                Some(v as i64)
            } else {
                None
            }
        }
    } else {
        None
    }
}

/// The characters of a number token before its exponent marker.
pub open spec fn mantissa_len(s: Seq<char>) -> nat
    decreases s.len(),
{
    if s.len() > 0 && !(s[0] == 'e' || s[0] == 'E') {
        (1 + mantissa_len(s.subrange(1, s.len() as int))) as nat
    } else {
        0
    }
}

/// A number token denotes zero exactly when every digit of its mantissa is
/// zero; the sign and the exponent cannot make such a value nonzero.
pub open spec fn num_is_zero(t: Seq<char>) -> bool {
    forall|i: int| 0 <= i < mantissa_len(t) ==> !(is_digit(#[trigger] t[i]) && t[i] != '0')
}

/// The reading of free text as a signed 64-bit integer: an optional `+` or
/// `-` sign, then only digits, within range. Leading zeros are allowed.
pub open spec fn str_i64(s: Seq<char>) -> Option<i64> {
    let neg = s.len() > 0 && s[0] == '-';
    let u = if s.len() > 0 && (s[0] == '-' || s[0] == '+') {
        s.subrange(1, s.len() as int)
    } else {
        s
    };
    if u.len() > 0 && digit_prefix(u) == u.len() {
        let v = digits_val(u);
        if neg {
            if v <= 0x8000_0000_0000_0000 {
                Some((-v) as i64)
            } else {
                None
            }
        } else {
            if v <= 0x7fff_ffff_ffff_ffff {
                Some(v as i64)
            } else {
                None
            }
        }
    } else {
        None
    }
}

/// ASCII-case-insensitive match of one character against a pattern
/// character; only lower-case letters in the pattern fold case.
pub open spec fn ci_char(c: char, lo: char) -> bool {
    c == lo || (97 <= lo as u32 && lo as u32 <= 122 && c as u32 + 32 == lo as u32)
}

pub open spec fn ci_match(s: Seq<char>, pat: Seq<char>) -> bool {
    s.len() == pat.len() && forall|i: int| 0 <= i < s.len() ==> ci_char(s[i], #[trigger] pat[i])
}

/// Exponent of a floating-point literal: empty, or `e`/`E`, an optional
/// sign, and at least one digit.
pub open spec fn f64_exp(r: Seq<char>) -> bool {
    if r.len() == 0 {
        true
    } else if r[0] == 'e' || r[0] == 'E' {
        let r1 = r.subrange(1, r.len() as int);
        let r2 = if r1.len() > 0 && (r1[0] == '+' || r1[0] == '-') {
            r1.subrange(1, r1.len() as int)
        } else {
            r1
        };
        r2.len() > 0 && digit_prefix(r2) == r2.len()
    } else {
        false
    }
}

/// Unsigned part of a floating-point literal: digits with an optional `.`
/// and more digits, or a leading `.` with digits, then an exponent.
pub open spec fn f64_number(u: Seq<char>) -> bool {
    let d = digit_prefix(u);
    if d > 0 {
        let r = u.subrange(d as int, u.len() as int);
        if r.len() > 0 && r[0] == '.' {
            let f = digit_prefix(r.subrange(1, r.len() as int));
            f64_exp(r.subrange(1 + f as int, r.len() as int))
        } else {
            f64_exp(r)
        }
    } else {
        u.len() > 0 && u[0] == '.' && {
            let f = digit_prefix(u.subrange(1, u.len() as int));
            f > 0 && f64_exp(u.subrange(1 + f as int, u.len() as int))
        }
    }
}

/// `s` reads as a floating-point value: an optional sign, then `inf`,
/// `infinity` or `nan` (ASCII-case-insensitively) or a decimal literal.
pub open spec fn f64_text(s: Seq<char>) -> bool {
    let u = if s.len() > 0 && (s[0] == '+' || s[0] == '-') {
        s.subrange(1, s.len() as int)
    } else {
        s
    };
    ||| ci_match(u, seq!['i', 'n', 'f'])
    ||| ci_match(u, seq!['i', 'n', 'f', 'i', 'n', 'i', 't', 'y'])
    ||| ci_match(u, seq!['n', 'a', 'n'])
    ||| f64_number(u)
}

// ---------------------------------------------------------------------------
// Canonical rendering of JSON values as text
// ---------------------------------------------------------------------------

/// The lower-case hexadecimal digit of a value below 16.
pub open spec fn hex16(n: int) -> char {
    if n == 0 {
        '0'
    } else if n == 1 {
        '1'
    } else if n == 2 {
        '2'
    } else if n == 3 {
        '3'
    } else if n == 4 {
        '4'
    } else if n == 5 {
        '5'
    } else if n == 6 {
        '6'
    } else if n == 7 {
        '7'
    } else if n == 8 {
        '8'
    } else if n == 9 {
        '9'
    } else if n == 10 {
        'a'
    } else if n == 11 {
        'b'
    } else if n == 12 {
        'c'
    } else if n == 13 {
        'd'
    } else if n == 14 {
        'e'
    } else {
        'f'
    }
}

/// How one character of string content is written: quotes, backslashes and
/// the common control characters get a short escape, other control
/// characters a `\u00..` escape, and everything else stands as itself.
pub open spec fn esc_char(c: char) -> Seq<char> {
    if c == '"' {
        seq!['\\', '"']
    } else if c == '\\' {
        seq!['\\', '\\']
    } else if c == '\n' {
        seq!['\\', 'n']
    } else if c == '\r' {
        seq!['\\', 'r']
    } else if c == '\t' {
        seq!['\\', 't']
    } else if (c as u32) < 32 {
        seq!['\\', 'u', '0', '0', hex16(c as u32 as int / 16), hex16(c as u32 as int % 16)]
    } else {
        seq![c]
    }
}

pub open spec fn esc_str(s: Seq<char>) -> Seq<char>
    decreases s.len(),
{
    if s.len() == 0 {
        Seq::empty()
    } else {
        esc_char(s[0]) + esc_str(s.subrange(1, s.len() as int))
    }
}

/// The canonical text of a JSON value: compact, with object members and
/// array items separated by single commas.
pub open spec fn render(v: JVal) -> Seq<char>
    decreases v,
{
    match v {
        JVal::Null => seq!['n', 'u', 'l', 'l'],
        JVal::Bool(b) => if b {
            seq!['t', 'r', 'u', 'e']
        } else {
            seq!['f', 'a', 'l', 's', 'e']
        },
        JVal::Num(t) => t,
        JVal::Str(s) => seq!['"'] + esc_str(s) + seq!['"'],
        JVal::Arr(es) => seq!['['] + render_items(es) + seq![']'],
        JVal::Obj(ms) => seq!['{'] + render_pairs(ms) + seq!['}'],
    }
}

pub open spec fn render_items(es: Seq<JVal>) -> Seq<char>
    decreases es,
{
    if es.len() == 0 {
        Seq::empty()
    } else if es.len() == 1 {
        render(es[0])
    } else {
        render(es[0]) + seq![','] + render_items(es.subrange(1, es.len() as int))
    }
}

pub open spec fn render_pair(m: (Seq<char>, JVal)) -> Seq<char>
    decreases m,
{
    seq!['"'] + esc_str(m.0) + seq!['"', ':'] + render(m.1)
}

pub open spec fn render_pairs(ms: Seq<(Seq<char>, JVal)>) -> Seq<char>
    decreases ms,
{
    if ms.len() == 0 {
        Seq::empty()
    } else if ms.len() == 1 {
        render_pair(ms[0])
    } else {
        render_pair(ms[0]) + seq![','] + render_pairs(ms.subrange(1, ms.len() as int))
    }
}

pub proof fn lemma_esc_str_push(s: Seq<char>, c: char)
    ensures
        esc_str(s.push(c)) == esc_str(s) + esc_char(c),
    decreases s.len(),
{
    if s.len() == 0 {
        assert(s.push(c).subrange(1, 1) =~= Seq::<char>::empty());
        assert(esc_str(s.push(c).subrange(1, 1)) =~= Seq::<char>::empty());
        assert(esc_str(s.push(c)) =~= esc_str(s) + esc_char(c));
    } else {
        assert(s.push(c).subrange(1, s.len() as int + 1) =~= s.subrange(
            1,
            s.len() as int,
        ).push(c));
        lemma_esc_str_push(s.subrange(1, s.len() as int), c);
        assert(esc_str(s.push(c)) =~= esc_str(s) + esc_char(c));
    }
}

pub proof fn lemma_render_items_push(es: Seq<JVal>, e: JVal)
    ensures
        render_items(es.push(e)) == if es.len() == 0 {
            render(e)
        } else {
            render_items(es) + seq![','] + render(e)
        },
    decreases es.len(),
{
    if es.len() == 0 {
        assert(es.push(e) =~= seq![e]);
        assert(render_items(seq![e]) == render(seq![e][0]));
    } else {
        assert(es.push(e).subrange(1, es.len() as int + 1) =~= es.subrange(
            1,
            es.len() as int,
        ).push(e));
        lemma_render_items_push(es.subrange(1, es.len() as int), e);
        if es.len() == 1 {
            assert(render_items(es.push(e)) =~= render_items(es) + seq![','] + render(e));
        } else {
            assert(render_items(es.push(e)) =~= render_items(es) + seq![','] + render(e));
        }
    }
}

pub proof fn lemma_render_pairs_push(ms: Seq<(Seq<char>, JVal)>, m: (Seq<char>, JVal))
    ensures
        render_pairs(ms.push(m)) == if ms.len() == 0 {
            render_pair(m)
        } else {
            render_pairs(ms) + seq![','] + render_pair(m)
        },
    decreases ms.len(),
{
    if ms.len() == 0 {
        assert(ms.push(m) =~= seq![m]);
        assert(render_pairs(seq![m]) == render_pair(seq![m][0]));
    } else {
        assert(ms.push(m).subrange(1, ms.len() as int + 1) =~= ms.subrange(
            1,
            ms.len() as int,
        ).push(m));
        lemma_render_pairs_push(ms.subrange(1, ms.len() as int), m);
        if ms.len() == 1 {
            assert(render_pairs(ms.push(m)) =~= render_pairs(ms) + seq![','] + render_pair(m));
        } else {
            assert(render_pairs(ms.push(m)) =~= render_pairs(ms) + seq![','] + render_pair(m));
        }
    }
}

// ---------------------------------------------------------------------------
// Executable rendering
// ---------------------------------------------------------------------------

/// Appends every character of `s` to `out`.
pub fn push_str_chars(out: &mut Vec<char>, s: &str)
    ensures
        final(out)@ == old(out)@ + s@,
{
    let cs = chars_of(s);
    let ghost base = out@;
    let mut i: usize = 0;
    while i < cs.len()
        invariant
            i <= cs.len(),
            cs@ == s@,
            out@ == base + cs@.subrange(0, i as int),
        decreases cs.len() - i,
    {
        out.push(cs[i]);
        proof {
            assert(cs@.subrange(0, i + 1 as int) =~= cs@.subrange(0, i as int).push(cs@[i as int]));
        }
        i = i + 1;
    }
    proof {
        assert(cs@.subrange(0, cs@.len() as int) =~= cs@);
    }
}

/// The lower-case hexadecimal digit of `n & 0xf`.
fn hex16_digit(n: u32) -> (r: char)
    requires
        n < 16,
    ensures
        r == hex16(n as int),
{
    if n == 0 {
        '0'
    } else if n == 1 {
        '1'
    } else if n == 2 {
        '2'
    } else if n == 3 {
        '3'
    } else if n == 4 {
        '4'
    } else if n == 5 {
        '5'
    } else if n == 6 {
        '6'
    } else if n == 7 {
        '7'
    } else if n == 8 {
        '8'
    } else if n == 9 {
        '9'
    } else if n == 10 {
        'a'
    } else if n == 11 {
        'b'
    } else if n == 12 {
        'c'
    } else if n == 13 {
        'd'
    } else if n == 14 {
        'e'
    } else {
        'f'
    }
}

/// Appends the escaped form of string content `s`, without the quotes.
fn push_escaped(out: &mut Vec<char>, s: &str)
    ensures
        final(out)@ == old(out)@ + esc_str(s@),
{
    let cs = chars_of(s);
    let ghost base = out@;
    let mut i: usize = 0;
    while i < cs.len()
        invariant
            i <= cs.len(),
            cs@ == s@,
            out@ == base + esc_str(cs@.subrange(0, i as int)),
        decreases cs.len() - i,
    {
        let c = cs[i];
        if c == '"' {
            out.push('\\');
            out.push('"');
        } else if c == '\\' {
            out.push('\\');
            out.push('\\');
        } else if c == '\n' {
            out.push('\\');
            out.push('n');
        } else if c == '\r' {
            out.push('\\');
            out.push('r');
        } else if c == '\t' {
            out.push('\\');
            out.push('t');
        } else if (c as u32) < 32 {
            out.push('\\');
            out.push('u');
            out.push('0');
            out.push('0');
            out.push(hex16_digit(c as u32 / 16));
            out.push(hex16_digit(c as u32 % 16));
        } else {
            out.push(c);
        }
        proof {
            assert(cs@.subrange(0, i + 1 as int) =~= cs@.subrange(0, i as int).push(cs@[i as int]));
            lemma_esc_str_push(cs@.subrange(0, i as int), cs@[i as int]);
        }
        i = i + 1;
    }
    proof {
        assert(cs@.subrange(0, cs@.len() as int) =~= cs@);
    }
}

/// Appends the canonical text of `v` to `out`.
#[verifier::loop_isolation(false)]
pub fn render_json(v: &Json, out: &mut Vec<char>)
    ensures
        final(out)@ == old(out)@ + render(v@),
    decreases *v,
{
    match v {
        Json::Null => {
            push_str_chars(out, "null");
            proof {
                reveal_strlit("null");
                assert("null"@ =~= seq!['n', 'u', 'l', 'l']);
            }
        },
        Json::Bool(b) => {
            if *b {
                push_str_chars(out, "true");
                proof {
                    reveal_strlit("true");
                    assert("true"@ =~= seq!['t', 'r', 'u', 'e']);
                }
            } else {
                push_str_chars(out, "false");
                proof {
                    reveal_strlit("false");
                    assert("false"@ =~= seq!['f', 'a', 'l', 's', 'e']);
                }
            }
        },
        Json::Num(t) => {
            push_str_chars(out, t.as_str());
        },
        Json::Str(s) => {
            out.push('"');
            push_escaped(out, s.as_str());
            out.push('"');
            proof {
                assert(old(out)@ + render(v@) =~= out@);
            }
        },
        Json::Arr(es) => {
            out.push('[');
            let ghost base = out@;
            let mut i: usize = 0;
            while i < es.len()
                invariant
                    i <= es.len(),
                    out@ == base + render_items(jview_seq(es@.subrange(0, i as int))),
                    v@ == JVal::Arr(jview_seq(es@)),
                decreases es.len() - i,
            {
                if i > 0 {
                    out.push(',');
                }
                proof {
                    lemma_jview_seq(es@.subrange(0, i as int));
                    assert(*v == Json::Arr(*es));
                    assert((*v)->Arr_0 == *es);
                    assert(decreases_to!(*v => (*v)->Arr_0));
                    assert(decreases_to!(*es => es@));
                    assert(decreases_to!(es@ => es@[i as int]));
                    assert(decreases_to!(*v => es@[i as int]));
                }
                render_json(&es[i], out);
                proof {
                    assert(es@.subrange(0, i + 1 as int) =~= es@.subrange(0, i as int).push(
                        es@[i as int],
                    ));
                    lemma_jview_seq_push(es@.subrange(0, i as int), es@[i as int]);
                    lemma_render_items_push(
                        jview_seq(es@.subrange(0, i as int)),
                        jview(es@[i as int]),
                    );
                    assert(out@ == base + render_items(
                        jview_seq(es@.subrange(0, i + 1 as int)),
                    ));
                }
                i = i + 1;
            }
            out.push(']');
            proof {
                assert(es@.subrange(0, es@.len() as int) =~= es@);
                assert(old(out)@ + render(v@) =~= out@);
            }
        },
        Json::Obj(ms) => {
            out.push('{');
            let ghost base = out@;
            let mut i: usize = 0;
            while i < ms.len()
                invariant
                    i <= ms.len(),
                    out@ == base + render_pairs(jview_pairs(ms@.subrange(0, i as int))),
                    v@ == JVal::Obj(jview_pairs(ms@)),
                decreases ms.len() - i,
            {
                if i > 0 {
                    out.push(',');
                }
                out.push('"');
                push_escaped(out, ms[i].0.as_str());
                out.push('"');
                out.push(':');
                proof {
                    assert(*v == Json::Obj(*ms));
                    assert((*v)->Obj_0 == *ms);
                    assert(decreases_to!(*v => (*v)->Obj_0));
                    assert(decreases_to!(*ms => ms@));
                    assert(decreases_to!(ms@ => ms@[i as int]));
                    assert(decreases_to!(ms@[i as int] => ms@[i as int].1));
                    assert(decreases_to!(*v => ms@[i as int].1));
                }
                render_json(&ms[i].1, out);
                proof {
                    assert(ms@.subrange(0, i + 1 as int) =~= ms@.subrange(0, i as int).push(
                        ms@[i as int],
                    ));
                    lemma_jview_pairs_push(ms@.subrange(0, i as int), ms@[i as int]);
                    lemma_render_pairs_push(
                        jview_pairs(ms@.subrange(0, i as int)),
                        (ms@[i as int].0@, jview(ms@[i as int].1)),
                    );
                    assert(out@ == base + render_pairs(
                        jview_pairs(ms@.subrange(0, i + 1 as int)),
                    ));
                }
                i = i + 1;
            }
            out.push('}');
            proof {
                assert(ms@.subrange(0, ms@.len() as int) =~= ms@);
                assert(old(out)@ + render(v@) =~= out@);
            }
        },
    }
}

impl Json {
    /// A structurally equal copy.
    #[verifier::loop_isolation(false)]
    pub fn deep_clone(&self) -> (r: Json)
        ensures
            r@ == self@,
        decreases *self,
    {
        match self {
            Json::Null => Json::Null,
            Json::Bool(b) => Json::Bool(*b),
            Json::Num(t) => Json::Num(t.clone()),
            Json::Str(s) => Json::Str(s.clone()),
            Json::Arr(es) => {
                let mut out: Vec<Json> = Vec::new();
                let mut i: usize = 0;
                while i < es.len()
                    invariant
                        i <= es@.len(),
                        out@.len() == i,
                        jview_seq(out@) =~= jview_seq(es@.subrange(0, i as int)),
                    decreases es@.len() - i,
                {
                    proof {
                        assert(decreases_to!(*self => (*self)->Arr_0));
                        assert(decreases_to!(*es => es@));
                        assert(decreases_to!(es@ => es@[i as int]));
                        assert(decreases_to!(*self => es@[i as int]));
                    }
                    let c = es[i].deep_clone();
                    let ghost out0 = out@;
                    out.push(c);
                    proof {
                        lemma_jview_seq_push(out0, c);
                        lemma_jview_seq_push(es@.subrange(0, i as int), es@[i as int]);
                        assert(es@.subrange(0, i + 1 as int) =~= es@.subrange(0, i as int).push(
                            es@[i as int],
                        ));
                    }
                    i = i + 1;
                }
                proof {
                    assert(es@.subrange(0, es@.len() as int) =~= es@);
                }
                Json::Arr(out)
            },
            Json::Obj(ms) => {
                let mut out: Vec<(String, Json)> = Vec::new();
                let mut i: usize = 0;
                while i < ms.len()
                    invariant
                        i <= ms@.len(),
                        out@.len() == i,
                        jview_pairs(out@) =~= jview_pairs(ms@.subrange(0, i as int)),
                    decreases ms@.len() - i,
                {
                    proof {
                        assert(decreases_to!(*self => (*self)->Obj_0));
                        assert(decreases_to!(*ms => ms@));
                        assert(decreases_to!(ms@ => ms@[i as int]));
                        assert(decreases_to!(ms@[i as int] => ms@[i as int].1));
                        assert(decreases_to!(*self => ms@[i as int].1));
                    }
                    let k = ms[i].0.clone();
                    let c = ms[i].1.deep_clone();
                    let ghost out0 = out@;
                    out.push((k, c));
                    proof {
                        lemma_jview_pairs_push(out0, (k, c));
                        lemma_jview_pairs_push(ms@.subrange(0, i as int), ms@[i as int]);
                        assert(ms@.subrange(0, i + 1 as int) =~= ms@.subrange(0, i as int).push(
                            ms@[i as int],
                        ));
                    }
                    i = i + 1;
                }
                proof {
                    assert(ms@.subrange(0, ms@.len() as int) =~= ms@);
                }
                Json::Obj(out)
            },
        }
    }
}

/// The canonical text of `v`, as a string.
pub fn to_text(v: &Json) -> (r: String)
    ensures
        r@ == render(v@),
{
    let mut out: Vec<char> = Vec::new();
    render_json(v, &mut out);
    string_of(&out)
}

} // verus!
