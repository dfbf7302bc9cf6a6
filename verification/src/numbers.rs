//! Executable readings of numeric text.
//!
//! The engine coerces cells from number tokens and free-form strings; these
//! functions decide the grammars of `json` and compute the integer readings.

use vstd::prelude::*;

use crate::json::{
    ci_char, ci_match, digit_prefix, digit_val, digits_val, f64_exp, f64_number, f64_text,
    is_digit, mantissa_len, num_exp, num_frac_exp, num_i64, num_is_zero, num_token,
    plain_int_token, str_i64,
};
use crate::text::chars_of;

verus! {

/// The suffix of `s` from index `i` on.
pub open spec fn suffix(s: Seq<char>, i: int) -> Seq<char> {
    s.subrange(i, s.len() as int)
}

pub proof fn lemma_digit_prefix_bounds(s: Seq<char>)
    ensures
        digit_prefix(s) <= s.len(),
        forall|i: int| 0 <= i < digit_prefix(s) ==> is_digit(s[i]),
        digit_prefix(s) < s.len() ==> !is_digit(s[digit_prefix(s) as int]),
    decreases s.len(),
{
    if s.len() > 0 && is_digit(s[0]) {
        let t = s.subrange(1, s.len() as int);
        lemma_digit_prefix_bounds(t);
        assert forall|i: int| 0 <= i < digit_prefix(s) implies is_digit(s[i]) by {
            if i > 0 {
                assert(s[i] == t[i - 1]);
            }
        }
        if digit_prefix(s) < s.len() {
            assert(s[digit_prefix(s) as int] == t[digit_prefix(t) as int]);
        }
    }
}

pub proof fn lemma_digit_prefix_from(s: Seq<char>, n: nat)
    requires
        n <= s.len(),
        forall|i: int| 0 <= i < n ==> is_digit(s[i]),
        n < s.len() ==> !is_digit(s[n as int]),
    ensures
        digit_prefix(s) == n,
    decreases s.len(),
{
    if s.len() > 0 && is_digit(s[0]) {
        let t = s.subrange(1, s.len() as int);
        assert(forall|i: int| 0 <= i < t.len() ==> t[i] == s[i + 1]);
        lemma_digit_prefix_from(t, (n - 1) as nat);
    }
}

/// Every digit sequence has a nonnegative value.
pub proof fn lemma_digits_val_nonneg(s: Seq<char>)
    requires
        forall|i: int| 0 <= i < s.len() ==> is_digit(s[i]),
    ensures
        digits_val(s) >= 0,
    decreases s.len(),
{
    if s.len() > 0 {
        let t = s.subrange(0, s.len() - 1);
        assert(forall|i: int| 0 <= i < t.len() ==> t[i] == s[i]);
        lemma_digits_val_nonneg(t);
    }
}

/// A prefix of a digit sequence never has a larger value than the whole.
pub proof fn lemma_digits_val_prefix(s: Seq<char>, n: int)
    requires
        0 <= n <= s.len(),
        forall|i: int| 0 <= i < s.len() ==> is_digit(s[i]),
    ensures
        digits_val(s.subrange(0, n)) <= digits_val(s),
    decreases s.len() - n,
{
    if n == s.len() {
        assert(s.subrange(0, n) =~= s);
    } else {
        let t = s.subrange(0, s.len() - 1);
        assert(forall|i: int| 0 <= i < t.len() ==> t[i] == s[i]);
        if n == s.len() - 1 {
            lemma_digits_val_nonneg(t);
            assert(digits_val(s) == digits_val(t) * 10 + digit_val(s[s.len() - 1]));
            assert(digit_val(s[s.len() - 1]) >= 0);
            assert(digits_val(t) * 10 >= digits_val(t)) by (nonlinear_arith)
                requires digits_val(t) >= 0;
        } else {
            lemma_digits_val_prefix(s, s.len() - 1);
            assert(s.subrange(0, s.len() - 1).subrange(0, n) =~= s.subrange(0, n));
            lemma_digits_val_prefix(s.subrange(0, s.len() - 1), n);
        }
    }
}

/// Index of the first character at or after `from` that is not a digit.
#[verifier::loop_isolation(false)]
fn digit_run(cs: &Vec<char>, from: usize) -> (n: usize)
    requires
        from <= cs@.len(),
    ensures
        from + n <= cs@.len(),
        n == digit_prefix(suffix(cs@, from as int)),
{
    let mut j: usize = from;
    while j < cs.len() && 48 <= cs[j] as u32 && cs[j] as u32 <= 57
        invariant
            from <= j <= cs@.len(),
            forall|i: int| from <= i < j ==> is_digit(cs@[i]),
        decreases cs@.len() - j,
    {
        j = j + 1;
    }
    proof {
        let s = suffix(cs@, from as int);
        assert(forall|i: int| 0 <= i < s.len() ==> s[i] == cs@[from + i]);
        lemma_digit_prefix_from(s, (j - from) as nat);
    }
    j - from
}

/// The value of the digits `cs[from .. to]`, when it is at most 2^63;
/// a larger value is reported as absent.
#[verifier::loop_isolation(false)]
fn digits_value(cs: &Vec<char>, from: usize, to: usize) -> (r: Option<u64>)
    requires
        from <= to <= cs@.len(),
        forall|i: int| from <= i < to ==> is_digit(cs@[i]),
    ensures
        ({
            let dv = digits_val(cs@.subrange(from as int, to as int));
            if dv <= 0x8000_0000_0000_0000 {
                r == Some(dv as u64)
            } else {
                r is None
            }
        }),
{
    let ghost s = cs@.subrange(from as int, to as int);
    proof {
        assert(forall|i: int| 0 <= i < s.len() ==> is_digit(s[i]));
    }
    let mut acc: u128 = 0;
    let mut j: usize = from;
    while j < to
        invariant
            from <= j <= to <= cs@.len(),
            forall|i: int| from <= i < to ==> is_digit(cs@[i]),
            s == cs@.subrange(from as int, to as int),
            acc <= 0x8000_0000_0000_0000,
            acc == digits_val(s.subrange(0, j - from)),
        decreases to - j,
    {
        let c = cs[j];
        let d: u128 = (c as u32 - 48) as u128;
        let acc2: u128 = acc * 10 + d;
        proof {
            assert(s.subrange(0, j + 1 - from).subrange(0, j - from) =~= s.subrange(
                0,
                j - from,
            ));
            assert(s.subrange(0, j + 1 - from).len() == j + 1 - from);
            assert(s.subrange(0, j + 1 - from)[j - from] == cs@[j as int]);
            assert(digits_val(s.subrange(0, j + 1 - from)) == digits_val(
                s.subrange(0, j - from),
            ) * 10 + digit_val(cs@[j as int]));
        }
        if acc2 > 0x8000_0000_0000_0000 {
            proof {
                lemma_digits_val_prefix(s, j + 1 - from);
            }
            return None;
        }
        acc = acc2;
        j = j + 1;
    }
    proof {
        assert(s.subrange(0, to - from) =~= s);
    }
    Some(acc as u64)
}

/// Reads free text as a signed 64-bit integer, exactly as `str_i64` says.
pub fn parse_i64_text(cs: &Vec<char>) -> (r: Option<i64>)
    ensures
        r == str_i64(cs@),
{
    let neg = cs.len() > 0 && cs[0] == '-';
    let start: usize = if cs.len() > 0 && (cs[0] == '-' || cs[0] == '+') {
        1
    } else {
        0
    };
    let ghost u = suffix(cs@, start as int);
    if start >= cs.len() {
        proof {
            assert(u.len() == 0);
        }
        return None;
    }
    proof {
        if start == 0 {
            assert(u =~= cs@);
        }
    }
    let d = digit_run(cs, start);
    if d == 0 || start + d != cs.len() {
        proof {
            lemma_digit_prefix_bounds(u);
        }
        return None;
    }
    proof {
        lemma_digit_prefix_bounds(u);
        assert forall|i: int| start <= i < cs@.len() implies is_digit(cs@[i]) by {
            assert(cs@[i] == u[i - start]);
        }
        assert(u =~= cs@.subrange(start as int, cs@.len() as int));
    }
    let v = digits_value(cs, start, cs.len());
    proof {
        assert(cs@.subrange(start as int, cs@.len() as int) =~= u);
        assert(forall|i: int| 0 <= i < u.len() ==> is_digit(u[i]));
    }
    match v {
        None => {
            None
        },
        Some(v) => {
            proof {
                lemma_digits_val_nonneg(u);
            }
            if neg {
                if v == 0x8000_0000_0000_0000 {
                    Some(i64::MIN)
                } else {
                    Some(-(v as i64))
                }
            } else {
                if v <= 0x7fff_ffff_ffff_ffff {
                    Some(v as i64)
                } else {
                    None
                }
            }
        },
    }
}

/// Reads a JSON number token as a signed 64-bit integer, exactly as
/// `num_i64` says.
pub fn token_i64(cs: &Vec<char>) -> (r: Option<i64>)
    ensures
        r == num_i64(cs@),
{
    if cs.len() == 0 {
        return None;
    }
    let neg = cs[0] == '-';
    let start: usize = if neg {
        1
    } else {
        0
    };
    let ghost u = suffix(cs@, start as int);
    proof {
        if start == 0 {
            assert(u =~= cs@);
        }
    }
    if start >= cs.len() {
        proof {
            assert(u.len() == 0);
        }
        return None;
    }
    let d = digit_run(cs, start);
    if d == 0 || start + d != cs.len() {
        proof {
            lemma_digit_prefix_bounds(u);
        }
        return None;
    }
    if cs[start] == '0' && d != 1 {
        proof {
            assert(u[0] == cs@[start as int]);
        }
        return None;
    }
    proof {
        lemma_digit_prefix_bounds(u);
        assert(u[0] == cs@[start as int]);
        assert forall|i: int| start <= i < cs@.len() implies is_digit(cs@[i]) by {
            assert(cs@[i] == u[i - start]);
        }
        assert(plain_int_token(cs@));
    }
    let v = digits_value(cs, start, cs.len());
    proof {
        assert(cs@.subrange(start as int, cs@.len() as int) =~= u);
        assert(forall|i: int| 0 <= i < u.len() ==> is_digit(u[i]));
        if !neg {
            assert(u =~= cs@);
        }
    }
    match v {
        None => {
            None
        },
        Some(v) => {
            proof {
                lemma_digits_val_nonneg(u);
            }
            if neg {
                if v == 0 {
                    None
                } else if v == 0x8000_0000_0000_0000 {
                    Some(i64::MIN)
                } else {
                    Some(-(v as i64))
                }
            } else {
                if v <= 0x7fff_ffff_ffff_ffff {
                    Some(v as i64)
                } else {
                    None
                }
            }
        },
    }
}

pub proof fn lemma_mantissa_len_from(s: Seq<char>, n: nat)
    requires
        n <= s.len(),
        forall|i: int| 0 <= i < n ==> !(s[i] == 'e' || s[i] == 'E'),
        n < s.len() ==> (s[n as int] == 'e' || s[n as int] == 'E'),
    ensures
        mantissa_len(s) == n,
    decreases s.len(),
{
    if s.len() > 0 && !(s[0] == 'e' || s[0] == 'E') {
        let t = s.subrange(1, s.len() as int);
        assert(forall|i: int| 0 <= i < t.len() ==> t[i] == s[i + 1]);
        lemma_mantissa_len_from(t, (n - 1) as nat);
    }
}

/// Decides whether a number token denotes a nonzero value: some digit of
/// its mantissa is not zero.
#[verifier::loop_isolation(false)]
pub fn token_nonzero(cs: &Vec<char>) -> (r: bool)
    ensures
        r == !num_is_zero(cs@),
{
    let mut i: usize = 0;
    let mut nonzero = false;
    while i < cs.len() && cs[i] != 'e' && cs[i] != 'E'
        invariant
            i <= cs@.len(),
            forall|k: int| 0 <= k < i ==> !(cs@[k] == 'e' || cs@[k] == 'E'),
            nonzero == exists|k: int|
                0 <= k < i && is_digit(#[trigger] cs@[k]) && cs@[k] != '0',
        decreases cs@.len() - i,
    {
        let c = cs[i];
        if 48 <= c as u32 && c as u32 <= 57 && c != '0' {
            nonzero = true;
            proof {
                assert(is_digit(cs@[i as int]) && cs@[i as int] != '0');
            }
        }
        i = i + 1;
    }
    proof {
        lemma_mantissa_len_from(cs@, i as nat);
        if nonzero {
            let k = choose|k: int| 0 <= k < i && is_digit(#[trigger] cs@[k]) && cs@[k] != '0';
            assert(!num_is_zero(cs@));
        }
    }
    nonzero
}

/// Decides `num_exp` for the suffix of `cs` from `from` on.
fn check_exp(cs: &Vec<char>, from: usize) -> (r: bool)
    requires
        from <= cs@.len(),
    ensures
        r == num_exp(suffix(cs@, from as int)),
{
    let ghost s = suffix(cs@, from as int);
    if from == cs.len() {
        return true;
    }
    let c = cs[from];
    if !(c == 'e' || c == 'E') {
        return false;
    }
    let mut j: usize = from + 1;
    proof {
        assert(s.subrange(1, s.len() as int) =~= suffix(cs@, from + 1));
    }
    if j < cs.len() && (cs[j] == '+' || cs[j] == '-') {
        j = j + 1;
    }
    let ghost r2 = suffix(cs@, j as int);
    proof {
        let r1 = s.subrange(1, s.len() as int);
        if r1.len() > 0 && (r1[0] == '+' || r1[0] == '-') {
            assert(r1.subrange(1, r1.len() as int) =~= suffix(cs@, from + 2));
        }
    }
    let k = digit_run(cs, j);
    k > 0 && j + k == cs.len()
}

/// Decides `num_frac_exp` for the suffix of `cs` from `from` on.
fn check_frac_exp(cs: &Vec<char>, from: usize) -> (r: bool)
    requires
        from <= cs@.len(),
    ensures
        r == num_frac_exp(suffix(cs@, from as int)),
{
    let ghost s = suffix(cs@, from as int);
    if from < cs.len() && cs[from] == '.' {
        proof {
            assert(s.subrange(1, s.len() as int) =~= suffix(cs@, from + 1));
        }
        let f = digit_run(cs, from + 1);
        proof {
            lemma_digit_prefix_bounds(suffix(cs@, from + 1));
        }
        if f == 0 {
            false
        } else {
            proof {
                let f0 = digit_prefix(s.subrange(1, s.len() as int));
                assert(s.subrange(1 + f0 as int, s.len() as int) =~= suffix(
                    cs@,
                    from + 1 + f as int,
                ));
            }
            check_exp(cs, from + 1 + f)
        }
    } else {
        check_exp(cs, from)
    }
}

/// Decides whether `cs` is exactly one JSON number token.
pub fn check_num_token(cs: &Vec<char>) -> (r: bool)
    ensures
        r == num_token(cs@),
{
    let start: usize = if cs.len() > 0 && cs[0] == '-' {
        1
    } else {
        0
    };
    let ghost u = if cs@.len() > 0 && cs@[0] == '-' {
        cs@.subrange(1, cs@.len() as int)
    } else {
        cs@
    };
    proof {
        assert(u =~= suffix(cs@, start as int));
    }
    if start > cs.len() {
        return false;
    }
    let d = digit_run(cs, start);
    proof {
        lemma_digit_prefix_bounds(u);
    }
    if d == 0 {
        return false;
    }
    if cs[start] == '0' && d != 1 {
        return false;
    }
    proof {
        assert(u[0] == cs@[start as int]);
        assert(u.subrange(d as int, u.len() as int) =~= suffix(cs@, start + d));
    }
    check_frac_exp(cs, start + d)
}

/// Decides `f64_exp` for the suffix of `cs` from `from` on.
fn check_f64_exp(cs: &Vec<char>, from: usize) -> (r: bool)
    requires
        from <= cs@.len(),
    ensures
        r == f64_exp(suffix(cs@, from as int)),
{
    proof {
        let s = suffix(cs@, from as int);
        assert(f64_exp(s) == num_exp(s));
    }
    check_exp(cs, from)
}

/// Decides `f64_number` for the suffix of `cs` from `from` on.
fn check_f64_number(cs: &Vec<char>, from: usize) -> (r: bool)
    requires
        from <= cs@.len(),
    ensures
        r == f64_number(suffix(cs@, from as int)),
{
    let ghost u = suffix(cs@, from as int);
    let d = digit_run(cs, from);
    proof {
        lemma_digit_prefix_bounds(u);
    }
    if d > 0 {
        let ghost r0 = u.subrange(d as int, u.len() as int);
        proof {
            assert(r0 =~= suffix(cs@, from + d));
        }
        let n = cs.len();
        if from + d < n && cs[from + d] == '.' {
            proof {
                assert(r0.subrange(1, r0.len() as int) =~= suffix(cs@, from + d + 1));
            }
            let f = digit_run(cs, from + d + 1);
            proof {
                lemma_digit_prefix_bounds(suffix(cs@, from + d + 1));
                let f0 = digit_prefix(r0.subrange(1, r0.len() as int));
                assert(r0.subrange(1 + f0 as int, r0.len() as int) =~= suffix(
                    cs@,
                    from + d + 1 + f as int,
                ));
            }
            check_f64_exp(cs, from + d + 1 + f)
        } else {
            check_f64_exp(cs, from + d)
        }
    } else {
        if from < cs.len() && cs[from] == '.' {
            proof {
                assert(u.subrange(1, u.len() as int) =~= suffix(cs@, from + 1));
            }
            let f = digit_run(cs, from + 1);
            proof {
                lemma_digit_prefix_bounds(suffix(cs@, from + 1));
            }
            if f == 0 {
                false
            } else {
                proof {
                    let f0 = digit_prefix(u.subrange(1, u.len() as int));
                    assert(u.subrange(1 + f0 as int, u.len() as int) =~= suffix(
                        cs@,
                        from + 1 + f as int,
                    ));
                }
                check_f64_exp(cs, from + 1 + f)
            }
        } else {
            false
        }
    }
}

/// ASCII-case-insensitive comparison of a suffix against a pattern word.
#[verifier::loop_isolation(false)]
pub(crate) fn check_ci(cs: &Vec<char>, from: usize, pat: &Vec<char>) -> (r: bool)
    requires
        from <= cs@.len(),
    ensures
        r == ci_match(suffix(cs@, from as int), pat@),
{
    let ghost s = suffix(cs@, from as int);
    if cs.len() - from != pat.len() {
        return false;
    }
    let mut i: usize = 0;
    while i < pat.len()
        invariant
            0 <= i <= pat@.len(),
            from + pat@.len() == cs@.len(),
            s == suffix(cs@, from as int),
            s.len() == pat@.len(),
            forall|k: int| 0 <= k < i ==> ci_char(s[k], #[trigger] pat@[k]),
        decreases pat@.len() - i,
    {
        let c = cs[from + i];
        let p = pat[i];
        let cu: u32 = c as u32;
        let pu: u32 = p as u32;
        if !(c == p || (97 <= pu && pu <= 122 && (cu as u64) + 32 == pu as u64)) {
            proof {
                assert(s[i as int] == cs@[from + i]);
                assert(!ci_char(s[i as int], pat@[i as int]));
            }
            return false;
        }
        proof {
            assert(s[i as int] == cs@[from + i]);
        }
        i = i + 1;
    }
    true
}

/// Decides whether `cs` reads as a floating-point value, exactly as
/// `f64_text` says.
pub fn check_f64_text(cs: &Vec<char>) -> (r: bool)
    ensures
        r == f64_text(cs@),
{
    let start: usize = if cs.len() > 0 && (cs[0] == '+' || cs[0] == '-') {
        1
    } else {
        0
    };
    let ghost u = if cs@.len() > 0 && (cs@[0] == '+' || cs@[0] == '-') {
        cs@.subrange(1, cs@.len() as int)
    } else {
        cs@
    };
    proof {
        assert(u =~= suffix(cs@, start as int));
    }
    let inf = chars_of("inf");
    let infinity = chars_of("infinity");
    let nan = chars_of("nan");
    proof {
        reveal_strlit("inf");
        reveal_strlit("infinity");
        reveal_strlit("nan");
        assert("inf"@ =~= seq!['i', 'n', 'f']);
        assert("infinity"@ =~= seq!['i', 'n', 'f', 'i', 'n', 'i', 't', 'y']);
        assert("nan"@ =~= seq!['n', 'a', 'n']);
    }
    if check_ci(cs, start, &inf) {
        return true;
    }
    if check_ci(cs, start, &infinity) {
        return true;
    }
    if check_ci(cs, start, &nan) {
        return true;
    }
    check_f64_number(cs, start)
}

} // verus!
