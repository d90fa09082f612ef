//! The texts that denote a binary floating-point number.
//!
//! This is the grammar that Rust's standard library documents for reading a
//! floating-point number from a string:
//!
//! ```text
//! Float    ::= Sign? ( 'inf' | 'infinity' | 'nan' | Number )
//! Number   ::= Mantissa Exponent?
//! Mantissa ::= Digit+ | Digit+ '.' Digit* | Digit* '.' Digit+
//! Exponent ::= 'e' Sign? Digit+
//! Sign     ::= '+' | '-'
//! Digit    ::= '0' ..= '9'
//! ```
//!
//! Letters match in either case. Nothing may stand before or after the
//! number, not even a blank. A text of this grammar may denote a number too
//! large for the format: it is then read as an infinity.

use vstd::prelude::*;
use crate::decimal::{decimal, digits, magnitude};
use crate::text::chars;

verus! {

/// `c` is one of the ten digits.
pub open spec fn is_digit(c: char) -> bool {
    '0' <= c <= '9'
}

/// `c` is a plus or a minus sign.
pub open spec fn is_sign(c: char) -> bool {
    c == '+' || c == '-'
}

/// `c` is the lower-case letter `lower` or its capital.
pub open spec fn is_letter(c: char, lower: char) -> bool {
    c == lower || c as int == lower as int - 32
}

/// `s` holds digits only.
pub open spec fn all_digits(s: Seq<char>) -> bool {
    forall|i: int| 0 <= i < s.len() ==> is_digit(#[trigger] s[i])
}

/// `s` without the sign it may begin with.
pub open spec fn unsigned(s: Seq<char>) -> Seq<char> {
    if s.len() > 0 && is_sign(s[0]) {
        s.skip(1)
    } else {
        s
    }
}

/// `Digit+ | Digit+ '.' Digit* | Digit* '.' Digit+`
pub open spec fn is_mantissa(s: Seq<char>) -> bool {
    ||| s.len() > 0 && all_digits(s)
    ||| s.len() > 1 && exists|dot: int|
        0 <= dot < s.len() && s[dot] == '.' && all_digits(#[trigger] s.take(dot)) && all_digits(
            s.skip(dot + 1),
        )
}

/// `'e' Sign? Digit+`
pub open spec fn is_exponent(s: Seq<char>) -> bool {
    &&& s.len() > 0
    &&& is_letter(s[0], 'e')
    &&& unsigned(s.skip(1)).len() > 0
    &&& all_digits(unsigned(s.skip(1)))
}

/// `Mantissa Exponent?`
pub open spec fn is_number(s: Seq<char>) -> bool {
    exists|end: int|
        0 <= end <= s.len() && is_mantissa(#[trigger] s.take(end)) && (end == s.len()
            || is_exponent(s.skip(end)))
}

/// `s` spells `word`, which is in lower case, in any mix of cases.
pub open spec fn spells(s: Seq<char>, word: Seq<char>) -> bool {
    &&& s.len() == word.len()
    &&& forall|i: int| 0 <= i < s.len() ==> is_letter(#[trigger] s[i], word[i])
}

/// `'inf' | 'infinity' | 'nan'`
pub open spec fn is_inf_or_nan(s: Seq<char>) -> bool {
    ||| spells(s, seq!['i', 'n', 'f'])
    ||| spells(s, seq!['i', 'n', 'f', 'i', 'n', 'i', 't', 'y'])
    ||| spells(s, seq!['n', 'a', 'n'])
}

/// `Sign? ( 'inf' | 'infinity' | 'nan' | Number )`
pub open spec fn is_float_literal(s: Seq<char>) -> bool {
    is_number(unsigned(s)) || is_inf_or_nan(unsigned(s))
}

fn digit_at(v: &Vec<char>, at: usize) -> (r: bool)
    requires
        at < v.len(),
    ensures
        r == is_digit(v[at as int]),
{
    let c = v[at];
    '0' <= c && c <= '9'
}

fn letter_at(v: &Vec<char>, at: usize, lower: char, upper: char) -> (r: bool)
    requires
        at < v.len(),
        upper as int == lower as int - 32,
    ensures
        r == is_letter(v[at as int], lower),
{
    let c = v[at];
    c == lower || c == upper
}

/// The end of the run of digits that begins at `from`.
fn digits_until(v: &Vec<char>, from: usize) -> (end: usize)
    requires
        from <= v.len(),
    ensures
        from <= end <= v.len(),
        forall|i: int| from <= i < end ==> is_digit(#[trigger] v[i]),
        end < v.len() ==> !is_digit(v[end as int]),
{
    let mut end = from;
    while end < v.len() && digit_at(v, end)
        invariant
            from <= end <= v.len(),
            forall|i: int| from <= i < end ==> is_digit(#[trigger] v[i]),
        decreases v.len() - end,
    {
        end += 1;
    }
    end
}

/// The place after the sign that may stand at `from`.
fn sign_until(v: &Vec<char>, from: usize) -> (end: usize)
    requires
        from <= v.len(),
    ensures
        from <= end <= v.len(),
        v@.skip(end as int) == unsigned(v@.skip(from as int)),
{
    if from < v.len() && (v[from] == '+' || v[from] == '-') {
        assert(v@.skip(from as int).skip(1) =~= v@.skip(from + 1));
        from + 1
    } else {
        from
    }
}

fn exponent_at(v: &Vec<char>, from: usize) -> (r: bool)
    requires
        from <= v.len(),
    ensures
        r == is_exponent(v@.skip(from as int)),
{
    if from < v.len() && letter_at(v, from, 'e', 'E') {
        assert(v@.skip(from as int).skip(1) =~= v@.skip(from + 1));
        let first = sign_until(v, from + 1);
        let end = digits_until(v, first);
        let rest = Ghost(v@.skip(first as int));
        if first < v.len() && end == v.len() {
            assert(all_digits(rest@));
            true
        } else {
            if first < v.len() {
                assert(!is_digit(rest@[end - first]));
            }
            false
        }
    } else {
        false
    }
}

/// Where a number ends: a mantissa that ends before `end` begins with `whole`
/// digits, and after a point goes on with digits up to `fraction`.
proof fn lemma_mantissa_end(s: Seq<char>, end: int, whole: int, fraction: int)
    requires
        0 <= end <= s.len(),
        is_mantissa(s.take(end)),
        end == s.len() || is_exponent(s.skip(end)),
        0 <= whole <= s.len(),
        forall|i: int| 0 <= i < whole ==> is_digit(#[trigger] s[i]),
        whole < s.len() ==> !is_digit(s[whole]),
        whole <= fraction <= s.len(),
        whole < s.len() && s[whole] == '.' ==> whole < fraction,
        !(whole < s.len() && s[whole] == '.') ==> fraction == whole,
        forall|i: int| whole < i < fraction ==> is_digit(#[trigger] s[i]),
        whole < fraction < s.len() ==> !is_digit(s[fraction]),
    ensures
        end == fraction,
        fraction > 1 || (fraction == 1 && whole == 1),
{
    let m = s.take(end);
    if end < s.len() {
        assert(s.skip(end)[0] == s[end]);
        assert(!is_digit(s[end]) && s[end] != '.');
    }
    if m.len() > 0 && all_digits(m) {
        assert forall|i: int| 0 <= i < end implies is_digit(#[trigger] s[i]) by {
            assert(m[i] == s[i]);
        }
        if whole < end {
            assert(is_digit(s[whole]));
        }
        if whole > end {
            assert(is_digit(s[end]));
        }
    } else {
        let dot = choose|dot: int|
            0 <= dot < m.len() && m[dot] == '.' && all_digits(#[trigger] m.take(dot))
                && all_digits(m.skip(dot + 1));
        assert(s[dot] == '.');
        assert forall|i: int| 0 <= i < dot implies is_digit(#[trigger] s[i]) by {
            assert(m.take(dot)[i] == s[i]);
        }
        assert forall|i: int| dot < i < end implies is_digit(#[trigger] s[i]) by {
            assert(m.skip(dot + 1)[i - dot - 1] == s[i]);
        }
        if whole < dot {
            assert(is_digit(s[whole]));
        }
        if whole > dot {
            assert(is_digit(s[dot]));
        }
        if fraction < end {
            assert(is_digit(s[fraction]));
        }
        if fraction > end {
            assert(is_digit(s[end]));
        }
    }
}

fn number_at(v: &Vec<char>, from: usize) -> (r: bool)
    requires
        from <= v.len(),
    ensures
        r == is_number(v@.skip(from as int)),
{
    let ghost s = v@.skip(from as int);
    let whole = digits_until(v, from);
    let dotted = whole < v.len() && v[whole] == '.';
    let fraction = if dotted {
        digits_until(v, whole + 1)
    } else {
        whole
    };
    let count = if dotted {
        fraction - from - 1
    } else {
        fraction - from
    };
    let body = count > 0 && (fraction == v.len() || exponent_at(v, fraction));
    proof {
        let w = whole - from;
        let f = fraction - from;
        assert(s.skip(f) =~= v@.skip(fraction as int));
        if body {
            let m = s.take(f);
            if dotted {
                assert(m[w] == '.');
                assert(all_digits(m.take(w)));
                assert(all_digits(m.skip(w + 1)));
            } else {
                assert(all_digits(m));
            }
            assert(is_mantissa(s.take(f)));
        } else if is_number(s) {
            let end = choose|end: int|
                0 <= end <= s.len() && is_mantissa(#[trigger] s.take(end)) && (end == s.len()
                    || is_exponent(s.skip(end)));
            lemma_mantissa_end(s, end, w, f);
        }
    }
    body
}

fn spells_at(v: &Vec<char>, from: usize, word: &str, capitals: &str) -> (r: bool)
    requires
        from <= v.len(),
        word@.len() == capitals@.len(),
        forall|i: int| 0 <= i < word@.len() ==> capitals@[i] as int == word@[i] as int - 32,
    ensures
        r == spells(v@.skip(from as int), word@),
{
    let lower = chars(word);
    let upper = chars(capitals);
    if v.len() - from != lower.len() {
        return false;
    }
    let ghost s = v@.skip(from as int);
    let mut i: usize = 0;
    while i < lower.len()
        invariant
            from <= v.len(),
            s == v@.skip(from as int),
            s.len() == lower.len() == upper.len(),
            lower@ == word@,
            forall|j: int| 0 <= j < lower.len() ==> upper[j] as int == lower[j] as int - 32,
            0 <= i <= lower.len(),
            forall|j: int| 0 <= j < i ==> is_letter(#[trigger] s[j], word@[j]),
        decreases lower.len() - i,
    {
        if !letter_at(v, from + i, lower[i], upper[i]) {
            assert(!is_letter(s[i as int], word@[i as int]));
            return false;
        }
        i += 1;
    }
    true
}

fn inf_or_nan_at(v: &Vec<char>, from: usize) -> (r: bool)
    requires
        from <= v.len(),
    ensures
        r == is_inf_or_nan(v@.skip(from as int)),
{
    proof {
        reveal_strlit("inf");
        reveal_strlit("INF");
        reveal_strlit("infinity");
        reveal_strlit("INFINITY");
        reveal_strlit("nan");
        reveal_strlit("NAN");
        assert("inf"@ =~= seq!['i', 'n', 'f']);
        assert("infinity"@ =~= seq!['i', 'n', 'f', 'i', 'n', 'i', 't', 'y']);
        assert("nan"@ =~= seq!['n', 'a', 'n']);
    }
    spells_at(v, from, "inf", "INF") || spells_at(v, from, "infinity", "INFINITY") || spells_at(
        v,
        from,
        "nan",
        "NAN",
    )
}

/// Whether `s` denotes a floating-point number.
pub fn is_float(s: &str) -> (r: bool)
    ensures
        r == is_float_literal(s@),
{
    let v = chars(s);
    let from = sign_until(&v, 0);
    assert(v@.skip(0) =~= v@);
    number_at(&v, from) || inf_or_nan_at(&v, from)
}

/// The digits of a number are digits, and there is at least one.
pub proof fn lemma_digits_are_digits(n: nat)
    ensures
        digits(n).len() > 0,
        all_digits(digits(n)),
    decreases n,
{
    if n >= 10 {
        lemma_digits_are_digits(n / 10);
    }
}

/// The decimal text of every integer denotes a floating-point number.
pub proof fn lemma_decimal_is_float_literal(v: int)
    ensures
        is_float_literal(decimal(v)),
{
    let s = decimal(v);
    let d = digits(magnitude(v));
    lemma_digits_are_digits(magnitude(v));
    if v < 0 {
        assert(s.skip(1) =~= d);
    } else {
        assert(is_digit(s[0]));
    }
    assert(unsigned(s) == d);
    assert(d.take(d.len() as int) =~= d);
    assert(is_mantissa(d.take(d.len() as int)));
}

} // verus!
