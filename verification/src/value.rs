use vstd::prelude::*;
use crate::command::ValueType;
use crate::text::{all_digits, is_ascii_digit, parse_i64, parse_i64_spec, slice, str_eq, to_chars};

verus! {

broadcast use vstd::string::group_string_axioms;

/// `c` with ASCII capitals made small.
pub open spec fn ascii_lower(c: char) -> char {
    if 'A' <= c && c <= 'Z' {
        ((c as u32) + 32) as char
    } else {
        c
    }
}

/// `s` equals the lower-case ASCII word `word` up to ASCII case.
pub open spec fn eq_ignore_ascii_case(s: Seq<char>, word: Seq<char>) -> bool {
    s.len() == word.len() && forall|i: int| 0 <= i < s.len() ==> ascii_lower(#[trigger] s[i]) == word[i]
}

/// An optional sign, then ASCII digits (at least one).
pub open spec fn is_exponent_digits(e: Seq<char>) -> bool {
    let d = if e.len() > 0 && (e[0] == '+' || e[0] == '-') {
        e.drop_first()
    } else {
        e
    };
    d.len() > 0 && all_digits(d)
}

/// The first position of `.`, if any.
pub open spec fn first_dot(m: Seq<char>) -> Option<int> {
    crate::text::index_of(m, '.')
}

/// `Digit+ | Digit+ '.' Digit* | Digit* '.' Digit+`.
pub open spec fn is_mantissa(m: Seq<char>) -> bool {
    match first_dot(m) {
        None => m.len() > 0 && all_digits(m),
        Some(i) => all_digits(m.take(i)) && all_digits(m.skip(i + 1)) && m.len() > 1,
    }
}

/// The position of the first `e` or `E`.
pub open spec fn first_exp(s: Seq<char>) -> Option<int> {
    if exists|i: int| 0 <= i < s.len() && (s[i] == 'e' || s[i] == 'E') {
        Some(
            choose|i: int|
                0 <= i < s.len() && (s[i] == 'e' || s[i] == 'E') && forall|j: int|
                    0 <= j < i ==> !(s[j] == 'e' || s[j] == 'E'),
        )
    } else {
        None
    }
}

/// A decimal number with an optional exponent.
pub open spec fn is_decimal_number(s: Seq<char>) -> bool {
    match first_exp(s) {
        Some(i) => is_mantissa(s.take(i)) && is_exponent_digits(s.skip(i + 1)),
        None => is_mantissa(s),
    }
}

/// The strings that `str::parse::<f64>` accepts, as its documentation gives
/// the grammar: an optional sign, then `inf`, `infinity`, `nan` (in any case) or
/// a decimal number with an optional exponent.
pub open spec fn parses_as_float(s: Seq<char>) -> bool {
    let b = if s.len() > 0 && (s[0] == '+' || s[0] == '-') {
        s.drop_first()
    } else {
        s
    };
    eq_ignore_ascii_case(b, seq!['i', 'n', 'f']) || eq_ignore_ascii_case(
        b,
        seq!['i', 'n', 'f', 'i', 'n', 'i', 't', 'y'],
    ) || eq_ignore_ascii_case(b, seq!['n', 'a', 'n']) || is_decimal_number(b)
}

/// The words accepted as booleans.
pub open spec fn is_bool_word(v: Seq<char>) -> bool {
    v == "true"@ || v == "false"@ || v == "1"@ || v == "0"@ || v == "yes"@ || v == "no"@
}

/// Whether `value` is acceptable for `t`.
pub open spec fn valid_value(value: Seq<char>, t: ValueType) -> bool {
    match t {
        ValueType::String => true,
        ValueType::Integer => parse_i64_spec(value) is Some,
        ValueType::Float => parses_as_float(value),
        ValueType::Boolean => is_bool_word(value),
    }
}

fn lower(c: char) -> (r: char)
    ensures
        r == ascii_lower(c),
{
    if 'A' <= c && c <= 'Z' {
        ((c as u32 + 32) as u8) as char
    } else {
        c
    }
}

fn eq_word(s: &[char], word: &[char]) -> (r: bool)
    ensures
        r == eq_ignore_ascii_case(s@, word@),
{
    if s.len() != word.len() {
        return false;
    }
    let mut i: usize = 0;
    while i < s.len()
        invariant
            s@.len() == word@.len(),
            i <= s@.len(),
            forall|j: int| 0 <= j < i ==> ascii_lower(#[trigger] s@[j]) == word@[j],
        decreases s@.len() - i,
    {
        if lower(s[i]) != word[i] {
            return false;
        }
        i = i + 1;
    }
    true
}

fn all_ascii_digits(s: &[char]) -> (r: bool)
    ensures
        r == all_digits(s@),
{
    let mut i: usize = 0;
    while i < s.len()
        invariant
            i <= s@.len(),
            forall|j: int| 0 <= j < i ==> crate::text::is_digit(#[trigger] s@[j]),
        decreases s@.len() - i,
    {
        if !is_ascii_digit(s[i]) {
            return false;
        }
        i = i + 1;
    }
    true
}

fn exponent_ok(e: &[char]) -> (r: bool)
    ensures
        r == is_exponent_digits(e@),
{
    let d = if e.len() > 0 && (e[0] == '+' || e[0] == '-') {
        slice(e, 1, e.len())
    } else {
        slice(e, 0, e.len())
    };
    assert(e@.len() > 0 ==> e@.subrange(1, e@.len() as int) == e@.drop_first());
    assert(e@.subrange(0, e@.len() as int) == e@);
    d.len() > 0 && all_ascii_digits(d.as_slice())
}

fn mantissa_ok(m: &[char]) -> (r: bool)
    ensures
        r == is_mantissa(m@),
{
    match crate::text::index_of_char(m, '.') {
        None => m.len() > 0 && all_ascii_digits(m),
        Some(i) => {
            assert(i < m.len());
            let a = slice(m, 0, i);
            let b = slice(m, i + 1, m.len());
            assert(a@ == m@.take(i as int));
            assert(b@ == m@.skip(i + 1));
            all_ascii_digits(a.as_slice()) && all_ascii_digits(b.as_slice()) && m.len() > 1
        },
    }
}

fn decimal_ok(s: &[char]) -> (r: bool)
    ensures
        r == is_decimal_number(s@),
{
    let mut i: usize = 0;
    while i < s.len()
        invariant
            i <= s@.len(),
            forall|j: int| 0 <= j < i ==> !(s@[j] == 'e' || s@[j] == 'E'),
        decreases s@.len() - i,
    {
        if s[i] == 'e' || s[i] == 'E' {
            let ghost w = choose|k: int|
                0 <= k < s@.len() && (s@[k] == 'e' || s@[k] == 'E') && forall|j: int|
                    0 <= j < k ==> !(s@[j] == 'e' || s@[j] == 'E');
            assert(0 <= i < s@.len() && (s@[i as int] == 'e' || s@[i as int] == 'E'));
            assert(w == i as int) by {
                if w < i {
                } else if w > i {
                }
            }
            let m = slice(s, 0, i);
            let e = slice(s, i + 1, s.len());
            assert(m@ == s@.take(i as int));
            assert(e@ == s@.skip(i + 1));
            return mantissa_ok(m.as_slice()) && exponent_ok(e.as_slice());
        }
        i = i + 1;
    }
    mantissa_ok(s)
}

/// Whether `str::parse::<f64>` accepts `s`.
pub fn float_ok(s: &[char]) -> (r: bool)
    ensures
        r == parses_as_float(s@),
{
    let b = if s.len() > 0 && (s[0] == '+' || s[0] == '-') {
        slice(s, 1, s.len())
    } else {
        slice(s, 0, s.len())
    };
    assert(s@.len() > 0 ==> s@.subrange(1, s@.len() as int) == s@.drop_first());
    assert(s@.subrange(0, s@.len() as int) == s@);
    let mut inf: Vec<char> = Vec::new();
    inf.push('i');
    inf.push('n');
    inf.push('f');
    let mut infinity: Vec<char> = Vec::new();
    infinity.push('i');
    infinity.push('n');
    infinity.push('f');
    infinity.push('i');
    infinity.push('n');
    infinity.push('i');
    infinity.push('t');
    infinity.push('y');
    let mut nan: Vec<char> = Vec::new();
    nan.push('n');
    nan.push('a');
    nan.push('n');
    assert(inf@ == seq!['i', 'n', 'f']);
    assert(infinity@ == seq!['i', 'n', 'f', 'i', 'n', 'i', 't', 'y']);
    assert(nan@ == seq!['n', 'a', 'n']);
    let a = eq_word(b.as_slice(), inf.as_slice());
    let c = eq_word(b.as_slice(), infinity.as_slice());
    let d = eq_word(b.as_slice(), nan.as_slice());
    let e = decimal_ok(b.as_slice());
    a || c || d || e
}

/// Checks that `value` is acceptable for `value_type`: any string, a 64-bit
/// integer, a float, or one of `true false 1 0 yes no`.
pub fn validate_value(value: &str, value_type: &ValueType) -> (r: Result<(), ()>)
    ensures
        r is Ok <==> valid_value(value@, *value_type),
{
    match value_type {
        ValueType::String => Ok(()),
        ValueType::Integer => {
            let cs = to_chars(value);
            if parse_i64(cs.as_slice()).is_some() {
                Ok(())
            } else {
                Err(())
            }
        },
        ValueType::Float => {
            let cs = to_chars(value);
            if float_ok(cs.as_slice()) {
                Ok(())
            } else {
                Err(())
            }
        },
        ValueType::Boolean => {
            if str_eq(value, "true") || str_eq(value, "false") || str_eq(value, "1") || str_eq(
                value,
                "0",
            ) || str_eq(value, "yes") || str_eq(value, "no") {
                Ok(())
            } else {
                Err(())
            }
        },
    }
}

} // verus!
