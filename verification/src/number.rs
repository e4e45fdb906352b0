//! The syntax that `str::parse::<f32>` accepts, which decides whether the
//! credits column of a course row can be read as a number.

use vstd::prelude::*;

verus! {

pub open spec fn is_ascii_digit(c: char) -> bool {
    '0' <= c && c <= '9'
}

pub open spec fn is_sign(c: char) -> bool {
    c == '+' || c == '-'
}

pub open spec fn is_exponent_marker(c: char) -> bool {
    c == 'e' || c == 'E'
}

/// ASCII lower case of `c`; other characters are left as they are.
pub open spec fn ascii_lower(c: char) -> char {
    if 'A' <= c && c <= 'Z' {
        ((c as u32) + 32) as char
    } else {
        c
    }
}

/// `s` equals the lower-case word `w` up to ASCII case.
pub open spec fn equals_ignoring_case(s: Seq<char>, w: Seq<char>) -> bool {
    s.len() == w.len() && forall|i: int| 0 <= i < s.len() ==> ascii_lower(#[trigger] s[i]) == w[i]
}

/// Digits with at most one decimal point, and at least one digit:
/// `Digit+ | Digit+ '.' Digit* | Digit* '.' Digit+`.
pub open spec fn is_mantissa(m: Seq<char>) -> bool {
    &&& forall|i: int| 0 <= i < m.len() ==> is_ascii_digit(#[trigger] m[i]) || m[i] == '.'
    &&& forall|i: int, j: int| 0 <= i < m.len() && 0 <= j < m.len() && m[i] == '.' && m[j] == '.' ==> i == j
    &&& exists|i: int| 0 <= i < m.len() && is_ascii_digit(#[trigger] m[i])
}

/// `s` without its leading sign, if it has one.
pub open spec fn unsigned_part(s: Seq<char>) -> Seq<char> {
    if s.len() > 0 && is_sign(s[0]) {
        s.drop_first()
    } else {
        s
    }
}

pub open spec fn all_digits(d: Seq<char>) -> bool {
    forall|i: int| 0 <= i < d.len() ==> is_ascii_digit(#[trigger] d[i])
}

/// What follows the exponent marker: `Sign? Digit+`.
pub open spec fn is_exponent(e: Seq<char>) -> bool {
    unsigned_part(e).len() > 0 && all_digits(unsigned_part(e))
}

/// `Number ::= Mantissa Exp?` with `Exp ::= 'e' Sign? Digit+`.
pub open spec fn is_decimal(s: Seq<char>) -> bool {
    ||| is_mantissa(s)
    ||| exists|k: int|
        0 <= k < s.len() && is_exponent_marker(#[trigger] s[k]) && is_mantissa(s.take(k))
            && is_exponent(s.skip(k + 1))
}

/// `inf`, `infinity` or `nan`, in any ASCII case.
pub open spec fn is_special_value(s: Seq<char>) -> bool {
    ||| equals_ignoring_case(s, seq!['i', 'n', 'f'])
    ||| equals_ignoring_case(s, seq!['i', 'n', 'f', 'i', 'n', 'i', 't', 'y'])
    ||| equals_ignoring_case(s, seq!['n', 'a', 'n'])
}

/// The grammar of `f32`'s `FromStr`:
/// `Float ::= Sign? ( 'inf' | 'infinity' | 'nan' | Number )`, letters in any
/// ASCII case.
pub open spec fn is_float_literal(s: Seq<char>) -> bool {
    is_special_value(unsigned_part(s)) || is_decimal(unsigned_part(s))
}

fn char_is_ascii_digit(c: char) -> (b: bool)
    ensures
        b == is_ascii_digit(c),
{
    '0' <= c && c <= '9'
}

fn char_ascii_lower_is(c: char, w: char) -> (b: bool)
    requires
        'a' <= w <= 'z',
    ensures
        b == (ascii_lower(c) == w),
{
    let u = c as u32;
    let wu = w as u32;
    if 'A' <= c && c <= 'Z' {
        assert(ascii_lower(c) as u32 == u + 32) by {
            assert((u + 32) as char as u32 == u + 32);
        }
        u + 32 == wu
    } else {
        c == w
    }
}

/// Whether `s[lo..hi]` equals the lower-case word `w` up to ASCII case.
fn range_equals_ignoring_case(s: &[char], lo: usize, hi: usize, w: &[char]) -> (b: bool)
    requires
        lo <= hi <= s@.len(),
        forall|i: int| 0 <= i < w@.len() ==> 'a' <= #[trigger] w@[i] <= 'z',
    ensures
        b == equals_ignoring_case(s@.subrange(lo as int, hi as int), w@),
{
    let ghost t = s@.subrange(lo as int, hi as int);
    if hi - lo != w.len() {
        return false;
    }
    let mut i: usize = 0;
    while i < w.len()
        invariant
            lo <= hi <= s@.len(),
            hi - lo == w@.len(),
            t == s@.subrange(lo as int, hi as int),
            i <= w@.len(),
            forall|k: int| 0 <= k < w@.len() ==> 'a' <= #[trigger] w@[k] <= 'z',
            forall|k: int| 0 <= k < i ==> ascii_lower(#[trigger] t[k]) == w@[k],
        decreases w@.len() - i,
    {
        if !char_ascii_lower_is(s[lo + i], w[i]) {
            assert(t[i as int] == s@[lo + i]);
            return false;
        }
        assert(t[i as int] == s@[lo + i]);
        i = i + 1;
    }
    true
}

/// Whether `s[lo..hi]` is a mantissa.
fn range_is_mantissa(s: &[char], lo: usize, hi: usize) -> (b: bool)
    requires
        lo <= hi <= s@.len(),
    ensures
        b == is_mantissa(s@.subrange(lo as int, hi as int)),
{
    let ghost m = s@.subrange(lo as int, hi as int);
    let mut i: usize = lo;
    let mut dot: Option<usize> = None;
    let mut digit: Option<usize> = None;
    while i < hi
        invariant
            lo <= i <= hi <= s@.len(),
            m == s@.subrange(lo as int, hi as int),
            forall|k: int| 0 <= k < i - lo ==> is_ascii_digit(#[trigger] m[k]) || m[k] == '.',
            match dot {
                Some(d) => lo <= d < i && m[d - lo] == '.' && forall|k: int|
                    0 <= k < i - lo && m[k] == '.' ==> k == d - lo,
                None => forall|k: int| 0 <= k < i - lo ==> m[k] != '.',
            },
            match digit {
                Some(d) => lo <= d < i && is_ascii_digit(m[d - lo]),
                None => forall|k: int| 0 <= k < i - lo ==> !is_ascii_digit(#[trigger] m[k]),
            },
        decreases hi - i,
    {
        let c = s[i];
        assert(m[i - lo] == c);
        if char_is_ascii_digit(c) {
            digit = Some(i);
        } else if c == '.' {
            if dot.is_some() {
                return false;
            }
            dot = Some(i);
        } else {
            return false;
        }
        i = i + 1;
    }
    match digit {
        Some(d) => {
            assert(is_ascii_digit(m[d - lo]));
            true
        },
        None => false,
    }
}

/// Whether `s[lo..hi]` is an exponent (after its marker).
fn range_is_exponent(s: &[char], lo: usize, hi: usize) -> (b: bool)
    requires
        lo <= hi <= s@.len(),
    ensures
        b == is_exponent(s@.subrange(lo as int, hi as int)),
{
    let ghost e = s@.subrange(lo as int, hi as int);
    let start = if lo < hi && (s[lo] == '+' || s[lo] == '-') {
        lo + 1
    } else {
        lo
    };
    let ghost d = unsigned_part(e);
    assert(d =~= s@.subrange(start as int, hi as int));
    if start == hi {
        return false;
    }
    let mut i: usize = start;
    while i < hi
        invariant
            lo <= start <= i <= hi <= s@.len(),
            e == s@.subrange(lo as int, hi as int),
            d == unsigned_part(e),
            d == s@.subrange(start as int, hi as int),
            forall|k: int| 0 <= k < i - start ==> is_ascii_digit(#[trigger] d[k]),
        decreases hi - i,
    {
        assert(d[i - start] == s@[i as int]);
        if !char_is_ascii_digit(s[i]) {
            assert(!is_ascii_digit(d[i - start]));
            return false;
        }
        i = i + 1;
    }
    true
}

/// Whether `s` is in the syntax that `str::parse::<f32>` accepts.
pub fn is_float_literal_exec(s: &[char]) -> (b: bool)
    ensures
        b == is_float_literal(s@),
        s@.len() > 0 && all_digits(s@) ==> b,
        s@.len() == 0 ==> !b,
{
    proof {
        digits_are_float_literals(s@);
        empty_is_not_float_literal();
    }
    let n = s.len();
    let lo: usize = if n > 0 && (s[0] == '+' || s[0] == '-') {
        1
    } else {
        0
    };
    let ghost body = unsigned_part(s@);
    assert(body =~= s@.subrange(lo as int, n as int));
    let inf: [char; 3] = ['i', 'n', 'f'];
    let infinity: [char; 8] = ['i', 'n', 'f', 'i', 'n', 'i', 't', 'y'];
    let nan: [char; 3] = ['n', 'a', 'n'];
    assert(inf@ =~= seq!['i', 'n', 'f']);
    assert(infinity@ =~= seq!['i', 'n', 'f', 'i', 'n', 'i', 't', 'y']);
    assert(nan@ =~= seq!['n', 'a', 'n']);
    if range_equals_ignoring_case(s, lo, n, &inf) || range_equals_ignoring_case(
        s,
        lo,
        n,
        &infinity,
    ) || range_equals_ignoring_case(s, lo, n, &nan) {
        return true;
    }
    range_is_decimal(s, lo, n)
}

/// Whether `s[lo..n]`, the rest of `s`, is a decimal number.
fn range_is_decimal(s: &[char], lo: usize, n: usize) -> (r: bool)
    requires
        lo <= n,
        n == s@.len(),
    ensures
        r == is_decimal(s@.subrange(lo as int, n as int)),
{
    let ghost body = s@.subrange(lo as int, n as int);
    // The first exponent marker, if any, ends the mantissa.
    let mut k: usize = lo;
    while k < n && !(s[k] == 'e' || s[k] == 'E')
        invariant
            lo <= k <= n,
            n == s@.len(),
            forall|j: int| lo <= j < k ==> !is_exponent_marker(#[trigger] s@[j]),
        decreases n - k,
    {
        k = k + 1;
    }
    if k == n {
        let r = range_is_mantissa(s, lo, n);
        assert(r == is_decimal(body)) by {
            if exists|j: int|
                0 <= j < body.len() && is_exponent_marker(#[trigger] body[j]) && is_mantissa(
                    body.take(j),
                ) && is_exponent(body.skip(j + 1)) {
                let j = choose|j: int|
                    0 <= j < body.len() && is_exponent_marker(#[trigger] body[j]) && is_mantissa(
                        body.take(j),
                    ) && is_exponent(body.skip(j + 1));
                assert(body[j] == s@[lo + j]);
            }
        }
        r
    } else {
        let km = k - lo;
        assert(body[km as int] == s@[k as int]);
        assert(body.take(km as int) =~= s@.subrange(lo as int, k as int));
        assert(body.skip(km + 1) =~= s@.subrange(k + 1, n as int));
        let r = range_is_mantissa(s, lo, k) && range_is_exponent(s, k + 1, n);
        assert(r == is_decimal(body)) by {
            // No mantissa holds an exponent marker.
            assert(!is_mantissa(body)) by {
                if is_mantissa(body) {
                    assert(is_ascii_digit(body[km as int]) || body[km as int] == '.');
                }
            }
            if !r && is_decimal(body) {
                let j = choose|j: int|
                    0 <= j < body.len() && is_exponent_marker(#[trigger] body[j]) && is_mantissa(
                        body.take(j),
                    ) && is_exponent(body.skip(j + 1));
                if j < km {
                    assert(body[j] == s@[lo + j]);
                } else if j > km {
                    assert(body.take(j)[km as int] == body[km as int]);
                }
            }
        }
        r
    }
}


/// Any non-empty run of ASCII digits (`0` among them) parses as an `f32`,
/// with or without a sign in front.
pub proof fn digits_are_float_literals(s: Seq<char>)
    ensures
        s.len() > 0 && all_digits(s) ==> is_float_literal(s),
        s.len() > 0 && all_digits(s) ==> is_float_literal(seq!['-'] + s) && is_float_literal(
            seq!['+'] + s,
        ),
{
    if s.len() > 0 && all_digits(s) {
        assert(is_ascii_digit(s[0]));
        assert(is_mantissa(s));
        assert(unsigned_part(s) == s);
        assert((seq!['-'] + s).drop_first() =~= s);
        assert((seq!['+'] + s).drop_first() =~= s);
    }
}

/// Digits, one decimal point, digits, with at least one digit in all,
/// parse as an `f32`: `0.5`, `3.`, `.25`.
pub proof fn decimal_fractions_are_float_literals(a: Seq<char>, b: Seq<char>)
    requires
        all_digits(a),
        all_digits(b),
        a.len() + b.len() > 0,
    ensures
        is_float_literal(a + seq!['.'] + b),
{
    let s = a + seq!['.'] + b;
    assert forall|i: int| 0 <= i < s.len() implies is_ascii_digit(#[trigger] s[i]) || s[i] == '.' by {
        if i < a.len() {
            assert(s[i] == a[i]);
        } else if i > a.len() {
            assert(s[i] == b[i - a.len() - 1]);
        }
    }
    assert forall|i: int, j: int|
        0 <= i < s.len() && 0 <= j < s.len() && s[i] == '.' && s[j] == '.' implies i == j by {
        if i < a.len() {
            assert(s[i] == a[i]);
            assert(is_ascii_digit(a[i]));
        } else if i > a.len() {
            assert(s[i] == b[i - a.len() - 1]);
            assert(is_ascii_digit(b[i - a.len() - 1]));
        }
        if j < a.len() {
            assert(s[j] == a[j]);
            assert(is_ascii_digit(a[j]));
        } else if j > a.len() {
            assert(s[j] == b[j - a.len() - 1]);
            assert(is_ascii_digit(b[j - a.len() - 1]));
        }
    }
    if a.len() > 0 {
        assert(s[0] == a[0]);
        assert(is_ascii_digit(a[0]));
    } else {
        assert(s[1] == b[0]);
        assert(is_ascii_digit(b[0]));
    }
    assert(is_mantissa(s));
    assert(!is_sign(s[0]));
    assert(unsigned_part(s) == s);
}

/// The empty text does not parse as an `f32`, nor does a lone point.
pub proof fn empty_is_not_float_literal()
    ensures
        !is_float_literal(Seq::<char>::empty()),
        !is_float_literal(seq!['.']),
{
    let e = Seq::<char>::empty();
    assert(unsigned_part(e) == e);
    assert(!is_mantissa(e));
    let d = seq!['.'];
    assert(unsigned_part(d) == d);
    assert(!is_mantissa(d)) by {
        if is_mantissa(d) {
            let i = choose|i: int| 0 <= i < d.len() && is_ascii_digit(#[trigger] d[i]);
            assert(i == 0);
        }
    }
    assert(!is_decimal(d)) by {
        if exists|k: int| 0 <= k < d.len() && is_exponent_marker(#[trigger] d[k]) && is_mantissa(
            d.take(k),
        ) && is_exponent(d.skip(k + 1)) {
            let k = choose|k: int|
                0 <= k < d.len() && is_exponent_marker(#[trigger] d[k]) && is_mantissa(d.take(k))
                    && is_exponent(d.skip(k + 1));
            assert(k == 0);
        }
    }
}


/// Digits, an exponent marker (`e` or `E`) and digits parse as an `f32`:
/// `1e5`, `25E3`.
pub proof fn exponents_are_float_literals(a: Seq<char>, e: char, b: Seq<char>)
    requires
        a.len() > 0,
        all_digits(a),
        e == 'e' || e == 'E',
        b.len() > 0,
        all_digits(b),
    ensures
        is_float_literal(a + seq![e] + b),
{
    let s = a + seq![e] + b;
    let k = a.len() as int;
    assert(s.take(k) =~= a);
    assert(s.skip(k + 1) =~= b);
    assert(is_ascii_digit(a[0]));
    assert(is_mantissa(a));
    assert(!is_sign(b[0])) by {
        assert(is_ascii_digit(b[0]));
    }
    assert(unsigned_part(b) == b);
    assert(s[k] == e);
    assert(s[0] == a[0]);
    assert(unsigned_part(s) == s);
    assert(is_decimal(s));
}

/// `inf`, `infinity` and `nan` parse as an `f32`, in lower or upper case.
pub proof fn special_values_are_float_literals()
    ensures
        is_float_literal(seq!['i', 'n', 'f']),
        is_float_literal(seq!['I', 'N', 'F']),
        is_float_literal(seq!['i', 'n', 'f', 'i', 'n', 'i', 't', 'y']),
        is_float_literal(seq!['n', 'a', 'n']),
        is_float_literal(seq!['N', 'a', 'N']),
{
    assert(ascii_lower('I') == 'i') by {
        assert((('I' as u32) + 32) as char == 'i');
    }
    assert(ascii_lower('N') == 'n') by {
        assert((('N' as u32) + 32) as char == 'n');
    }
    assert(ascii_lower('F') == 'f') by {
        assert((('F' as u32) + 32) as char == 'f');
    }
    assert(unsigned_part(seq!['i', 'n', 'f']) =~= seq!['i', 'n', 'f']);
    assert(unsigned_part(seq!['I', 'N', 'F']) =~= seq!['I', 'N', 'F']);
    assert(unsigned_part(seq!['i', 'n', 'f', 'i', 'n', 'i', 't', 'y']) =~= seq!['i', 'n', 'f', 'i', 'n', 'i', 't', 'y']);
    assert(unsigned_part(seq!['n', 'a', 'n']) =~= seq!['n', 'a', 'n']);
    assert(unsigned_part(seq!['N', 'a', 'N']) =~= seq!['N', 'a', 'N']);
}

} // verus!
