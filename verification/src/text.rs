//! Character-level text handling: the whitespace class that `str::trim`
//! strips, removal of every occurrence of a pattern, and trimming.

use vstd::prelude::*;

verus! {

broadcast use vstd::string::group_string_axioms;

/// The Unicode `White_Space` property, which is what `char::is_whitespace`
/// tests and what `str::trim` strips from both ends.
pub open spec fn is_white_space(c: char) -> bool {
    let u = c as u32;
    ||| 0x09 <= u <= 0x0D
    ||| u == 0x20
    ||| u == 0x85
    ||| u == 0xA0
    ||| u == 0x1680
    ||| 0x2000 <= u <= 0x200A
    ||| u == 0x2028
    ||| u == 0x2029
    ||| u == 0x202F
    ||| u == 0x205F
    ||| u == 0x3000
}

/// Tests whether `c` has the Unicode `White_Space` property.
pub fn char_is_white_space(c: char) -> (b: bool)
    ensures
        b == is_white_space(c),
{
    let u = c as u32;
    (0x09 <= u && u <= 0x0D) || u == 0x20 || u == 0x85 || u == 0xA0 || u == 0x1680 || (0x2000
        <= u && u <= 0x200A) || u == 0x2028 || u == 0x2029 || u == 0x202F || u == 0x205F || u
        == 0x3000
}

/// The characters of `s`, in order.
pub fn chars_of(s: &str) -> (v: Vec<char>)
    ensures
        v@ == s@,
{
    let mut v: Vec<char> = Vec::new();
    for c in it: s.chars()
        invariant
            v@ == it.seq().take(it.index() as int),
    {
        v.push(c);
    }
    v
}


/// `String::push`: appends `c` to the end of `s`.
#[verifier::external_body]
fn string_push(s: &mut String, c: char)
    ensures
        final(s)@ == old(s)@.push(c),
{
    s.push(c);
}

/// A string made of the characters of `v`, in order.
pub fn string_of(v: &[char]) -> (s: String)
    ensures
        s@ == v@,
{
    let mut s = String::new();
    let n = v.len();
    let mut i: usize = 0;
    while i < n
        invariant
            n == v@.len(),
            i <= n,
            s@ == v@.take(i as int),
        decreases n - i,
    {
        string_push(&mut s, v[i]);
        i = i + 1;
        assert(v@.take(i as int) == v@.take((i - 1) as int).push(v@[i - 1]));
    }
    assert(v@.take(n as int) == v@);
    s
}

/// Whether `p` occurs in `s` starting at index `i`.
pub open spec fn occurs_at(s: Seq<char>, p: Seq<char>, i: int) -> bool {
    0 <= i && i + p.len() <= s.len() && s.subrange(i, i + p.len()) == p
}

/// `s` with every occurrence of the non-empty pattern `p` deleted, the
/// occurrences taken from left to right without overlap (what
/// `str::replace(p, "")` gives).
pub open spec fn remove_all(s: Seq<char>, p: Seq<char>) -> Seq<char>
    decreases s.len(),
{
    if p.len() == 0 || s.len() == 0 {
        s
    } else if occurs_at(s, p, 0) {
        remove_all(s.skip(p.len() as int), p)
    } else {
        seq![s[0]] + remove_all(s.drop_first(), p)
    }
}

/// Whether `p` occurs in `v` at index `i`.
fn matches_at(v: &[char], p: &[char], i: usize) -> (b: bool)
    requires
        i <= v@.len(),
    ensures
        b == occurs_at(v@, p@, i as int),
{
    if p.len() > v.len() - i {
        return false;
    }
    let mut j: usize = 0;
    while j < p.len()
        invariant
            i + p@.len() <= v@.len(),
            v@.len() <= usize::MAX,
            j <= p@.len(),
            forall|k: int| 0 <= k < j ==> v@[i + k] == p@[k],
        decreases p@.len() - j,
    {
        if v[i + j] != p[j] {
            assert(v@.subrange(i as int, i + p@.len())[j as int] != p@[j as int]);
            return false;
        }
        j = j + 1;
    }
    assert(v@.subrange(i as int, i + p@.len()) =~= p@);
    true
}

/// Deletes every occurrence of the non-empty pattern `p` from `v`, taking
/// occurrences from left to right without overlap.
pub fn remove_all_exec(v: &[char], p: &[char]) -> (r: Vec<char>)
    requires
        p@.len() > 0,
    ensures
        r@ == remove_all(v@, p@),
{
    let mut r: Vec<char> = Vec::new();
    let mut i: usize = 0;
    let n = v.len();
    assert(v@.skip(0) =~= v@);
    while i < n
        invariant
            n == v@.len(),
            i <= n,
            p@.len() > 0,
            r@ + remove_all(v@.skip(i as int), p@) == remove_all(v@, p@),
        decreases n - i,
    {
        let ghost rest = v@.skip(i as int);
        if matches_at(v, p, i) {
            assert(rest.subrange(0, p@.len() as int) =~= v@.subrange(i as int, i + p@.len()));
            assert(rest.skip(p@.len() as int) =~= v@.skip(i + p@.len()));
            i = i + p.len();
        } else {
            assert(!occurs_at(rest, p@, 0)) by {
                if rest.len() >= p@.len() {
                    assert(rest.subrange(0, p@.len() as int) =~= v@.subrange(
                        i as int,
                        i + p@.len(),
                    ));
                }
            }
            assert(rest.drop_first() =~= v@.skip(i + 1));
            let ghost old_r = r@;
            r.push(v[i]);
            assert(r@ + remove_all(v@.skip(i + 1), p@) =~= old_r + remove_all(rest, p@));
            i = i + 1;
        }
    }
    assert(v@.skip(n as int) =~= Seq::<char>::empty());
    assert(r@ + Seq::<char>::empty() =~= r@);
    r
}


/// `s` without its leading white space.
pub open spec fn trim_start(s: Seq<char>) -> Seq<char>
    decreases s.len(),
{
    if s.len() > 0 && is_white_space(s[0]) {
        trim_start(s.drop_first())
    } else {
        s
    }
}

/// `s` without its trailing white space.
pub open spec fn trim_end(s: Seq<char>) -> Seq<char>
    decreases s.len(),
{
    if s.len() > 0 && is_white_space(s.last()) {
        trim_end(s.drop_last())
    } else {
        s
    }
}

/// `s` without leading and trailing white space (what `str::trim` gives).
pub open spec fn trim(s: Seq<char>) -> Seq<char> {
    trim_end(trim_start(s))
}

proof fn lemma_trim_start_skip(s: Seq<char>, a: int)
    requires
        0 <= a <= s.len(),
        forall|k: int| 0 <= k < a ==> is_white_space(#[trigger] s[k]),
        a == s.len() || !is_white_space(s[a]),
    ensures
        trim_start(s) == s.skip(a),
    decreases a,
{
    if a == 0 {
        assert(s.skip(0) =~= s);
    } else {
        let t = s.drop_first();
        assert forall|k: int| 0 <= k < a - 1 implies is_white_space(#[trigger] t[k]) by {
            assert(t[k] == s[k + 1]);
        }
        lemma_trim_start_skip(t, a - 1);
        assert(t.skip(a - 1) =~= s.skip(a));
    }
}

proof fn lemma_trim_end_take(s: Seq<char>, b: int)
    requires
        0 <= b <= s.len(),
        forall|k: int| b <= k < s.len() ==> is_white_space(#[trigger] s[k]),
        b == 0 || !is_white_space(s[b - 1]),
    ensures
        trim_end(s) == s.take(b),
    decreases s.len() - b,
{
    if b == s.len() {
        assert(s.take(b) =~= s);
    } else {
        let t = s.drop_last();
        assert forall|k: int| b <= k < t.len() implies is_white_space(#[trigger] t[k]) by {
            assert(t[k] == s[k]);
        }
        lemma_trim_end_take(t, b);
        assert(t.take(b) =~= s.take(b));
    }
}

/// Removes the leading and trailing white space of `v`.
pub fn trim_exec(v: &[char]) -> (r: Vec<char>)
    ensures
        r@ == trim(v@),
{
    let n = v.len();
    let mut a: usize = 0;
    while a < n && char_is_white_space(v[a])
        invariant
            n == v@.len(),
            a <= n,
            forall|k: int| 0 <= k < a ==> is_white_space(#[trigger] v@[k]),
        decreases n - a,
    {
        a = a + 1;
    }
    proof {
        lemma_trim_start_skip(v@, a as int);
    }
    let ghost t = v@.skip(a as int);
    let mut b: usize = n;
    while b > a && char_is_white_space(v[b - 1])
        invariant
            n == v@.len(),
            a <= b <= n,
            t == v@.skip(a as int),
            forall|k: int| b <= k < n ==> is_white_space(#[trigger] v@[k]),
        decreases b - a,
    {
        b = b - 1;
    }
    proof {
        assert forall|k: int| b - a <= k < t.len() implies is_white_space(#[trigger] t[k]) by {
            assert(t[k] == v@[k + a]);
        }
        if b > a {
            assert(t[b - a - 1] == v@[b - 1]);
        }
        lemma_trim_end_take(t, b - a);
    }
    let mut r: Vec<char> = Vec::new();
    let mut i: usize = a;
    while i < b
        invariant
            n == v@.len(),
            a <= i <= b <= n,
            r@ == v@.subrange(a as int, i as int),
        decreases b - i,
    {
        r.push(v[i]);
        i = i + 1;
        assert(r@ =~= v@.subrange(a as int, i as int));
    }
    assert(t.take(b - a) =~= v@.subrange(a as int, b as int));
    r
}


/// Whether the pattern `p` occurs anywhere in `s`.
pub open spec fn contains_pattern(s: Seq<char>, p: Seq<char>) -> bool {
    exists|i: int| occurs_at(s, p, i)
}

/// `k` copies of the character `c`.
pub open spec fn run_of(c: char, k: nat) -> Seq<char> {
    Seq::new(k, |i: int| c)
}

/// Deleting the occurrences of a pattern that does not occur changes nothing.
pub proof fn lemma_remove_all_absent(s: Seq<char>, p: Seq<char>)
    requires
        p.len() > 0,
        !contains_pattern(s, p),
    ensures
        remove_all(s, p) == s,
    decreases s.len(),
{
    if s.len() > 0 {
        assert(!occurs_at(s, p, 0));
        let t = s.drop_first();
        assert forall|i: int| !occurs_at(t, p, i) by {
            if occurs_at(t, p, i) {
                assert(s.subrange(i + 1, i + 1 + p.len()) =~= t.subrange(i, i + p.len()));
                assert(occurs_at(s, p, i + 1));
            }
        }
        lemma_remove_all_absent(t, p);
        assert(seq![s[0]] + t =~= s);
    }
}

/// Every character that deleting occurrences of `p` leaves was already in `s`:
/// a character absent from `s` stays absent.
pub proof fn lemma_remove_all_keeps_absent(s: Seq<char>, p: Seq<char>, c: char)
    requires
        p.len() > 0,
        forall|j: int| 0 <= j < s.len() ==> s[j] != c,
    ensures
        forall|i: int| 0 <= i < remove_all(s, p).len() ==> remove_all(s, p)[i] != c,
    decreases s.len(),
{
    if s.len() > 0 {
        if occurs_at(s, p, 0) {
            lemma_remove_all_keeps_absent(s.skip(p.len() as int), p, c);
            assert(remove_all(s, p) == remove_all(s.skip(p.len() as int), p));
        } else {
            lemma_remove_all_keeps_absent(s.drop_first(), p, c);
            let r = remove_all(s.drop_first(), p);
            assert(remove_all(s, p) == seq![s[0]] + r);
            assert forall|i: int| 0 <= i < (seq![s[0]] + r).len() implies (seq![s[0]]
                + r)[i] != c by {
                if i > 0 {
                    assert((seq![s[0]] + r)[i] == r[i - 1]);
                }
            }
        }
    }
}

/// Deleting every occurrence of the one-character pattern `c` leaves no `c`.
pub proof fn lemma_remove_all_char(s: Seq<char>, c: char)
    ensures
        forall|i: int|
            0 <= i < remove_all(s, seq![c]).len() ==> remove_all(s, seq![c])[i] != c,
    decreases s.len(),
{
    if s.len() > 0 {
        if occurs_at(s, seq![c], 0) {
            lemma_remove_all_char(s.skip(1), c);
            assert(remove_all(s, seq![c]) == remove_all(s.skip(1), seq![c]));
        } else {
            assert(s.subrange(0, 1) =~= seq![s[0]]);
            lemma_remove_all_char(s.drop_first(), c);
            let r = remove_all(s.drop_first(), seq![c]);
            assert(remove_all(s, seq![c]) == seq![s[0]] + r);
            assert forall|i: int| 0 <= i < (seq![s[0]] + r).len() implies (seq![s[0]]
                + r)[i] != c by {
                if i > 0 {
                    assert((seq![s[0]] + r)[i] == r[i - 1]);
                }
            }
        }
    }
}

/// The number of copies of `c` that `s` starts with.
pub open spec fn leading_run(s: Seq<char>, c: char) -> nat
    decreases s.len(),
{
    if s.len() > 0 && s[0] == c {
        1 + leading_run(s.drop_first(), c)
    } else {
        0
    }
}

proof fn lemma_leading_run(s: Seq<char>, c: char)
    ensures
        leading_run(s, c) <= s.len(),
        forall|i: int| 0 <= i < leading_run(s, c) ==> s[i] == c,
        leading_run(s, c) == s.len() || s[leading_run(s, c) as int] != c,
    decreases s.len(),
{
    if s.len() > 0 && s[0] == c {
        let t = s.drop_first();
        lemma_leading_run(t, c);
        assert forall|i: int| 0 <= i < leading_run(s, c) implies s[i] == c by {
            if i > 0 {
                assert(s[i] == t[i - 1]);
            }
        }
    }
}

/// A run of fewer than `k` copies of `c` at the front passes through
/// unchanged when the pattern is `k` copies of `c`.
proof fn lemma_remove_all_short_run(s: Seq<char>, c: char, k: nat, j: nat)
    requires
        j < k,
        j <= s.len(),
        forall|i: int| 0 <= i < j ==> s[i] == c,
        j == s.len() || s[j as int] != c,
    ensures
        remove_all(s, run_of(c, k)) == s.take(j as int) + remove_all(s.skip(j as int), run_of(c, k)),
    decreases j,
{
    let p = run_of(c, k);
    if j == 0 {
        assert(s.take(0) + s.skip(0) =~= s);
        assert(s.take(0) + remove_all(s, p) =~= remove_all(s, p));
        assert(s.skip(0) =~= s);
    } else {
        assert(!occurs_at(s, p, 0)) by {
            if occurs_at(s, p, 0) {
                if j < s.len() {
                    assert(s.subrange(0, k as int)[j as int] == s[j as int]);
                }
            }
        }
        let t = s.drop_first();
        assert forall|i: int| 0 <= i < j - 1 implies t[i] == c by {
            assert(t[i] == s[i + 1]);
        }
        if j < s.len() {
            assert(t[j - 1] == s[j as int]);
        }
        lemma_remove_all_short_run(t, c, k, (j - 1) as nat);
        assert(t.skip(j - 1) =~= s.skip(j as int));
        assert(seq![s[0]] + t.take(j - 1) =~= s.take(j as int));
    }
}

/// Deleting every run of `k` copies of `c` leaves no such run: what is left
/// of a long run is shorter than `k`, and never joins the text around it.
pub proof fn lemma_remove_all_run(s: Seq<char>, c: char, k: nat)
    requires
        k > 0,
    ensures
        !contains_pattern(remove_all(s, run_of(c, k)), run_of(c, k)),
    decreases s.len(),
{
    let p = run_of(c, k);
    let r = remove_all(s, p);
    if s.len() == 0 {
    } else if occurs_at(s, p, 0) {
        lemma_remove_all_run(s.skip(k as int), c, k);
    } else if s[0] != c {
        let t = s.drop_first();
        lemma_remove_all_run(t, c, k);
        let r1 = remove_all(t, p);
        assert(r == seq![s[0]] + r1);
        assert forall|i: int| !occurs_at(r, p, i) by {
            if occurs_at(r, p, i) {
                if i == 0 {
                    assert(r.subrange(0, k as int)[0] == r[0]);
                } else {
                    assert(r1.subrange(i - 1, i - 1 + k) =~= r.subrange(i, i + k));
                    assert(occurs_at(r1, p, i - 1));
                }
            }
        }
    } else {
        lemma_leading_run(s, c);
        let j = leading_run(s, c);
        assert(j < k) by {
            if j >= k {
                assert(s.subrange(0, k as int) =~= p);
            }
        }
        lemma_remove_all_short_run(s, c, k, j);
        let rest = s.skip(j as int);
        lemma_remove_all_run(rest, c, k);
        let r2 = remove_all(rest, p);
        assert(r == s.take(j as int) + r2);
        assert(r2.len() > 0 ==> r2[0] == rest[0]) by {
            if r2.len() > 0 {
                assert(!occurs_at(rest, p, 0)) by {
                    if occurs_at(rest, p, 0) {
                        assert(rest.subrange(0, k as int)[0] == rest[0]);
                        assert(rest[0] == s[j as int]);
                    }
                }
            }
        }
        assert forall|i: int| !occurs_at(r, p, i) by {
            if occurs_at(r, p, i) {
                if i >= j {
                    assert(r2.subrange(i - j, i - j + k) =~= r.subrange(i, i + k));
                    assert(occurs_at(r2, p, i - j));
                } else {
                    assert(r.subrange(i, i + k)[j - i] == r[j as int]);
                    assert(r[j as int] == r2[0]);
                    assert(rest[0] == s[j as int]);
                }
            }
        }
    }
}


/// `trim` takes a contiguous part of `s` that neither starts nor ends with
/// white space.
pub proof fn lemma_trim_shape(s: Seq<char>) -> (ab: (int, int))
    ensures
        0 <= ab.0 <= ab.1 <= s.len(),
        trim(s) == s.subrange(ab.0, ab.1),
        trim(s).len() > 0 ==> !is_white_space(trim(s)[0]) && !is_white_space(trim(s).last()),
{
    let a = lemma_trim_start_shape(s);
    let t = trim_start(s);
    let b = lemma_trim_end_shape(t);
    assert(t.take(b) =~= s.subrange(a, a + b));
    if trim(s).len() > 0 {
        assert(trim(s)[0] == t[0]);
    }
    (a, a + b)
}

proof fn lemma_trim_start_shape(s: Seq<char>) -> (a: int)
    ensures
        0 <= a <= s.len(),
        trim_start(s) == s.skip(a),
        trim_start(s).len() > 0 ==> !is_white_space(trim_start(s)[0]),
    decreases s.len(),
{
    if s.len() > 0 && is_white_space(s[0]) {
        let a = lemma_trim_start_shape(s.drop_first());
        assert(s.drop_first().skip(a) =~= s.skip(a + 1));
        a + 1
    } else {
        assert(s.skip(0) =~= s);
        0
    }
}

proof fn lemma_trim_end_shape(s: Seq<char>) -> (b: int)
    ensures
        0 <= b <= s.len(),
        trim_end(s) == s.take(b),
        trim_end(s).len() > 0 ==> !is_white_space(trim_end(s).last()),
    decreases s.len(),
{
    if s.len() > 0 && is_white_space(s.last()) {
        let b = lemma_trim_end_shape(s.drop_last());
        assert(s.drop_last().take(b) =~= s.take(b));
        b
    } else {
        assert(s.take(s.len() as int) =~= s);
        s.len() as int
    }
}

/// A text that neither starts nor ends with white space is its own trim.
pub proof fn lemma_trim_trimmed(s: Seq<char>)
    requires
        s.len() > 0 ==> !is_white_space(s[0]) && !is_white_space(s.last()),
    ensures
        trim(s) == s,
{
}

/// A character absent from `s` is absent from every part of it.
pub proof fn lemma_subrange_keeps_absent(s: Seq<char>, a: int, b: int, c: char)
    requires
        0 <= a <= b <= s.len(),
        forall|j: int| 0 <= j < s.len() ==> s[j] != c,
    ensures
        forall|i: int| 0 <= i < s.subrange(a, b).len() ==> s.subrange(a, b)[i] != c,
{
    assert forall|i: int| 0 <= i < s.subrange(a, b).len() implies s.subrange(a, b)[i] != c by {
        assert(s.subrange(a, b)[i] == s[a + i]);
    }
}

/// A pattern absent from `s` is absent from every part of it.
pub proof fn lemma_subrange_keeps_pattern_absent(s: Seq<char>, a: int, b: int, p: Seq<char>)
    requires
        0 <= a <= b <= s.len(),
        !contains_pattern(s, p),
    ensures
        !contains_pattern(s.subrange(a, b), p),
{
    let t = s.subrange(a, b);
    assert forall|i: int| !occurs_at(t, p, i) by {
        if occurs_at(t, p, i) {
            assert(s.subrange(a + i, a + i + p.len()) =~= t.subrange(i, i + p.len()));
            assert(occurs_at(s, p, a + i));
        }
    }
}

} // verus!
