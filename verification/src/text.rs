//! Character-level helpers on strings: collecting the characters of a
//! string, searching for a sub-sequence, prefixes and trimming.
use vstd::prelude::*;

verus! {

broadcast use vstd::string::group_string_axioms;

/// `pat` occurs in `s` as a contiguous run of characters.
pub open spec fn contains_seq(s: Seq<char>, pat: Seq<char>) -> bool {
    exists|i: int| 0 <= i <= s.len() - pat.len() && #[trigger] s.subrange(i, i + pat.len()) == pat
}

/// The characters of `s`, in order.
pub fn chars_of(s: &str) -> (v: Vec<char>)
    ensures
        v@ == s@,
{
    let mut v: Vec<char> = Vec::new();
    for c in it: s.chars()
        invariant
            it.seq() == s@,
            v@ == s@.take(it.index()),
    {
        assert(s@.take(it.index() + 1) =~= s@.take(it.index()).push(c));
        v.push(c);
    }
    assert(s@.take(s@.len() as int) =~= s@);
    v
}

/// Whether `pat` occurs in `hay` at position `at`.
fn matches_at(hay: &Vec<char>, pat: &Vec<char>, at: usize) -> (r: bool)
    requires
        at + pat@.len() <= hay@.len(),
    ensures
        r == (hay@.subrange(at as int, at + pat@.len()) == pat@),
{
    let m = pat.len();
    let n = hay.len();
    let mut j: usize = 0;
    while j < m
        invariant
            0 <= j <= m,
            m == pat@.len(),
            n == hay@.len(),
            at + m <= hay@.len(),
            forall|k: int| 0 <= k < j ==> hay@[at + k] == pat@[k],
        decreases m - j,
    {
        if hay[at + j] != pat[j] {
            assert(hay@.subrange(at as int, at + pat@.len())[j as int] != pat@[j as int]);
            return false;
        }
        j = j + 1;
    }
    assert(hay@.subrange(at as int, at + pat@.len()) =~= pat@);
    true
}

/// Whether `pat` occurs in `hay`.
pub fn contains_chars(hay: &Vec<char>, pat: &Vec<char>) -> (r: bool)
    ensures
        r == contains_seq(hay@, pat@),
{
    let n = hay.len();
    let m = pat.len();
    if m > n {
        return false;
    }
    if m == 0 {
        assert(hay@.subrange(0, 0int + pat@.len()) =~= pat@);
        return true;
    }
    let mut i: usize = 0;
    while i <= n - m
        invariant
            n == hay@.len(),
            m == pat@.len(),
            1 <= m <= n,
            0 <= i <= n - m + 1,
            forall|j: int| 0 <= j < i ==> #[trigger] hay@.subrange(j, j + m) != pat@,
        decreases n - m + 1 - i,
    {
        if matches_at(hay, pat, i) {
            assert(hay@.subrange(i as int, i + pat@.len()) == pat@);
            return true;
        }
        i = i + 1;
    }
    assert forall|j: int| 0 <= j <= hay@.len() - pat@.len() implies #[trigger] hay@.subrange(
        j,
        j + pat@.len(),
    ) != pat@ by {
        assert(j < i);
    }
    false
}

/// Whether `a` and `b` hold the same characters.
pub fn str_eq(a: &str, b: &str) -> (r: bool)
    ensures
        r == (a@ == b@),
{
    let x = chars_of(a);
    let y = chars_of(b);
    let n = x.len();
    if n != y.len() {
        return false;
    }
    let mut i: usize = 0;
    while i < n
        invariant
            0 <= i <= n,
            n == x@.len(),
            n == y@.len(),
            x@ == a@,
            y@ == b@,
            forall|k: int| 0 <= k < i ==> x@[k] == y@[k],
        decreases n - i,
    {
        if x[i] != y[i] {
            return false;
        }
        i = i + 1;
    }
    assert(x@ =~= y@);
    true
}

/// What follows `prefix` in `s`, when `s` starts with it.
pub open spec fn strip_prefix_spec(s: Seq<char>, prefix: Seq<char>) -> Option<Seq<char>> {
    if prefix.len() <= s.len() && s.take(prefix.len() as int) == prefix {
        Some(s.skip(prefix.len() as int))
    } else {
        None
    }
}

/// `s` without `prefix`, when `s` starts with it; as `str::strip_prefix`.
pub fn strip_prefix(s: &str, prefix: &str) -> (r: Option<String>)
    ensures
        r is Some <==> strip_prefix_spec(s@, prefix@) is Some,
        r matches Some(rest) ==> Some(rest@) == strip_prefix_spec(s@, prefix@),
{
    let x = chars_of(s);
    let p = chars_of(prefix);
    let n = x.len();
    let m = p.len();
    if m > n {
        return None;
    }
    let mut i: usize = 0;
    while i < m
        invariant
            0 <= i <= m <= n,
            n == x@.len(),
            m == p@.len(),
            x@ == s@,
            p@ == prefix@,
            forall|k: int| 0 <= k < i ==> x@[k] == p@[k],
        decreases m - i,
    {
        if x[i] != p[i] {
            assert(s@.take(m as int)[i as int] != prefix@[i as int]);
            return None;
        }
        i = i + 1;
    }
    assert(s@.take(m as int) =~= prefix@);
    let rest = s.substring_char(m, n);
    Some(rest.to_owned())
}

/// A character with the Unicode `White_Space` property, the characters
/// that `char::is_whitespace` accepts.
pub open spec fn is_white_space(c: char) -> bool {
    let v = c as u32;
    ||| 0x9 <= v <= 0xd
    ||| v == 0x20
    ||| v == 0x85
    ||| v == 0xa0
    ||| v == 0x1680
    ||| 0x2000 <= v <= 0x200a
    ||| v == 0x2028
    ||| v == 0x2029
    ||| v == 0x202f
    ||| v == 0x205f
    ||| v == 0x3000
}

/// `s` without its leading white space.
pub open spec fn trim_start_spec(s: Seq<char>) -> Seq<char>
    decreases s.len(),
{
    if s.len() > 0 && is_white_space(s[0]) {
        trim_start_spec(s.drop_first())
    } else {
        s
    }
}

/// `s` without its trailing white space.
pub open spec fn trim_end_spec(s: Seq<char>) -> Seq<char>
    decreases s.len(),
{
    if s.len() > 0 && is_white_space(s.last()) {
        trim_end_spec(s.drop_last())
    } else {
        s
    }
}

/// `s` without leading and trailing white space, as `str::trim` gives it.
pub open spec fn trim_spec(s: Seq<char>) -> Seq<char> {
    trim_end_spec(trim_start_spec(s))
}

fn white_space(c: char) -> (r: bool)
    ensures
        r == is_white_space(c),
{
    let v = c as u32;
    (0x9 <= v && v <= 0xd) || v == 0x20 || v == 0x85 || v == 0xa0 || v == 0x1680 || (0x2000 <= v
        && v <= 0x200a) || v == 0x2028 || v == 0x2029 || v == 0x202f || v == 0x205f || v == 0x3000
}

proof fn lemma_trim_start_skip(s: Seq<char>, i: int)
    requires
        0 <= i <= s.len(),
        forall|k: int| 0 <= k < i ==> is_white_space(#[trigger] s[k]),
    ensures
        trim_start_spec(s) == trim_start_spec(s.skip(i)),
    decreases i,
{
    if i > 0 {
        assert(s.drop_first().skip(i - 1) =~= s.skip(i));
        assert forall|k: int| 0 <= k < i - 1 implies is_white_space(#[trigger] s.drop_first()[k]) by {
            assert(s.drop_first()[k] == s[k + 1]);
        }
        lemma_trim_start_skip(s.drop_first(), i - 1);
    } else {
        assert(s.skip(0) =~= s);
    }
}

proof fn lemma_trim_end_take(s: Seq<char>, j: int)
    requires
        0 <= j <= s.len(),
        forall|k: int| j <= k < s.len() ==> is_white_space(#[trigger] s[k]),
    ensures
        trim_end_spec(s) == trim_end_spec(s.take(j)),
    decreases s.len() - j,
{
    if j < s.len() {
        assert(s.drop_last().take(j) =~= s.take(j));
        lemma_trim_end_take(s.drop_last(), j);
    } else {
        assert(s.take(j) =~= s);
    }
}

/// `s` without leading and trailing white space; as `str::trim`.
pub fn trim(s: &str) -> (r: String)
    ensures
        r@ == trim_spec(s@),
{
    let x = chars_of(s);
    let n = x.len();
    let mut a: usize = 0;
    while a < n && white_space(x[a])
        invariant
            0 <= a <= n,
            n == x@.len(),
            x@ == s@,
            forall|k: int| 0 <= k < a ==> is_white_space(#[trigger] x@[k]),
        decreases n - a,
    {
        a = a + 1;
    }
    proof {
        lemma_trim_start_skip(s@, a as int);
    }
    let mut b: usize = n;
    while b > a && white_space(x[b - 1])
        invariant
            a <= b <= n,
            n == x@.len(),
            x@ == s@,
            forall|k: int| b <= k < n ==> is_white_space(#[trigger] x@[k]),
        decreases b,
    {
        b = b - 1;
    }
    let ghost t = s@.skip(a as int);
    proof {
        assert(t.len() == 0 || !is_white_space(t[0]));
        assert(trim_start_spec(t) == t);
        assert forall|k: int| b - a <= k < t.len() implies is_white_space(#[trigger] t[k]) by {
            assert(t[k] == x@[k + a]);
        }
        lemma_trim_end_take(t, b - a);
        let u = t.take(b - a);
        assert(u =~= s@.subrange(a as int, b as int));
        assert(u.len() == 0 || !is_white_space(u.last()));
    }
    s.substring_char(a, b).to_owned()
}

/// The first `limit` characters of `s`, or all of them when there are
/// fewer.
pub open spec fn take_chars_spec(s: Seq<char>, limit: nat) -> Seq<char> {
    if s.len() <= limit {
        s
    } else {
        s.take(limit as int)
    }
}

/// The first `limit` characters of `s`, or all of `s`.
pub fn take_chars(s: &str, limit: usize) -> (r: &str)
    ensures
        r@ == take_chars_spec(s@, limit as nat),
{
    let n = s.unicode_len();
    if n <= limit {
        proof {
            assert(s@.subrange(0, n as int) =~= s@);
        }
        s.substring_char(0, n)
    } else {
        s.substring_char(0, limit)
    }
}

} // verus!
