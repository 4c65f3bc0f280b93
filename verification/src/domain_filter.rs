//! Which host names the crawler accepts as instances to visit.
use vstd::prelude::*;
use vstd::utf8::encode_utf8;
use vstd::utf8::is_ascii_chars;

use crate::text::chars_of;
use crate::text::contains_chars;
use crate::text::contains_seq;

verus! {

/// Longest accepted host name, in bytes.
pub const MAX_DOMAIN_LEN: usize = 253;

/// Longest accepted label, in bytes.
pub const MAX_LABEL_LEN: usize = 63;

/// A character allowed inside a label: an ASCII letter or digit, or `-`.
pub open spec fn is_label_char(c: char) -> bool {
    ||| 'a' <= c <= 'z'
    ||| 'A' <= c <= 'Z'
    ||| '0' <= c <= '9'
    ||| c == '-'
}

/// The pieces of `s` between the dots, as `str::split('.')` yields them:
/// one more piece than there are dots, empty pieces included.
pub open spec fn split_on_dot(s: Seq<char>) -> Seq<Seq<char>>
    decreases s.len(),
{
    if s.len() == 0 {
        seq![Seq::<char>::empty()]
    } else {
        let parts = split_on_dot(s.drop_last());
        if s.last() == '.' {
            parts.push(Seq::<char>::empty())
        } else {
            parts.update(parts.len() - 1, parts.last().push(s.last()))
        }
    }
}

/// A label of at most 63 letters, digits and hyphens, neither empty nor
/// starting or ending with a hyphen.
pub open spec fn valid_label(label: Seq<char>) -> bool {
    &&& 0 < label.len() <= MAX_LABEL_LEN
    &&& forall|i: int| 0 <= i < label.len() ==> is_label_char(#[trigger] label[i])
    &&& label[0] != '-'
    &&& label.last() != '-'
}

/// The marker of host names that are never crawled.
pub open spec fn blocked_marker() -> Seq<char> {
    "activitypub-troll"@
}

/// A host name the crawler accepts: it does not hold the blocked marker,
/// its UTF-8 encoding is at most 253 bytes long, and it has at least two
/// dot-separated labels, each of them valid.
pub open spec fn is_valid_domain(domain: Seq<char>) -> bool {
    let labels = split_on_dot(domain);
    &&& !contains_seq(domain, blocked_marker())
    &&& encode_utf8(domain).len() <= MAX_DOMAIN_LEN
    &&& labels.len() >= 2
    &&& forall|i: int| 0 <= i < labels.len() ==> valid_label(#[trigger] labels[i])
}

pub proof fn lemma_split_nonempty(s: Seq<char>)
    ensures
        split_on_dot(s).len() >= 1,
    decreases s.len(),
{
    if s.len() > 0 {
        lemma_split_nonempty(s.drop_last());
    }
}

/// Every piece of `parts` is made of label characters.
pub open spec fn all_label_chars(parts: Seq<Seq<char>>) -> bool {
    forall|k: int, j: int|
        0 <= k < parts.len() && 0 <= j < parts[k].len() ==> is_label_char(#[trigger] parts[k][j])
}

/// A string whose pieces are all made of label characters is ASCII.
proof fn lemma_label_chars_ascii(s: Seq<char>)
    requires
        all_label_chars(split_on_dot(s)),
    ensures
        is_ascii_chars(s),
    decreases s.len(),
{
    if s.len() > 0 {
        let p = s.drop_last();
        let parts = split_on_dot(p);
        lemma_split_nonempty(p);
        if s.last() != '.' {
            let last = parts.last().push(s.last());
            assert(split_on_dot(s)[parts.len() - 1] == last);
            assert(is_label_char(split_on_dot(s)[parts.len() - 1][last.len() - 1]));
            assert forall|k: int, j: int|
                0 <= k < parts.len() && 0 <= j < parts[k].len() implies is_label_char(
                #[trigger] parts[k][j],
            ) by {
                if k == parts.len() - 1 {
                    assert(parts[k][j] == split_on_dot(s)[k][j]);
                } else {
                    assert(parts[k] == split_on_dot(s)[k]);
                }
            }
        } else {
            assert forall|k: int, j: int|
                0 <= k < parts.len() && 0 <= j < parts[k].len() implies is_label_char(
                #[trigger] parts[k][j],
            ) by {
                assert(parts[k] == split_on_dot(s)[k]);
            }
        }
        lemma_label_chars_ascii(p);
        assert(s =~= p.push(s.last()));
        assert forall|i: int| 0 <= i < s.len() implies '\0' <= #[trigger] s[i] <= '\u{7f}' by {
            if i < p.len() {
                assert(s[i] == p[i]);
            }
        }
    }
}

/// The first `k` pieces of `parts` are valid labels.
pub open spec fn labels_ok_upto(parts: Seq<Seq<char>>, k: int) -> bool {
    forall|j: int| 0 <= j < k ==> valid_label(#[trigger] parts[j])
}

proof fn lemma_labels_ok_upto_step(parts: Seq<Seq<char>>, k: int)
    requires
        0 <= k < parts.len(),
    ensures
        labels_ok_upto(parts, k + 1) == (labels_ok_upto(parts, k) && valid_label(parts[k])),
{
}

proof fn lemma_labels_ok_upto_same(a: Seq<Seq<char>>, b: Seq<Seq<char>>, k: int)
    requires
        0 <= k <= a.len(),
        k <= b.len(),
        forall|j: int| 0 <= j < k ==> a[j] == b[j],
    ensures
        labels_ok_upto(a, k) == labels_ok_upto(b, k),
{
    assert forall|j: int| 0 <= j < k implies valid_label(#[trigger] a[j]) == valid_label(b[j]) by {
        assert(a[j] == b[j]);
    }
}

/// An accepted host name is made of ASCII characters only, so its length
/// in bytes is its length in characters.
pub proof fn lemma_valid_domain_is_ascii(domain: Seq<char>)
    requires
        is_valid_domain(domain),
    ensures
        is_ascii_chars(domain),
        encode_utf8(domain).len() == domain.len(),
        domain.len() <= MAX_DOMAIN_LEN,
{
    let labels = split_on_dot(domain);
    assert forall|k: int, j: int|
        0 <= k < labels.len() && 0 <= j < labels[k].len() implies is_label_char(
        #[trigger] labels[k][j],
    ) by {
        assert(valid_label(labels[k]));
    }
    lemma_label_chars_ascii(domain);
    vstd::utf8::is_ascii_chars_encode_utf8(domain);
}

/// An ASCII letter, an ASCII digit or a hyphen, written out.
pub open spec fn is_ascii_alnum_or_hyphen(c: char) -> bool {
    ('a' <= c && c <= 'z') || ('A' <= c && c <= 'Z') || ('0' <= c && c <= '9') || c == '-'
}

/// A label is valid exactly when it has 1 to 63 characters, each an ASCII
/// letter, digit or hyphen, and neither its first nor its last character
/// is a hyphen; nothing else is asked of it (hyphens may follow each other
/// inside it).
pub proof fn lemma_valid_label_exactly(label: Seq<char>)
    ensures
        valid_label(label) <==> {
            &&& 1 <= label.len() <= 63
            &&& forall|i: int| 0 <= i < label.len() ==> is_ascii_alnum_or_hyphen(#[trigger] label[i])
            &&& label[0] != '-'
            &&& label[label.len() - 1] != '-'
        },
{
}

/// Changing a character strictly inside a valid label to any letter, digit
/// or hyphen leaves it valid; in particular a hyphen may stand next to
/// another one.
pub proof fn lemma_valid_label_inner_change(label: Seq<char>, i: int, c: char)
    requires
        valid_label(label),
        0 < i < label.len() - 1,
        is_ascii_alnum_or_hyphen(c),
    ensures
        valid_label(label.update(i, c)),
{
    let l2 = label.update(i, c);
    assert forall|k: int| 0 <= k < l2.len() implies is_label_char(#[trigger] l2[k]) by {
        if k != i {
            assert(l2[k] == label[k]);
        }
    }
}

/// Splitting at the dots, the pieces of `a`, a dot and `b` are the pieces
/// of `a` followed by the pieces of `b`.
pub proof fn lemma_split_concat(a: Seq<char>, b: Seq<char>)
    ensures
        split_on_dot(a.push('.') + b) == split_on_dot(a) + split_on_dot(b),
    decreases b.len(),
{
    lemma_split_nonempty(a);
    lemma_split_nonempty(b);
    if b.len() == 0 {
        assert(a.push('.') + b =~= a.push('.'));
        assert(a.push('.').drop_last() =~= a);
        assert(split_on_dot(a.push('.')) =~= split_on_dot(a) + split_on_dot(b));
    } else {
        let b0 = b.drop_last();
        let x = b.last();
        lemma_split_concat(a, b0);
        lemma_split_nonempty(b0);
        let s = a.push('.') + b;
        assert(s.drop_last() =~= a.push('.') + b0);
        assert(s.last() == x);
        let pa = split_on_dot(a);
        let pb0 = split_on_dot(b0);
        if x == '.' {
            assert(split_on_dot(s) =~= pa + pb0.push(Seq::<char>::empty()));
        } else {
            let joined = pa + pb0;
            assert(joined.last() == pb0.last());
            assert(split_on_dot(s) =~= pa + pb0.update(pb0.len() - 1, pb0.last().push(x)));
        }
    }
}

/// A string without dots is a single piece.
pub proof fn lemma_split_no_dot(s: Seq<char>)
    requires
        forall|i: int| 0 <= i < s.len() ==> s[i] != '.',
    ensures
        split_on_dot(s) == seq![s],
    decreases s.len(),
{
    if s.len() > 0 {
        let p = s.drop_last();
        assert forall|i: int| 0 <= i < p.len() implies p[i] != '.' by {
            assert(p[i] == s[i]);
        }
        lemma_split_no_dot(p);
        assert(p.push(s.last()) =~= s);
        assert(split_on_dot(s) =~= seq![s]);
    } else {
        assert(s =~= Seq::<char>::empty());
    }
}

/// A host name is accepted exactly when it does not hold the blocked
/// marker, is at most 253 bytes long, has at least two pieces between the
/// dots, and every piece has 1 to 63 ASCII letters, digits and hyphens,
/// neither starting nor ending with a hyphen.
pub proof fn lemma_valid_domain_exactly(domain: Seq<char>)
    ensures
        is_valid_domain(domain) <==> {
            let labels = split_on_dot(domain);
            &&& !contains_seq(domain, "activitypub-troll"@)
            &&& encode_utf8(domain).len() <= 253
            &&& labels.len() >= 2
            &&& forall|k: int|
                0 <= k < labels.len() ==> {
                    let l = #[trigger] labels[k];
                    &&& 1 <= l.len() <= 63
                    &&& forall|i: int| 0 <= i < l.len() ==> is_ascii_alnum_or_hyphen(#[trigger] l[i])
                    &&& l[0] != '-'
                    &&& l[l.len() - 1] != '-'
                }
        },
{
}

/// Putting a valid label and a dot in front of an accepted host name gives
/// an accepted host name, as long as it stays within 253 characters and
/// does not hold the blocked marker.
pub proof fn lemma_valid_domain_prepend_label(label: Seq<char>, domain: Seq<char>)
    requires
        valid_label(label),
        is_valid_domain(domain),
        label.len() + 1 + domain.len() <= 253,
        !contains_seq(label.push('.') + domain, "activitypub-troll"@),
    ensures
        is_valid_domain(label.push('.') + domain),
{
    let s = label.push('.') + domain;
    assert forall|i: int| 0 <= i < label.len() implies label[i] != '.' by {
        assert(is_label_char(label[i]));
    }
    lemma_split_no_dot(label);
    lemma_split_concat(label, domain);
    let labels = split_on_dot(s);
    assert(labels == seq![label] + split_on_dot(domain));
    assert forall|k: int| 0 <= k < labels.len() implies valid_label(#[trigger] labels[k]) by {
        if k > 0 {
            assert(labels[k] == split_on_dot(domain)[k - 1]);
        }
    }
    assert forall|k: int, j: int|
        0 <= k < labels.len() && 0 <= j < labels[k].len() implies is_label_char(
        #[trigger] labels[k][j],
    ) by {
        assert(valid_label(labels[k]));
    }
    lemma_label_chars_ascii(s);
    vstd::utf8::is_ascii_chars_encode_utf8(s);
}

/// Whether `label` is a valid label.
fn label_ok(label: &Vec<char>) -> (r: bool)
    ensures
        r == valid_label(label@),
{
    let n = label.len();
    if n == 0 || n > MAX_LABEL_LEN {
        return false;
    }
    if label[0] == '-' || label[n - 1] == '-' {
        return false;
    }
    let mut i: usize = 0;
    while i < n
        invariant
            0 <= i <= n,
            n == label@.len(),
            forall|k: int| 0 <= k < i ==> is_label_char(#[trigger] label@[k]),
        decreases n - i,
    {
        let c = label[i];
        let ok = ('a' <= c && c <= 'z') || ('A' <= c && c <= 'Z') || ('0' <= c && c <= '9') || c
            == '-';
        if !ok {
            return false;
        }
        i = i + 1;
    }
    true
}

/// Whether the crawler accepts `domain` as a host name: see
/// [`is_valid_domain`].
pub fn is_valid(domain: &str) -> (r: bool)
    ensures
        r == is_valid_domain(domain@),
{
    let chars = chars_of(domain);
    let marker = chars_of("activitypub-troll");
    let blocked = contains_chars(&chars, &marker);
    let n = chars.len();
    let mut dots: usize = 0;
    let mut done_ok = true;
    let mut cur: Vec<char> = Vec::new();
    let mut i: usize = 0;
    proof {
        assert(chars@.take(0) =~= Seq::<char>::empty());
    }
    while i < n
        invariant
            0 <= i <= n,
            n == chars@.len(),
            dots <= i,
            dots + 1 == split_on_dot(chars@.take(i as int)).len(),
            cur@ == split_on_dot(chars@.take(i as int)).last(),
            done_ok == labels_ok_upto(split_on_dot(chars@.take(i as int)), dots as int),
        decreases n - i,
    {
        let ghost prev = chars@.take(i as int);
        let ghost next = chars@.take(i + 1);
        proof {
            assert(next.drop_last() =~= prev);
            assert(next.last() == chars@[i as int]);
            lemma_split_nonempty(prev);
        }
        let c = chars[i];
        if c == '.' {
            let ok = label_ok(&cur);
            proof {
                let pn = split_on_dot(next);
                let pp = split_on_dot(prev);
                assert(pn =~= pp.push(Seq::<char>::empty()));
                assert(pn[dots as int] == cur@);
                lemma_labels_ok_upto_step(pn, dots as int);
                lemma_labels_ok_upto_same(pn, pp, dots as int);
            }
            done_ok = done_ok && ok;
            cur = Vec::new();
            dots = dots + 1;
            proof {
                assert(cur@ =~= split_on_dot(next).last());
            }
        } else {
            cur.push(c);
            proof {
                lemma_labels_ok_upto_same(split_on_dot(next), split_on_dot(prev), dots as int);
            }
        }
        i = i + 1;
    }
    let last_ok = label_ok(&cur);
    let r = !blocked && n <= MAX_DOMAIN_LEN && dots >= 1 && done_ok && last_ok;
    proof {
        let s = domain@;
        assert(chars@.take(n as int) =~= s);
        let labels = split_on_dot(s);
        let labels_ok = forall|k: int| 0 <= k < labels.len() ==> valid_label(#[trigger] labels[k]);
        lemma_labels_ok_upto_step(labels, dots as int);
        assert(labels_ok == labels_ok_upto(labels, labels.len() as int));
        assert(labels_ok == (done_ok && last_ok));
        if labels_ok {
            assert forall|k: int, j: int|
                0 <= k < labels.len() && 0 <= j < labels[k].len() implies is_label_char(
                #[trigger] labels[k][j],
            ) by {
                assert(valid_label(labels[k]));
            }
            lemma_label_chars_ascii(s);
            vstd::utf8::is_ascii_chars_encode_utf8(s);
        }
    }
    r
}

} // verus!
