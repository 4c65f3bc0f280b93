//! Turning the peer lists that instances publish into batches of host names
//! to queue.
use vstd::prelude::*;
use vstd::utf8::is_ascii_chars;

use crate::domain_filter::is_valid;
use crate::domain_filter::is_valid_domain;

verus! {

/// How many peers are looked at together before their accepted names are
/// queued.
pub const PEER_CHUNK: usize = 100;

/// What `str::to_lowercase` returns for a string with these characters.
pub uninterp spec fn spec_to_lowercase(s: Seq<char>) -> Seq<char>;

/// An ASCII character mapped to lower case; other characters unchanged.
pub open spec fn ascii_lower_char(c: char) -> char {
    if 'A' <= c <= 'Z' {
        ((c as u32) + 32) as char
    } else {
        c
    }
}

/// `s` with its ASCII upper-case letters made lower case.
pub open spec fn ascii_lowercase(s: Seq<char>) -> Seq<char> {
    Seq::new(s.len(), |i: int| ascii_lower_char(s[i]))
}

/// Calls `str::to_lowercase`. Its result is named by `spec_to_lowercase`;
/// for a string of ASCII characters, std's documentation (the Unicode
/// lower-case mapping) makes it the string with `A`..`Z` mapped to
/// `a`..`z` and every other character kept. Nothing is claimed of the
/// mapping of other characters.
#[verifier::external_body]
fn to_lowercase(s: &str) -> (r: String)
    ensures
        r@ == spec_to_lowercase(s@),
        is_ascii_chars(s@) ==> r@ == ascii_lowercase(s@),
{
    s.to_lowercase()
}

/// A peer's name made lower case.
pub open spec fn lowered(peer: Seq<char>) -> Seq<char> {
    spec_to_lowercase(peer)
}

pub open spec fn lowered_fn() -> spec_fn(Seq<char>) -> Seq<char> {
    |p: Seq<char>| lowered(p)
}

pub open spec fn valid_fn() -> spec_fn(Seq<char>) -> bool {
    |d: Seq<char>| is_valid_domain(d)
}

/// The lower-cased names among `peers` that are valid host names, in order.
pub open spec fn accepted(peers: Seq<Seq<char>>) -> Seq<Seq<char>> {
    peers.map_values(lowered_fn()).filter(valid_fn())
}

/// The name under which a discovered instance is queued, if it is queued:
/// the lower-cased name, when that is a valid host name.
pub fn normalize_peer(peer: &str) -> (r: Option<String>)
    ensures
        r is Some <==> is_valid_domain(lowered(peer@)),
        r matches Some(name) ==> name@ == lowered(peer@),
{
    let lower = to_lowercase(peer);
    if is_valid(lower.as_str()) {
        Some(lower)
    } else {
        None
    }
}

/// Where chunk `c` of a list of `len` peers ends.
pub open spec fn chunk_end(len: int, c: int) -> int {
    if (c + 1) * PEER_CHUNK < len {
        (c + 1) * PEER_CHUNK
    } else {
        len
    }
}

/// Chunk `c` of `peers`, as `slice::chunks(100)` cuts it.
pub open spec fn peer_chunk(peers: Seq<Seq<char>>, c: int) -> Seq<Seq<char>> {
    peers.subrange(c * PEER_CHUNK, chunk_end(peers.len() as int, c))
}

/// The number of chunks of a list of `len` peers.
pub open spec fn num_chunks(len: int) -> int {
    (len + PEER_CHUNK - 1) / (PEER_CHUNK as int)
}

/// The batches made from the first `c` chunks: the accepted names of each
/// chunk, chunks with no accepted name left out.
pub open spec fn batches_upto(peers: Seq<Seq<char>>, c: int) -> Seq<Seq<Seq<char>>>
    decreases c,
{
    if c <= 0 {
        Seq::empty()
    } else {
        let prev = batches_upto(peers, c - 1);
        let batch = accepted(peer_chunk(peers, c - 1));
        if batch.len() > 0 {
            prev.push(batch)
        } else {
            prev
        }
    }
}

/// The batches made from a whole list of peers.
pub open spec fn peer_batches(peers: Seq<Seq<char>>) -> Seq<Seq<Seq<char>>> {
    batches_upto(peers, num_chunks(peers.len() as int))
}

proof fn lemma_accepted_push(s: Seq<Seq<char>>, x: Seq<char>)
    ensures
        accepted(s.push(x)) == if is_valid_domain(lowered(x)) {
            accepted(s).push(lowered(x))
        } else {
            accepted(s)
        },
{
    assert(s.push(x).map_values(lowered_fn()) =~= s.map_values(lowered_fn()).push(lowered(x)));
    s.map_values(lowered_fn()).lemma_filter_push(lowered(x), valid_fn());
}

proof fn lemma_accepted_add(a: Seq<Seq<char>>, b: Seq<Seq<char>>)
    ensures
        accepted(a + b) == accepted(a) + accepted(b),
{
    assert((a + b).map_values(lowered_fn()) =~= a.map_values(lowered_fn()) + b.map_values(
        lowered_fn(),
    ));
    Seq::filter_distributes_over_add(
        a.map_values(lowered_fn()),
        b.map_values(lowered_fn()),
        valid_fn(),
    );
}

/// Every accepted name is a valid host name, and there are no more
/// accepted names than peers.
pub proof fn lemma_accepted_valid(peers: Seq<Seq<char>>)
    ensures
        accepted(peers).len() <= peers.len(),
        forall|i: int| 0 <= i < accepted(peers).len() ==> is_valid_domain(#[trigger] accepted(peers)[i]),
{
    broadcast use vstd::seq_lib::group_filter_ensures;

    let m = peers.map_values(lowered_fn());
    m.lemma_filter_len(valid_fn());
    assert forall|i: int| 0 <= i < accepted(peers).len() implies is_valid_domain(
        #[trigger] accepted(peers)[i],
    ) by {
        m.lemma_filter_pred(valid_fn(), i);
    }
}

/// Where the first `c` chunks of a list of `len` peers end.
pub open spec fn chunks_end(len: int, c: int) -> int {
    if c * PEER_CHUNK < len {
        c * PEER_CHUNK
    } else {
        len
    }
}

proof fn lemma_batches_upto_flatten(peers: Seq<Seq<char>>, c: int)
    requires
        0 <= c,
        c == 0 || (c - 1) * PEER_CHUNK < peers.len(),
    ensures
        batches_upto(peers, c).flatten() == accepted(
            peers.subrange(0, chunks_end(peers.len() as int, c)),
        ),
    decreases c,
{
    let n = peers.len() as int;
    if c == 0 {
        assert(peers.subrange(0, 0) =~= Seq::<Seq<char>>::empty());
        assert(accepted(Seq::<Seq<char>>::empty()) =~= Seq::<Seq<char>>::empty()) by {
            reveal(Seq::filter);
        }
    } else {
        lemma_batches_upto_flatten(peers, c - 1);
        let prev = batches_upto(peers, c - 1);
        let lo = chunks_end(n, c - 1);
        let hi = chunks_end(n, c);
        assert(peer_chunk(peers, c - 1) == peers.subrange(lo, hi));
        assert(peers.subrange(0, hi) =~= peers.subrange(0, lo) + peers.subrange(lo, hi));
        lemma_accepted_add(peers.subrange(0, lo), peers.subrange(lo, hi));
        let batch = accepted(peer_chunk(peers, c - 1));
        if batch.len() > 0 {
            prev.lemma_flatten_push(batch);
        } else {
            assert(batch =~= Seq::<Seq<char>>::empty());
            assert(accepted(peers.subrange(0, hi)) =~= accepted(peers.subrange(0, lo)) + batch);
        }
    }
}

/// Queuing the batches one after another queues exactly the accepted
/// names of the whole peer list, in the order of the list: no accepted
/// name is lost, none is added, none is moved.
pub proof fn lemma_peer_batches_flatten(peers: Seq<Seq<char>>)
    ensures
        peer_batches(peers).flatten() == accepted(peers),
{
    let n = peers.len() as int;
    let c = num_chunks(n);
    assert(c * PEER_CHUNK >= n && (c == 0 || (c - 1) * PEER_CHUNK < n)) by (nonlinear_arith)
        requires
            c == (n + PEER_CHUNK - 1) / (PEER_CHUNK as int),
            n >= 0,
    ;
    lemma_batches_upto_flatten(peers, c);
    assert(peers.subrange(0, n) =~= peers);
}

proof fn lemma_batches_upto_shape(peers: Seq<Seq<char>>, c: int)
    requires
        0 <= c,
        c == 0 || (c - 1) * PEER_CHUNK < peers.len(),
    ensures
        forall|i: int|
            0 <= i < batches_upto(peers, c).len() ==> {
                let b = #[trigger] batches_upto(peers, c)[i];
                &&& 0 < b.len() <= PEER_CHUNK
                &&& forall|j: int| 0 <= j < b.len() ==> is_valid_domain(#[trigger] b[j])
            },
    decreases c,
{
    if c > 0 {
        lemma_batches_upto_shape(peers, c - 1);
        let chunk = peer_chunk(peers, c - 1);
        lemma_accepted_valid(chunk);
        let prev = batches_upto(peers, c - 1);
        let batch = accepted(chunk);
        assert(chunk.len() <= PEER_CHUNK);
        if batch.len() > 0 {
            assert forall|i: int| 0 <= i < prev.push(batch).len() implies {
                let b = #[trigger] prev.push(batch)[i];
                &&& 0 < b.len() <= PEER_CHUNK
                &&& forall|j: int| 0 <= j < b.len() ==> is_valid_domain(#[trigger] b[j])
            } by {
                if i < prev.len() {
                    assert(prev.push(batch)[i] == prev[i]);
                } else {
                    assert(prev.push(batch)[i] == batch);
                }
            }
        }
    }
}

/// Every batch holds between 1 and 100 names, and each of them is a valid
/// host name.
pub proof fn lemma_peer_batches_shape(peers: Seq<Seq<char>>)
    ensures
        forall|i: int|
            0 <= i < peer_batches(peers).len() ==> {
                let b = #[trigger] peer_batches(peers)[i];
                &&& 0 < b.len() <= PEER_CHUNK
                &&& forall|j: int| 0 <= j < b.len() ==> is_valid_domain(#[trigger] b[j])
            },
{
    let n = peers.len() as int;
    let c = num_chunks(n);
    assert(c >= 0 && (c == 0 || (c - 1) * PEER_CHUNK < n)) by (nonlinear_arith)
        requires
            c == (n + PEER_CHUNK - 1) / (PEER_CHUNK as int),
            n >= 0,
    ;
    lemma_batches_upto_shape(peers, c);
}

/// Splits `peers` into chunks of 100 as the crawler does, and returns, for
/// each chunk in order, the lower-cased names in it that are valid host
/// names, leaving out chunks without one.
pub fn batch_peers(peers: &Vec<String>) -> (r: Vec<Vec<String>>)
    ensures
        r.deep_view() == peer_batches(peers.deep_view()),
{
    let ghost pv = peers.deep_view();
    let n = peers.len();
    let mut result: Vec<Vec<String>> = Vec::new();
    let mut start: usize = 0;
    let ghost mut c: int = 0;
    while start < n
        invariant
            n == peers@.len(),
            pv == peers.deep_view(),
            pv.len() == n,
            0 <= c,
            start == if c * PEER_CHUNK < n {
                c * PEER_CHUNK
            } else {
                n as int
            },
            c == 0 || (c - 1) * PEER_CHUNK < n,
            result.deep_view() == batches_upto(pv, c),
        decreases n - start,
    {
        let end: usize = if n - start > PEER_CHUNK {
            start + PEER_CHUNK
        } else {
            n
        };
        assert(end == chunk_end(n as int, c));
        let mut batch: Vec<String> = Vec::new();
        let mut i: usize = start;
        assert(pv.subrange(start as int, start as int) =~= Seq::<Seq<char>>::empty());
        assert(accepted(Seq::<Seq<char>>::empty()) =~= Seq::<Seq<char>>::empty()) by {
            reveal(Seq::filter);
        }
        while i < end
            invariant
                start <= i <= end <= n,
                n == peers@.len(),
                pv == peers.deep_view(),
                batch.deep_view() == accepted(pv.subrange(start as int, i as int)),
            decreases end - i,
        {
            let lower = to_lowercase(peers[i].as_str());
            let ok = is_valid(lower.as_str());
            proof {
                assert(pv.subrange(start as int, i + 1) =~= pv.subrange(start as int, i as int).push(
                    pv[i as int],
                ));
                assert(pv[i as int] == peers@[i as int]@);
                lemma_accepted_push(pv.subrange(start as int, i as int), pv[i as int]);
            }
            if ok {
                batch.push(lower);
                proof {
                    assert(batch.deep_view() =~= accepted(pv.subrange(start as int, i as int)).push(
                        lowered(pv[i as int]),
                    ));
                }
            }
            i = i + 1;
        }
        assert(pv.subrange(start as int, end as int) == peer_chunk(pv, c));
        if batch.len() > 0 {
            result.push(batch);
            proof {
                assert(result.deep_view() =~= batches_upto(pv, c).push(accepted(peer_chunk(pv, c))));
            }
        } else {
            proof {
                assert(batch.deep_view().len() == 0);
            }
        }
        start = end;
        proof {
            c = c + 1;
        }
    }
    assert(c == num_chunks(n as int)) by (nonlinear_arith)
        requires
            start == n,
            start == if c * PEER_CHUNK < n {
                c * PEER_CHUNK
            } else {
                n as int
            },
            c == 0 || (c - 1) * PEER_CHUNK < n,
            0 <= c,
    ;
    result
}

} // verus!
