//! What holds of the reassembly of chunked messages.
use vstd::prelude::*;

use crate::insert::gelf::{
    BufV, CHUNK_HEADER, CHUNK_MAX_MESSAGE_BYTES, chunk_handled, chunk_step, expired, fresh,
    present, swept, whole,
};
use crate::insert::msgpack::be;

verus! {

/// What the unfinished messages are, and what came back last, once the first `k`
/// chunks of a message have arrived in some order.
pub open spec fn delivered(
    m: Map<u64, BufV>,
    id: u64,
    parts: Seq<Seq<u8>>,
    order: Seq<int>,
    times: Seq<u64>,
    timeout: u64,
    k: nat,
) -> (Map<u64, BufV>, Option<Seq<u8>>)
    decreases k,
{
    if k == 0 {
        (m, None)
    } else {
        let before = delivered(m, id, parts, order, times, timeout, (k - 1) as nat).0;
        let c = order[k - 1];
        chunk_step(
            swept(before, times[k - 1], timeout),
            id,
            c,
            parts.len() as int,
            parts[c],
            times[k - 1],
        )
    }
}

/// All the parts, each there.
pub open spec fn all_there(parts: Seq<Seq<u8>>) -> Seq<Option<Seq<u8>>> {
    Seq::new(parts.len(), |i: int| Some(parts[i]))
}

/// An order in which every chunk comes, some of them perhaps more than once, and in which
/// the last to come has not come before.
pub open spec fn is_order(order: Seq<int>, n: nat) -> bool {
    &&& order.len() > 0
    &&& forall|i: int| 0 <= i < order.len() ==> 0 <= (#[trigger] order[i]) < n
    &&& forall|c: int| 0 <= c < n ==> #[trigger] order.contains(c)
    &&& !order.drop_last().contains(order.last())
}

/// Times at which nothing that came at the first of them has waited too long.
pub open spec fn in_time(times: Seq<u64>, n: nat, timeout: u64) -> bool {
    &&& times.len() == n
    &&& forall|i: int|
        0 <= i < n ==> times[0] <= (#[trigger] times[i]) && times[i] - times[0] < timeout
}

/// Every part is missing or is the right one.
spec fn partly(got: Seq<Option<Seq<u8>>>, parts: Seq<Seq<u8>>) -> bool {
    got.len() == parts.len() && forall|i: int|
        0 <= i < got.len() ==> (#[trigger] got[i]) is None || got[i] == Some(parts[i])
}

proof fn lemma_partly_len(got: Seq<Option<Seq<u8>>>, parts: Seq<Seq<u8>>)
    requires
        partly(got, parts),
    ensures
        whole(got).len() <= whole(all_there(parts)).len(),
        present(got) <= got.len(),
        present(got) == got.len() ==> got == all_there(parts),
    decreases got.len(),
{
    if got.len() > 0 {
        let d = parts.drop_last();
        assert(all_there(parts).drop_last() =~= all_there(d));
        lemma_partly_len(got.drop_last(), d);
        if present(got) == got.len() {
            assert(got =~= got.drop_last().push(got.last()));
            assert(all_there(parts) =~= all_there(d).push(Some(parts.last())));
        }
    } else {
        assert(got =~= all_there(parts));
    }
}

proof fn lemma_one_more(got: Seq<Option<Seq<u8>>>, i: int, b: Seq<u8>)
    requires
        0 <= i < got.len(),
        got[i] is None,
    ensures
        whole(got.update(i, Some(b))).len() == whole(got).len() + b.len(),
        present(got.update(i, Some(b))) == present(got) + 1,
    decreases got.len(),
{
    let u = got.update(i, Some(b));
    if i == got.len() - 1 {
        assert(u.drop_last() == got.drop_last());
    } else {
        assert(u.drop_last() == got.drop_last().update(i, Some(b)));
        lemma_one_more(got.drop_last(), i, b);
    }
}

proof fn lemma_nothing_yet(n: nat)
    ensures
        whole(Seq::new(n, |i: int| None::<Seq<u8>>)).len() == 0,
        present(Seq::new(n, |i: int| None::<Seq<u8>>)) == 0,
    decreases n,
{
    if n > 0 {
        let s = Seq::new(n, |i: int| None::<Seq<u8>>);
        assert(s.drop_last() == Seq::new((n - 1) as nat, |i: int| None::<Seq<u8>>));
        lemma_nothing_yet((n - 1) as nat);
    }
}

proof fn lemma_once_more(got: Seq<Option<Seq<u8>>>, parts: Seq<Seq<u8>>, i: int)
    requires
        partly(got, parts),
        0 <= i < got.len(),
        got[i] is Some,
    ensures
        got.update(i, Some(parts[i])) == got,
{
    assert(got[i] == Some(parts[i]));
    assert(got.update(i, Some(parts[i])) =~= got);
}

proof fn lemma_missing(got: Seq<Option<Seq<u8>>>, i: int)
    requires
        0 <= i < got.len(),
        got[i] is None,
    ensures
        present(got) < got.len(),
    decreases got.len(),
{
    let d = got.drop_last();
    if i < d.len() {
        assert(d[i] is None);
        lemma_missing(d, i);
    } else {
        lemma_present_at_most(d);
    }
}

proof fn lemma_present_at_most(got: Seq<Option<Seq<u8>>>)
    ensures
        present(got) <= got.len(),
    decreases got.len(),
{
    if got.len() > 0 {
        lemma_present_at_most(got.drop_last());
    }
}

proof fn lemma_none_missing(got: Seq<Option<Seq<u8>>>)
    requires
        forall|i: int| 0 <= i < got.len() ==> (#[trigger] got[i]) is Some,
    ensures
        present(got) == got.len(),
    decreases got.len(),
{
    if got.len() > 0 {
        let d = got.drop_last();
        assert forall|i: int| 0 <= i < d.len() implies (#[trigger] d[i]) is Some by {
            assert(got[i] is Some);
        }
        lemma_none_missing(d);
        assert(got[got.len() - 1] is Some);
    }
}

/// How far a message is once the first `k` of its chunks have come: what came is there,
/// and nothing else.
spec fn under_way(
    m: Map<u64, BufV>,
    id: u64,
    parts: Seq<Seq<u8>>,
    order: Seq<int>,
    first: u64,
    k: int,
) -> bool {
    &&& m.contains_key(id)
    &&& partly(m[id].parts, parts)
    &&& m[id].first_seen == first
    &&& m[id].bytes == whole(m[id].parts).len()
    &&& forall|c: int|
        0 <= c < parts.len() ==> ((#[trigger] m[id].parts[c]) is Some <==> order.take(
            k,
        ).contains(c))
}

proof fn lemma_came(order: Seq<int>, k: int, c: int)
    requires
        0 < k <= order.len(),
    ensures
        order.take(k).contains(c) <==> order.take(k - 1).contains(c) || c == order[k - 1],
{
    let a = order.take(k);
    let b = order.take(k - 1);
    if a.contains(c) {
        let i = choose|i: int| 0 <= i < a.len() && a[i] == c;
        if i < k - 1 {
            assert(b[i] == c);
        }
    }
    if b.contains(c) {
        let i = choose|i: int| 0 <= i < b.len() && b[i] == c;
        assert(a[i] == c);
    }
    assert(a[k - 1] == order[k - 1]);
}

proof fn lemma_step(
    m: Map<u64, BufV>,
    id: u64,
    parts: Seq<Seq<u8>>,
    order: Seq<int>,
    times: Seq<u64>,
    timeout: u64,
    k: int,
)
    requires
        is_order(order, parts.len()),
        in_time(times, order.len(), timeout),
        whole(all_there(parts)).len() <= CHUNK_MAX_MESSAGE_BYTES,
        0 < k <= order.len(),
        k == 1 ==> !m.contains_key(id),
        k > 1 ==> under_way(m, id, parts, order, times[0], k - 1),
    ensures
        ({
            let c = order[k - 1];
            let s = swept(m, times[k - 1], timeout);
            let r = chunk_step(s, id, c, parts.len() as int, parts[c], times[k - 1]);
            if k < order.len() {
                r.1 is None && under_way(r.0, id, parts, order, times[0], k)
            } else {
                r.1 == Some(whole(all_there(parts))) && r.0 == s.remove(id)
            }
        }),
{
    let n = parts.len();
    let c = order[k - 1];
    let t = times[k - 1];
    let s = swept(m, t, timeout);
    let b = if s.contains_key(id) {
        s[id]
    } else {
        fresh(n as int, t)
    };
    if k == 1 {
        lemma_nothing_yet(n);
    }
    assert(partly(b.parts, parts));
    assert forall|x: int| 0 <= x < n implies ((#[trigger] b.parts[x]) is Some <==> order.take(
        k - 1,
    ).contains(x)) by {
        if k > 1 {
            assert(m[id].parts[x] is Some <==> order.take(k - 1).contains(x));
        }
    }
    let got = b.parts.update(c, Some(parts[c]));
    if b.parts[c] is None {
        lemma_one_more(b.parts, c, parts[c]);
    } else {
        lemma_once_more(b.parts, parts, c);
    }
    assert(partly(got, parts));
    lemma_partly_len(got, parts);
    assert forall|x: int| 0 <= x < n implies ((#[trigger] got[x]) is Some <==> order.take(
        k,
    ).contains(x)) by {
        lemma_came(order, k, x);
        assert(b.parts[x] is Some <==> order.take(k - 1).contains(x));
    }
    if k < order.len() {
        let last = order.last();
        assert(!order.take(k).contains(last)) by {
            if order.take(k).contains(last) {
                let i = choose|i: int| 0 <= i < k && order.take(k)[i] == last;
                assert(order.drop_last()[i] == last);
            }
        }
        assert(0 <= order[order.len() - 1] < n);
        assert(got[last] is None);
        lemma_missing(got, last);
    } else {
        assert(order.take(k) =~= order);
        assert forall|x: int| 0 <= x < got.len() implies (#[trigger] got[x]) is Some by {
            assert(order.contains(x));
        }
        lemma_none_missing(got);
    }
}

/// A message comes back whole, with its parts in their order, whatever the order in which
/// its chunks arrive and however often each is repeated: it comes back with the chunk
/// that was still missing, not before. Then nothing is left of it, and of another message
/// that has not waited too long nothing has changed.
pub proof fn law_order_of_chunks_does_not_matter(
    m: Map<u64, BufV>,
    id: u64,
    parts: Seq<Seq<u8>>,
    order: Seq<int>,
    times: Seq<u64>,
    timeout: u64,
    other: u64,
)
    requires
        is_order(order, parts.len()),
        in_time(times, order.len(), timeout),
        whole(all_there(parts)).len() <= CHUNK_MAX_MESSAGE_BYTES,
        !m.contains_key(id),
    ensures
        forall|k: nat|
            k < order.len() ==> (#[trigger] delivered(
                m,
                id,
                parts,
                order,
                times,
                timeout,
                k,
            )).1 is None,
        delivered(m, id, parts, order, times, timeout, order.len()).1 == Some(
            whole(all_there(parts)),
        ),
        !delivered(m, id, parts, order, times, timeout, order.len()).0.contains_key(id),
        m.contains_key(other) && (forall|i: int|
            0 <= i < times.len() ==> !expired(m[other], #[trigger] times[i], timeout)) ==> {
            let left = delivered(m, id, parts, order, times, timeout, order.len()).0;
            left.contains_key(other) && left[other] == m[other]
        },
{
    assert forall|k: nat| k < order.len() implies (#[trigger] delivered(
        m,
        id,
        parts,
        order,
        times,
        timeout,
        k,
    )).1 is None by {
        lemma_until(m, id, parts, order, times, timeout, k);
    }
    let n = order.len();
    lemma_until(m, id, parts, order, times, timeout, (n - 1) as nat);
    let before = delivered(m, id, parts, order, times, timeout, (n - 1) as nat).0;
    lemma_step(before, id, parts, order, times, timeout, n as int);
    if m.contains_key(other) && (forall|i: int|
        0 <= i < times.len() ==> !expired(m[other], #[trigger] times[i], timeout)) {
        lemma_other_stays(m, id, parts, order, times, timeout, other, n);
    }
}

proof fn lemma_other_stays(
    m: Map<u64, BufV>,
    id: u64,
    parts: Seq<Seq<u8>>,
    order: Seq<int>,
    times: Seq<u64>,
    timeout: u64,
    other: u64,
    k: nat,
)
    requires
        other != id,
        k <= times.len(),
        m.contains_key(other),
        forall|i: int| 0 <= i < times.len() ==> !expired(m[other], #[trigger] times[i], timeout),
    ensures
        delivered(m, id, parts, order, times, timeout, k).0.contains_key(other),
        delivered(m, id, parts, order, times, timeout, k).0[other] == m[other],
    decreases k,
{
    if k > 0 {
        lemma_other_stays(m, id, parts, order, times, timeout, other, (k - 1) as nat);
        assert(!expired(m[other], times[k - 1], timeout));
    }
}

proof fn lemma_until(
    m: Map<u64, BufV>,
    id: u64,
    parts: Seq<Seq<u8>>,
    order: Seq<int>,
    times: Seq<u64>,
    timeout: u64,
    k: nat,
)
    requires
        is_order(order, parts.len()),
        in_time(times, order.len(), timeout),
        whole(all_there(parts)).len() <= CHUNK_MAX_MESSAGE_BYTES,
        !m.contains_key(id),
        k < order.len(),
    ensures
        delivered(m, id, parts, order, times, timeout, k).1 is None,
        k == 0 ==> delivered(m, id, parts, order, times, timeout, k).0 == m,
        k > 0 ==> under_way(
            delivered(m, id, parts, order, times, timeout, k).0,
            id,
            parts,
            order,
            times[0],
            k as int,
        ),
    decreases k,
{
    if k > 0 {
        lemma_until(m, id, parts, order, times, timeout, (k - 1) as nat);
        let before = delivered(m, id, parts, order, times, timeout, (k - 1) as nat).0;
        lemma_step(before, id, parts, order, times, timeout, k as int);
    }
}

/// A chunk touches no other message than its own, but that stale messages go.
pub proof fn law_chunks_leave_other_messages_alone(
    m: Map<u64, BufV>,
    data: Seq<u8>,
    now: u64,
    timeout: u64,
    other: u64,
)
    requires
        data.len() >= CHUNK_HEADER,
        other != be(data.subrange(2, 10)) as u64,
        m.contains_key(other),
        !expired(m[other], now, timeout),
    ensures
        chunk_handled(m, data, now, timeout).0.contains_key(other),
        chunk_handled(m, data, now, timeout).0[other] == m[other],
{
}

} // verus!
