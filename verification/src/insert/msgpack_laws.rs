//! What holds of every decoding: it ends within the buffer, later bytes do not
//! change it, and a beginning of a value is never mistaken for a fault.
use vstd::prelude::*;

use crate::insert::msgpack::{
    Form, Length, MsgFault, MsgV, body_at, decoded, form, items_at, key_text, length_at,
    members_at, msg_at,
};

verus! {

/// A value takes at least one byte and ends within the buffer.
pub proof fn law_progress(b: Seq<u8>, p: int)
    ensures
        msg_at(b, p) matches Ok(x) ==> p < x.1 <= b.len(),
    decreases b.len() - p, 0nat,
{
    if 0 <= p < b.len() {
        match form(b[p]) {
            Form::List(l) => {
                if let Ok((n, r)) = length_at(b, p + 1, l) {
                    if p + 1 <= r <= b.len() {
                        lemma_items_progress(b, r, n, Seq::empty());
                    }
                }
            },
            Form::Dict(l) => {
                if let Ok((n, r)) = length_at(b, p + 1, l) {
                    if p + 1 <= r <= b.len() {
                        lemma_members_progress(b, r, n, Seq::empty());
                    }
                }
            },
            _ => {},
        }
    }
}

proof fn lemma_items_progress(b: Seq<u8>, p: int, n: nat, done: Seq<MsgV>)
    requires
        p <= b.len(),
    ensures
        items_at(b, p, n, done) matches Ok(x) ==> p <= x.1 <= b.len(),
    decreases b.len() - p, n + 1,
{
    if n > 0 {
        if let Ok((v, q)) = msg_at(b, p) {
            if p < q <= b.len() {
                lemma_items_progress(b, q, (n - 1) as nat, done.push(v));
            }
        }
    }
}

proof fn lemma_members_progress(b: Seq<u8>, p: int, n: nat, done: Seq<(Seq<char>, MsgV)>)
    requires
        p <= b.len(),
    ensures
        members_at(b, p, n, done) matches Ok(x) ==> p <= x.1 <= b.len(),
    decreases b.len() - p, n + 1,
{
    if n > 0 {
        if let Ok((k, q)) = msg_at(b, p) {
            if p < q <= b.len() {
                if let Ok((v, r)) = msg_at(b, q) {
                    if q < r <= b.len() {
                        lemma_members_progress(
                            b,
                            r,
                            (n - 1) as nat,
                            done.push((key_text(k), v)),
                        );
                    }
                }
            }
        }
    }
}

/// A value is read from its own bytes alone: whatever two buffers that agree up to
/// its end hold behind it, the same value is decoded from both.
pub proof fn law_later_bytes_do_not_matter(b: Seq<u8>, c: Seq<u8>, p: int)
    requires
        msg_at(b, p) is Ok,
        ({
            let end = msg_at(b, p)->Ok_0.1;
            end <= c.len() && forall|i: int| 0 <= i < end ==> b[i] == c[i]
        }),
    ensures
        msg_at(c, p) == msg_at(b, p),
    decreases b.len() - p, 0nat,
{
    law_progress(b, p);
    let end = msg_at(b, p)->Ok_0.1;
    let q = p + 1;
    assert(b[p] == c[p]);
    match form(b[p]) {
        Form::Unsigned(k) => {
            assert(b.subrange(q, q + k) =~= c.subrange(q, q + k));
        },
        Form::Signed(k) => {
            assert(b.subrange(q, q + k) =~= c.subrange(q, q + k));
        },
        Form::Single => {
            assert(b.subrange(q, q + 4) =~= c.subrange(q, q + 4));
        },
        Form::Double => {
            assert(b.subrange(q, q + 8) =~= c.subrange(q, q + 8));
        },
        Form::Text(l) => lemma_body_agrees(b, c, q, l),
        Form::Bytes(l) => lemma_body_agrees(b, c, q, l),
        Form::List(l) => {
            let (n, r) = length_at(b, q, l)->Ok_0;
            lemma_items_progress(b, r, n, Seq::empty());
            lemma_length_agrees(b, c, q, l);
            lemma_items_agree(b, c, r, n, Seq::empty());
        },
        Form::Dict(l) => {
            let (n, r) = length_at(b, q, l)->Ok_0;
            lemma_members_progress(b, r, n, Seq::empty());
            lemma_length_agrees(b, c, q, l);
            lemma_members_agree(b, c, r, n, Seq::empty());
        },
        Form::Extension(l) => {
            let (n, r) = length_at(b, q, l)->Ok_0;
            lemma_length_agrees(b, c, q, l);
            assert(b[r] == c[r]);
            assert(b.subrange(r + 1, r + 1 + n) =~= c.subrange(r + 1, r + 1 + n));
        },
        _ => {},
    }
}

proof fn lemma_length_agrees(b: Seq<u8>, c: Seq<u8>, p: int, l: Length)
    requires
        0 <= p,
        length_at(b, p, l) is Ok,
        ({
            let end = length_at(b, p, l)->Ok_0.1;
            end <= c.len() && forall|i: int| 0 <= i < end ==> b[i] == c[i]
        }),
    ensures
        length_at(c, p, l) == length_at(b, p, l),
{
    if let Length::Field(k) = l {
        assert(b.subrange(p, p + k) =~= c.subrange(p, p + k));
    }
}

proof fn lemma_body_agrees(b: Seq<u8>, c: Seq<u8>, p: int, l: Length)
    requires
        0 <= p,
        body_at(b, p, l) is Ok,
        ({
            let end = body_at(b, p, l)->Ok_0.1;
            end <= c.len() && forall|i: int| 0 <= i < end ==> b[i] == c[i]
        }),
    ensures
        body_at(c, p, l) == body_at(b, p, l),
{
    let (n, q) = length_at(b, p, l)->Ok_0;
    lemma_length_agrees(b, c, p, l);
    assert(b.subrange(q, q + n) =~= c.subrange(q, q + n));
}

proof fn lemma_items_agree(b: Seq<u8>, c: Seq<u8>, p: int, n: nat, done: Seq<MsgV>)
    requires
        0 <= p <= b.len(),
        items_at(b, p, n, done) is Ok,
        ({
            let end = items_at(b, p, n, done)->Ok_0.1;
            end <= c.len() && forall|i: int| 0 <= i < end ==> b[i] == c[i]
        }),
    ensures
        items_at(c, p, n, done) == items_at(b, p, n, done),
    decreases b.len() - p, n + 1,
{
    if n > 0 {
        let (v, q) = msg_at(b, p)->Ok_0;
        lemma_items_progress(b, q, (n - 1) as nat, done.push(v));
        law_later_bytes_do_not_matter(b, c, p);
        lemma_items_agree(b, c, q, (n - 1) as nat, done.push(v));
    }
}

proof fn lemma_members_agree(
    b: Seq<u8>,
    c: Seq<u8>,
    p: int,
    n: nat,
    done: Seq<(Seq<char>, MsgV)>,
)
    requires
        0 <= p <= b.len(),
        members_at(b, p, n, done) is Ok,
        ({
            let end = members_at(b, p, n, done)->Ok_0.1;
            end <= c.len() && forall|i: int| 0 <= i < end ==> b[i] == c[i]
        }),
    ensures
        members_at(c, p, n, done) == members_at(b, p, n, done),
    decreases b.len() - p, n + 1,
{
    if n > 0 {
        let (k, q) = msg_at(b, p)->Ok_0;
        let (v, r) = msg_at(b, q)->Ok_0;
        lemma_members_progress(b, r, (n - 1) as nat, done.push((key_text(k), v)));
        law_later_bytes_do_not_matter(b, c, p);
        law_later_bytes_do_not_matter(b, c, q);
        lemma_members_agree(b, c, r, (n - 1) as nat, done.push((key_text(k), v)));
    }
}

/// A value that is not there in full is waited for: every beginning of a value
/// that ends before the value does gives nothing yet, and no fault.
pub proof fn law_incomplete_is_no_fault(b: Seq<u8>, n: int)
    requires
        msg_at(b, 0) is Ok,
        0 <= n < msg_at(b, 0)->Ok_0.1,
    ensures
        decoded(b.take(n)) == Ok::<Option<(MsgV, int)>, MsgFault>(None),
{
    law_progress(b, 0);
    lemma_cut(b, b.take(n), 0);
}

/// A buffer that is cut off within a value.
spec fn is_cut(b: Seq<u8>, c: Seq<u8>, end: int) -> bool {
    c.len() < end <= b.len() && forall|i: int| 0 <= i < c.len() ==> b[i] == c[i]
}

proof fn lemma_cut(b: Seq<u8>, c: Seq<u8>, p: int)
    requires
        0 <= p <= c.len(),
        msg_at(b, p) is Ok,
        is_cut(b, c, msg_at(b, p)->Ok_0.1),
    ensures
        msg_at(c, p) matches Err(f) && f.kind == "eof"@,
    decreases b.len() - p, 0nat,
{
    let end = msg_at(b, p)->Ok_0.1;
    let q = p + 1;
    if p < c.len() {
        assert(b[p] == c[p]);
        match form(b[p]) {
            Form::Text(l) => lemma_body_cut(b, c, q, l),
            Form::Bytes(l) => lemma_body_cut(b, c, q, l),
            Form::List(l) => {
                let (n, r) = length_at(b, q, l)->Ok_0;
                if r <= c.len() {
                    lemma_length_agrees(b, c, q, l);
                    lemma_items_progress(b, r, n, Seq::empty());
                    lemma_items_cut(b, c, r, n, Seq::empty());
                }
            },
            Form::Dict(l) => {
                let (n, r) = length_at(b, q, l)->Ok_0;
                if r <= c.len() {
                    lemma_length_agrees(b, c, q, l);
                    lemma_members_progress(b, r, n, Seq::empty());
                    lemma_members_cut(b, c, r, n, Seq::empty());
                }
            },
            Form::Extension(l) => {
                let (n, r) = length_at(b, q, l)->Ok_0;
                if r <= c.len() {
                    lemma_length_agrees(b, c, q, l);
                }
            },
            _ => {},
        }
    }
}

proof fn lemma_body_cut(b: Seq<u8>, c: Seq<u8>, p: int, l: Length)
    requires
        0 <= p <= c.len(),
        body_at(b, p, l) is Ok,
        is_cut(b, c, body_at(b, p, l)->Ok_0.1),
    ensures
        body_at(c, p, l) matches Err(f) && f.kind == "eof"@,
{
    let (n, q) = length_at(b, p, l)->Ok_0;
    if q <= c.len() {
        lemma_length_agrees(b, c, p, l);
    }
}

proof fn lemma_items_cut(b: Seq<u8>, c: Seq<u8>, p: int, n: nat, done: Seq<MsgV>)
    requires
        0 <= p <= c.len(),
        items_at(b, p, n, done) is Ok,
        is_cut(b, c, items_at(b, p, n, done)->Ok_0.1),
    ensures
        items_at(c, p, n, done) matches Err(f) && f.kind == "eof"@,
    decreases b.len() - p, n + 1,
{
    let (v, q) = msg_at(b, p)->Ok_0;
    if q <= c.len() {
        law_later_bytes_do_not_matter(b, c, p);
        lemma_items_cut(b, c, q, (n - 1) as nat, done.push(v));
    } else {
        lemma_cut(b, c, p);
    }
}

proof fn lemma_members_cut(
    b: Seq<u8>,
    c: Seq<u8>,
    p: int,
    n: nat,
    done: Seq<(Seq<char>, MsgV)>,
)
    requires
        0 <= p <= c.len(),
        members_at(b, p, n, done) is Ok,
        is_cut(b, c, members_at(b, p, n, done)->Ok_0.1),
    ensures
        members_at(c, p, n, done) matches Err(f) && f.kind == "eof"@,
    decreases b.len() - p, n + 1,
{
    let (k, q) = msg_at(b, p)->Ok_0;
    let (v, r) = msg_at(b, q)->Ok_0;
    if q <= c.len() {
        law_later_bytes_do_not_matter(b, c, p);
        if r <= c.len() {
            law_later_bytes_do_not_matter(b, c, q);
            lemma_members_cut(b, c, r, (n - 1) as nat, done.push((key_text(k), v)));
        } else {
            lemma_cut(b, c, q);
        }
    } else {
        lemma_cut(b, c, p);
    }
}

} // verus!
