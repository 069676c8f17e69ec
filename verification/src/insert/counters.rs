//! Counters of what the insert endpoints receive, in all and by protocol.
use vstd::prelude::*;
use vstd::string::*;

use crate::Protocol;
use crate::text::same;

verus! {

/// What was received by one protocol.
#[derive(Debug, Clone, Copy)]
pub struct ProtocolCounters {
    pub records: u64,
    pub bytes: u64,
    pub errors: u64,
}

/// What was received, in all and by protocol.
#[derive(Debug, Clone)]
pub struct InsertCounters {
    pub records_total: u64,
    pub bytes_total: u64,
    pub errors_total: u64,
    /// Events of the server's own audit that found no room.
    pub audit_dropped_total: u64,
    pub per_protocol: Vec<(&'static str, ProtocolCounters)>,
}

/// The counters of a protocol of which nothing was received.
pub open spec fn no_counts() -> ProtocolCounters {
    ProtocolCounters { records: 0, bytes: 0, errors: 0 }
}

/// The sum of a count over protocols.
pub open spec fn sum(
    s: Seq<(&'static str, ProtocolCounters)>,
    f: spec_fn(ProtocolCounters) -> nat,
) -> nat
    decreases s.len(),
{
    if s.len() == 0 {
        0
    } else {
        sum(s.drop_last(), f) + f(s.last().1)
    }
}

/// How many records there were.
pub open spec fn record_count() -> spec_fn(ProtocolCounters) -> nat {
    |c: ProtocolCounters| c.records as nat
}

/// How many bytes there were.
pub open spec fn byte_count() -> spec_fn(ProtocolCounters) -> nat {
    |c: ProtocolCounters| c.bytes as nat
}

/// How many errors there were.
pub open spec fn error_count() -> spec_fn(ProtocolCounters) -> nat {
    |c: ProtocolCounters| c.errors as nat
}

/// The counters by protocol.
pub open spec fn counters_of(s: Seq<(&'static str, ProtocolCounters)>, name: Seq<char>) -> ProtocolCounters
    decreases s.len(),
{
    if s.len() == 0 {
        no_counts()
    } else if s.last().0@ == name {
        s.last().1
    } else {
        counters_of(s.drop_last(), name)
    }
}

/// No protocol is listed twice.
pub open spec fn listed_once(s: Seq<(&'static str, ProtocolCounters)>) -> bool {
    forall|i: int, j: int| 0 <= i < j < s.len() ==> (#[trigger] s[i]).0@ != (#[trigger] s[j]).0@
}

proof fn lemma_sum_update(
    s: Seq<(&'static str, ProtocolCounters)>,
    i: int,
    c: ProtocolCounters,
    f: spec_fn(ProtocolCounters) -> nat,
)
    requires
        0 <= i < s.len(),
    ensures
        sum(s.update(i, (s[i].0, c)), f) + f(s[i].1) == sum(s, f) + f(c),
        f(s[i].1) <= sum(s, f),
    decreases s.len(),
{
    let u = s.update(i, (s[i].0, c));
    if i == s.len() - 1 {
        assert(u.drop_last() == s.drop_last());
    } else {
        assert(u.drop_last() == s.drop_last().update(i, (s.drop_last()[i].0, c)));
        lemma_sum_update(s.drop_last(), i, c, f);
    }
}

proof fn lemma_counters_at(s: Seq<(&'static str, ProtocolCounters)>, i: int)
    requires
        listed_once(s),
        0 <= i < s.len(),
    ensures
        counters_of(s, s[i].0@) == s[i].1,
    decreases s.len(),
{
    if i < s.len() - 1 {
        assert(s[i].0@ != s[s.len() - 1].0@);
        lemma_counters_at(s.drop_last(), i);
    }
}

proof fn lemma_counters_update(
    s: Seq<(&'static str, ProtocolCounters)>,
    i: int,
    c: ProtocolCounters,
    name: Seq<char>,
)
    requires
        listed_once(s),
        0 <= i < s.len(),
    ensures
        listed_once(s.update(i, (s[i].0, c))),
        counters_of(s.update(i, (s[i].0, c)), name) == if name == s[i].0@ {
            c
        } else {
            counters_of(s, name)
        },
    decreases s.len(),
{
    let u = s.update(i, (s[i].0, c));
    assert forall|a: int, b: int| 0 <= a < b < u.len() implies (#[trigger] u[a]).0@ != (
    #[trigger] u[b]).0@ by {
        assert(s[a].0@ != s[b].0@);
    }
    if i == s.len() - 1 {
        assert(u.drop_last() == s.drop_last());
    } else {
        assert(s[i].0@ != s[s.len() - 1].0@);
        assert(u.drop_last() == s.drop_last().update(i, (s.drop_last()[i].0, c)));
        lemma_counters_update(s.drop_last(), i, c, name);
    }
}

proof fn lemma_counters_none(s: Seq<(&'static str, ProtocolCounters)>, name: Seq<char>)
    requires
        forall|i: int| 0 <= i < s.len() ==> (#[trigger] s[i]).0@ != name,
    ensures
        counters_of(s, name) == no_counts(),
    decreases s.len(),
{
    if s.len() > 0 {
        lemma_counters_none(s.drop_last(), name);
    }
}

impl InsertCounters {
    /// The totals are the sums over the protocols, and no protocol is listed twice.
    pub open spec fn wf(&self) -> bool {
        &&& listed_once(self.per_protocol@)
        &&& self.records_total == sum(self.per_protocol@, record_count())
        &&& self.bytes_total == sum(self.per_protocol@, byte_count())
        &&& self.errors_total == sum(self.per_protocol@, error_count())
    }

    /// The counters of a protocol.
    pub open spec fn of(&self, name: Seq<char>) -> ProtocolCounters {
        counters_of(self.per_protocol@, name)
    }

    /// Nothing received yet.
    pub fn new() -> (r: InsertCounters)
        ensures
            r.wf(),
            r.records_total == 0,
            r.bytes_total == 0,
            r.errors_total == 0,
            r.audit_dropped_total == 0,
            forall|name: Seq<char>| #[trigger] r.of(name) == no_counts(),
    {
        let r = InsertCounters {
            records_total: 0,
            bytes_total: 0,
            errors_total: 0,
            audit_dropped_total: 0,
            per_protocol: Vec::new(),
        };
        r
    }

    /// The place of a protocol in the list, which it is added to where it is not in
    /// it.
    fn place(&mut self, name: &'static str) -> (i: usize)
        requires
            old(self).wf(),
        ensures
            final(self).wf(),
            i < final(self).per_protocol@.len(),
            final(self).per_protocol@[i as int].0@ == name@,
            final(self).per_protocol@[i as int].1 == old(self).of(name@),
            forall|x: Seq<char>| #[trigger] final(self).of(x) == old(self).of(x),
            final(self).records_total == old(self).records_total,
            final(self).bytes_total == old(self).bytes_total,
            final(self).errors_total == old(self).errors_total,
            final(self).audit_dropped_total == old(self).audit_dropped_total,
    {
        let ghost all = self.per_protocol@;
        let n: usize = self.per_protocol.len();
        for i in 0..n
            invariant
                n == all.len(),
                self.per_protocol@ == all,
                *self == *old(self),
                self.wf(),
                forall|k: int| 0 <= k < i ==> (#[trigger] all[k]).0@ != name@,
        {
            if same(self.per_protocol[i].0, name) {
                proof {
                    lemma_counters_at(all, i as int);
                }
                return i;
            }
        }
        let c = ProtocolCounters { records: 0, bytes: 0, errors: 0 };
        self.per_protocol.push((name, c));
        proof {
            lemma_counters_none(all, name@);
            assert(self.per_protocol@.drop_last() == all);
        }
        n
    }

    /// Puts other counters in the place of those of a protocol.
    fn put(&mut self, i: usize, c: ProtocolCounters)
        requires
            listed_once(old(self).per_protocol@),
            i < old(self).per_protocol@.len(),
        ensures
            ({
                let s = old(self).per_protocol@;
                &&& final(self).per_protocol@ == s.update(i as int, (s[i as int].0, c))
                &&& listed_once(final(self).per_protocol@)
                &&& forall|x: Seq<char>| #[trigger]
                    final(self).of(x) == if x == s[i as int].0@ {
                        c
                    } else {
                        old(self).of(x)
                    }
            }),
            final(self).records_total == old(self).records_total,
            final(self).bytes_total == old(self).bytes_total,
            final(self).errors_total == old(self).errors_total,
            final(self).audit_dropped_total == old(self).audit_dropped_total,
    {
        let ghost s = self.per_protocol@;
        let name = self.per_protocol[i].0;
        self.per_protocol.set(i, (name, c));
        proof {
            assert forall|x: Seq<char>| #[trigger] self.of(x) == (if x == s[i as int].0@ {
                c
            } else {
                old(self).of(x)
            }) by {
                lemma_counters_update(s, i as int, c, x);
            }
            lemma_counters_update(s, i as int, c, Seq::empty());
        }
    }

    /// Counts records of a protocol, with their bytes.
    pub fn record_n(&mut self, proto: Protocol, n: u64, bytes: u64)
        requires
            old(self).wf(),
            old(self).records_total + n <= u64::MAX,
            old(self).bytes_total + bytes <= u64::MAX,
        ensures
            final(self).wf(),
            final(self).records_total == old(self).records_total + n,
            final(self).bytes_total == old(self).bytes_total + bytes,
            final(self).errors_total == old(self).errors_total,
            final(self).audit_dropped_total == old(self).audit_dropped_total,
            ({
                let c = old(self).of(proto.name());
                final(self).of(proto.name()) == ProtocolCounters {
                    records: (c.records + n) as u64,
                    bytes: (c.bytes + bytes) as u64,
                    errors: c.errors,
                }
            }),
            forall|x: Seq<char>|
                x != proto.name() ==> #[trigger] final(self).of(x) == old(self).of(x),
    {
        let i: usize = self.place(proto.as_str());
        let c = self.per_protocol[i].1;
        let ghost s = self.per_protocol@;
        let ghost placed = *self;
        proof {
            lemma_sum_update(s, i as int, c, record_count());
            lemma_sum_update(s, i as int, c, byte_count());
        }
        let d = ProtocolCounters {
            records: c.records + n,
            bytes: c.bytes + bytes,
            errors: c.errors,
        };
        self.records_total = self.records_total + n;
        self.bytes_total = self.bytes_total + bytes;
        self.put(i, d);
        proof {
            lemma_sum_update(s, i as int, d, record_count());
            lemma_sum_update(s, i as int, d, byte_count());
            lemma_sum_update(s, i as int, d, error_count());
            assert forall|x: Seq<char>| x != proto.name() implies #[trigger] self.of(x) == old(
                self,
            ).of(x) by {
                assert(placed.of(x) == old(self).of(x));
            }
        }
    }

    /// Counts a record of a protocol, with its bytes.
    pub fn record(&mut self, proto: Protocol, bytes: usize)
        requires
            old(self).wf(),
            old(self).records_total < u64::MAX,
            old(self).bytes_total + bytes <= u64::MAX,
        ensures
            final(self).wf(),
            final(self).records_total == old(self).records_total + 1,
            final(self).bytes_total == old(self).bytes_total + bytes,
            final(self).errors_total == old(self).errors_total,
            final(self).audit_dropped_total == old(self).audit_dropped_total,
            ({
                let c = old(self).of(proto.name());
                final(self).of(proto.name()) == ProtocolCounters {
                    records: (c.records + 1) as u64,
                    bytes: (c.bytes + bytes) as u64,
                    errors: c.errors,
                }
            }),
            forall|x: Seq<char>|
                x != proto.name() ==> #[trigger] final(self).of(x) == old(self).of(x),
    {
        self.record_n(proto, 1, bytes as u64);
    }

    /// Counts errors of a protocol.
    pub fn record_error_n(&mut self, proto: Protocol, n: u64)
        requires
            old(self).wf(),
            old(self).errors_total + n <= u64::MAX,
        ensures
            final(self).wf(),
            final(self).records_total == old(self).records_total,
            final(self).bytes_total == old(self).bytes_total,
            final(self).errors_total == old(self).errors_total + n,
            final(self).audit_dropped_total == old(self).audit_dropped_total,
            ({
                let c = old(self).of(proto.name());
                final(self).of(proto.name()) == ProtocolCounters {
                    records: c.records,
                    bytes: c.bytes,
                    errors: (c.errors + n) as u64,
                }
            }),
            forall|x: Seq<char>|
                x != proto.name() ==> #[trigger] final(self).of(x) == old(self).of(x),
    {
        let i: usize = self.place(proto.as_str());
        let c = self.per_protocol[i].1;
        let ghost s = self.per_protocol@;
        let ghost placed = *self;
        proof {
            lemma_sum_update(s, i as int, c, error_count());
        }
        let d = ProtocolCounters { records: c.records, bytes: c.bytes, errors: c.errors + n };
        self.errors_total = self.errors_total + n;
        self.put(i, d);
        proof {
            lemma_sum_update(s, i as int, d, record_count());
            lemma_sum_update(s, i as int, d, byte_count());
            lemma_sum_update(s, i as int, d, error_count());
            assert forall|x: Seq<char>| x != proto.name() implies #[trigger] self.of(x) == old(
                self,
            ).of(x) by {
                assert(placed.of(x) == old(self).of(x));
            }
        }
    }

    /// Counts an error of a protocol.
    pub fn record_error(&mut self, proto: Protocol)
        requires
            old(self).wf(),
            old(self).errors_total < u64::MAX,
        ensures
            final(self).wf(),
            final(self).records_total == old(self).records_total,
            final(self).bytes_total == old(self).bytes_total,
            final(self).errors_total == old(self).errors_total + 1,
            final(self).audit_dropped_total == old(self).audit_dropped_total,
            ({
                let c = old(self).of(proto.name());
                final(self).of(proto.name()) == ProtocolCounters {
                    records: c.records,
                    bytes: c.bytes,
                    errors: (c.errors + 1) as u64,
                }
            }),
            forall|x: Seq<char>|
                x != proto.name() ==> #[trigger] final(self).of(x) == old(self).of(x),
    {
        self.record_error_n(proto, 1);
    }

    /// Counts an event of the server's own audit that found no room.
    pub fn record_audit_drop(&mut self)
        requires
            old(self).wf(),
            old(self).audit_dropped_total < u64::MAX,
        ensures
            final(self).wf(),
            final(self).records_total == old(self).records_total,
            final(self).bytes_total == old(self).bytes_total,
            final(self).errors_total == old(self).errors_total,
            final(self).audit_dropped_total == old(self).audit_dropped_total + 1,
            final(self).per_protocol@ == old(self).per_protocol@,
    {
        self.audit_dropped_total = self.audit_dropped_total + 1;
    }
}

} // verus!
