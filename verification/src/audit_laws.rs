//! What audit events say of who did what, and from where.
use vstd::prelude::*;

use crate::audit::{
    AuditV, PeerHeaders, audit_event_envelope, bare_address, category_of, first_entry,
    first_forwarded, forwarded_for, is_address, peer_of,
};
use crate::ingest::field_laws::says;
use crate::json::JsonV;
use crate::text::{dec_int, just, lemma_find_by, split, trim};
use crate::time::rfc3339_text;

verus! {

/// An action belongs to the group that it begins with, where that is one of those known.
pub proof fn law_actions_have_groups(head: Seq<char>, rest: Seq<char>)
    requires
        forall|i: int| 0 <= i < head.len() ==> #[trigger] head[i] != '.',
    ensures
        head == "auth"@ || head == "apikey"@ || head == "dashboard"@ || head == "alert"@ || head
            == "ai"@ || head == "view"@ ==> category_of(head + seq!['.'] + rest) == head,
        head != "auth"@ && head != "apikey"@ && head != "dashboard"@ && head != "alert"@ && head
            != "ai"@ && head != "view"@ ==> category_of(head + seq!['.'] + rest) == "other"@,
{
    let s = head + seq!['.'] + rest;
    let n = head.len() as int;
    assert forall|i: int| 0 <= i < n implies !just('.')(#[trigger] s[i]) by {
        assert(s[i] == head[i]);
    }
    assert(s[n] == '.');
    lemma_find_by(s, just('.'), n);
    assert(s.subrange(0, n) =~= head);
    assert(split(s, '.')[0] =~= head);
}

/// An event says who did it and how they came, and where from.
pub proof fn law_events_name_their_actor(e: AuditV, t: Seq<char>)
    requires
        e.extra == Map::<Seq<char>, JsonV>::empty(),
    ensures
        ({
            let m = audit_event_envelope(e);
            &&& e.actor_key_id matches Some(id) ==> m.contains_key("actor_key_id"@)
                && m["actor_key_id"@] == JsonV::Num(dec_int(id as int))
            &&& e.actor_key_name == Some(t) ==> says(m, "actor_key_name"@, t)
            &&& e.actor_via == Some(t) ==> says(m, "actor_via"@, t)
            &&& e.source_ip == Some(t) ==> says(m, "source_ip"@, t) && says(m, "host"@, t)
            &&& e.source_ip is None ==> says(m, "host"@, "internal"@)
            &&& says(m, "action"@, e.action) && says(m, "msg"@, e.action)
            &&& says(m, "outcome"@, e.outcome)
            &&& says(m, "level"@, e.level)
            &&& says(m, "service"@, "central-logs"@)
            &&& says(m, "ts"@, rfc3339_text(e.ts.secs, e.ts.nanos))
        }),
{
    reveal_strlit("actor_key_id");
    reveal_strlit("actor_key_name");
    reveal_strlit("actor_via");
    reveal_strlit("source_ip");
    reveal_strlit("ts");
    reveal_strlit("service");
    reveal_strlit("level");
    reveal_strlit("msg");
    reveal_strlit("host");
    reveal_strlit("action");
    reveal_strlit("outcome");
    reveal_strlit("category");
    assert("actor_key_id"@.len() == 12);
    assert("actor_key_name"@.len() == 14);
    assert("actor_via"@.len() == 9);
    assert("source_ip"@.len() == 9);
    assert("ts"@.len() == 2);
    assert("service"@.len() == 7);
    assert("level"@.len() == 5);
    assert("msg"@.len() == 3);
    assert("host"@.len() == 4);
    assert("action"@.len() == 6);
    assert("outcome"@.len() == 7);
    assert("category"@.len() == 8);
    assert("actor_via"@[0] == 'a');
    assert("outcome"@[0] == 'o');
    assert("service"@[0] == 's');
    assert("source_ip"@[0] == 's');
}

/// The details of an event are kept under their names.
pub proof fn law_details_are_kept(e: AuditV, k: Seq<char>)
    requires
        e.extra.contains_key(k),
    ensures
        audit_event_envelope(e).contains_key(k),
        audit_event_envelope(e)[k] == e.extra[k],
{
}

/// Who a request is from: the address that the first of the headers names, in their order,
/// and only where none names one the other end of the connection.
pub proof fn law_headers_count_in_order(h: PeerHeaders, fallback: Option<Seq<char>>)
    ensures
        ({
            let peer = peer_of(h, fallback);
            let first = h.cf_connecting_ip is Some && is_address(trim(h.cf_connecting_ip->0@));
            let second = h.x_real_ip is Some && is_address(trim(h.x_real_ip->0@));
            &&& first && trim(h.cf_connecting_ip->0@).len() > 0 ==> peer == trim(
                h.cf_connecting_ip->0@,
            )
            &&& h.cf_connecting_ip is None && second && trim(h.x_real_ip->0@).len() > 0 ==> peer
                == trim(h.x_real_ip->0@)
            &&& h.cf_connecting_ip is None && h.x_real_ip is None && h.forwarded is None
                && h.x_forwarded_for is None ==> peer == (match fallback {
                Some(ip) => ip,
                None => Seq::empty(),
            })
            &&& h.cf_connecting_ip is None && h.x_real_ip is None && h.forwarded is None ==> (
            h.x_forwarded_for matches Some(t) ==> (first_entry(split(t@, ',')) matches Some(ip)
                ==> is_address(ip) ==> peer == ip))
        }),
{
}

/// The first entry of a chain of addresses counts.
pub proof fn law_chains_begin_with_the_client(entries: Seq<Seq<char>>)
    requires
        entries.len() > 0,
        trim(entries[0]).len() > 0,
    ensures
        first_entry(entries) == Some(trim(entries[0])),
{
}

/// An address may stand in brackets.
pub proof fn law_brackets_are_taken_off(inner: Seq<char>)
    requires
        trim(seq!['['] + inner + seq![']']) == seq!['['] + inner + seq![']'],
    ensures
        bare_address(seq!['['] + inner + seq![']']) == inner,
{
    reveal_strlit("[");
    reveal_strlit("]");
    let s = seq!['['] + inner + seq![']'];
    assert("["@ =~= seq!['[']);
    assert("]"@ =~= seq![']']);
    assert(s.subrange(0, 1) =~= seq!['[']);
    let rest = s.subrange(1, s.len() as int);
    assert(rest =~= inner + seq![']']);
    assert(rest.subrange(rest.len() - 1, rest.len() as int) =~= seq![']']);
    assert(rest.subrange(0, rest.len() - 1) =~= inner);
}

/// Of the headers that name who a request was forwarded for, the first that names an
/// address counts.
pub proof fn law_the_first_forwarded_counts(all: Seq<Seq<char>>, i: int)
    requires
        0 <= i < all.len(),
        forwarded_for(all[i]) is Some,
        forall|j: int| 0 <= j < i ==> forwarded_for(#[trigger] all[j]) is None,
    ensures
        first_forwarded(all) == forwarded_for(all[i]),
    decreases all.len(),
{
    if i > 0 {
        let rest = all.drop_first();
        assert(forwarded_for(all[0]) is None);
        assert forall|j: int| 0 <= j < i - 1 implies forwarded_for(#[trigger] rest[j]) is None by {
            assert(rest[j] == all[j + 1]);
        }
        law_the_first_forwarded_counts(rest, i - 1);
    }
}

} // verus!
