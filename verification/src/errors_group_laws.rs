//! What becomes of error groups: events are counted, resolved groups come back, and people
//! are told of what is new.
use vstd::prelude::*;

use crate::errors::{
    ErrorNotifyConfig, GroupEvent, GroupWrite, ListParams, StoredGroup, Transition, at_most,
    can_rotate, error_rank, fingerprint, fingerprint_input, group_level, is_event_of, list_binds,
    list_conditions, list_order, list_since, normalized, notification, run_text, tracks,
    word_text, worst_level, writes,
};
use crate::errors_laws::{is_unseparated, law_parts_keep_apart, lemma_normalized_unseparated};
use crate::ingest::field_laws::says;
use crate::json::JsonV;
use crate::row::RowV;
use crate::text::{is_word_char, opt_text};
use crate::time::{Timestamp, rfc3339_text};

verus! {

/// The first event under a fingerprint opens a group: unresolved, of one event, with the
/// event's service, level and title, first seen when the event happened.
pub proof fn law_first_events_open_groups(
    w: GroupWrite,
    t: Transition,
    max: usize,
    ev: GroupEvent,
)
    requires
        writes(w, t, None, max, ev),
    ensures
        t == Transition::Created,
        w matches GroupWrite::Insert {
            total_count,
            status,
            service,
            level,
            title,
            exception_type,
            seen,
            ..
        } && total_count == 1 && status@ == "unresolved"@ && service@ == ev.service@ && level@
            == ev.level@ && title@ == ev.title@ && opt_text(exception_type) == opt_text(
            ev.exception_type,
        ) && seen == ev.ts,
{
}

/// Every later event is counted once and seen when it happened, and the group keeps its
/// title.
pub proof fn law_later_events_are_counted(
    w: GroupWrite,
    t: Transition,
    row: &StoredGroup,
    max: usize,
    ev: GroupEvent,
)
    requires
        writes(w, t, Some(row), max, ev),
    ensures
        t != Transition::Created,
        w matches GroupWrite::Update { seen, total_count, title, .. } && total_count
            == row.total_count + 1 && seen == ev.ts && (row.title matches Some(x) ==> title@ == x@)
            && (row.title is None ==> title@ == ev.title@),
{
}

/// A resolved group comes back with its next event, and is then unresolved again; a group
/// that is ignored or unresolved stays so, and does not come back.
pub proof fn law_resolved_groups_come_back(
    w: GroupWrite,
    t: Transition,
    row: &StoredGroup,
    max: usize,
    ev: GroupEvent,
)
    requires
        writes(w, t, Some(row), max, ev),
    ensures
        t == Transition::Regressed <==> row.status@ == "resolved"@,
        w matches GroupWrite::Update { status, resolved_at, .. } && {
            &&& row.status@ == "resolved"@ ==> status@ == "unresolved"@ && resolved_at is None
            &&& row.status@ == "ignored"@ ==> status@ == "ignored"@ && resolved_at
                == row.resolved_at
            &&& row.status@ == "unresolved"@ ==> status@ == "unresolved"@
        },
{
    reveal_strlit("resolved");
    reveal_strlit("ignored");
    reveal_strlit("unresolved");
    assert("resolved"@.len() == 8 && "ignored"@.len() == 7 && "unresolved"@.len() == 10);
}

/// A group is as bad as the worst of its events: fatal once one of them was, else an error.
pub proof fn law_groups_are_as_bad_as_their_worst_event(
    stored: Seq<char>,
    title: Option<Seq<char>>,
    level: Seq<char>,
)
    ensures
        stored == "fatal"@ || level == "fatal"@ ==> group_level(Some(stored), title, level)
            == "fatal"@,
        stored == "error"@ && level == "error"@ ==> group_level(Some(stored), title, level)
            == "error"@,
        group_level(None, None, level) == level,
{
    reveal_strlit("fatal");
    reveal_strlit("error");
    assert("fatal"@[0] == 'f' && "error"@[0] == 'e');
}

/// The levels of errors, from the worst on.
pub proof fn law_error_levels_are_ordered(level: Seq<char>)
    ensures
        error_rank("fatal"@) > error_rank("error"@),
        error_rank("error"@) > error_rank("warn"@),
        level != "fatal"@ && level != "error"@ && level != "warn"@ ==> error_rank("warn"@)
            > error_rank(level),
{
    reveal_strlit("fatal");
    reveal_strlit("error");
    reveal_strlit("warn");
    assert("fatal"@[0] == 'f' && "error"@[0] == 'e' && "warn"@.len() == 4);
    assert("fatal"@.len() == 5 && "error"@.len() == 5);
}

/// People are told of a new group and of one that came back, where they want to be and where
/// the event is bad enough; and never of an event of a group that is known and open.
pub proof fn law_people_are_told(cfg: ErrorNotifyConfig, level: Seq<char>)
    ensures
        notification(cfg, Transition::Updated, level) is None,
        cfg.min_level@ == "error"@ && (level == "error"@ || level == "fatal"@) ==> {
            &&& cfg.on_new_group ==> notification(cfg, Transition::Created, level) == Some(
                "group.created"@,
            )
            &&& cfg.on_regression ==> notification(cfg, Transition::Regressed, level) == Some(
                "group.regressed"@,
            )
        },
        cfg.min_level@ == "fatal"@ && level == "error"@ ==> notification(
            cfg,
            Transition::Created,
            level,
        ) is None && notification(cfg, Transition::Regressed, level) is None,
        !cfg.on_new_group ==> notification(cfg, Transition::Created, level) is None,
        !cfg.on_regression ==> notification(cfg, Transition::Regressed, level) is None,
{
    law_error_levels_are_ordered(level);
}

/// The rows that are tracked are the errors with a fingerprint.
pub proof fn law_errors_are_tracked(row: RowV)
    ensures
        tracks(row) <==> row.fingerprint.len() > 0 && (row.level == "error"@ || row.level
            == "fatal"@),
{
}

/// The event of a row says what the row says: its fingerprint, its service, its level, its
/// time, the beginning of its message as the title, and its stack.
pub proof fn law_events_say_what_rows_say(ev: GroupEvent, row: RowV, t: Seq<char>)
    requires
        is_event_of(ev, row),
    ensures
        ev.fingerprint@ == row.fingerprint,
        ev.service@ == row.service,
        ev.level@ == row.level,
        ev.ts == row.ts,
        row.message.len() <= 200 ==> ev.title@ == row.message,
        row.message.len() > 200 ==> ev.title@ == row.message.take(200),
        says(row.attributes, "stack"@, t) ==> opt_text(ev.stack) == Some(t),
        says(row.attributes, "exception_type"@, t) ==> opt_text(ev.exception_type) == Some(t),
        !row.attributes.contains_key("stack"@) ==> ev.stack is None,
{
}

/// A sample of a group holds the event's stack, when it was first seen, and the hash that
/// tells it from others.
pub proof fn law_samples_hold_the_stack(ev: GroupEvent)
    ensures
        ev.sample() matches JsonV::Obj(m) && says(m, "variant_hash"@, ev.variant()) && says(
            m,
            "first_seen"@,
            rfc3339_text(ev.ts.secs, ev.ts.nanos),
        ) && (ev.stack matches Some(s) ==> says(m, "stack"@, s@)) && (ev.stack is None
            ==> m.contains_key("stack"@) && m["stack"@] is Null),
{
    reveal_strlit("variant_hash");
    reveal_strlit("first_seen");
    reveal_strlit("stack");
    assert("variant_hash"@.len() == 12 && "first_seen"@.len() == 10 && "stack"@.len() == 5);
}

/// The error list asks for the groups seen since a point in time: those that are unresolved
/// where nothing is said, those of a status where one is named, and all of them else.
pub proof fn law_lists_ask_for_a_status(p: ListParams)
    requires
        p.service is None,
        p.q is None,
    ensures
        p.status is None ==> list_conditions(p) == seq![
            "last_seen >= ?"@,
            "status = 'unresolved'"@,
        ],
        p.status matches Some(s) ==> {
            &&& s@ == "unresolved"@ || s@ == "resolved"@ || s@ == "ignored"@ ==> list_conditions(p)
                == seq!["last_seen >= ?"@, "status = '"@ + s@ + "'"@]
            &&& s@ != "unresolved"@ && s@ != "resolved"@ && s@ != "ignored"@ ==> list_conditions(p)
                == seq!["last_seen >= ?"@]
        },
{
    let none = Seq::<Seq<char>>::empty();
    let head = seq!["last_seen >= ?"@];
    match p.status {
        None => {
            assert(list_conditions(p) =~= seq!["last_seen >= ?"@, "status = 'unresolved'"@]);
        },
        Some(s) => {
            if s@ == "unresolved"@ || s@ == "resolved"@ || s@ == "ignored"@ {
                assert(list_conditions(p) =~= seq!["last_seen >= ?"@, "status = '"@ + s@ + "'"@]);
            } else {
                assert(list_conditions(p) =~= head);
            }
        },
    }
}

/// A service and a text that are asked for are bound, never part of the SQL; the text is
/// looked for in the titles and in the types.
pub proof fn law_lists_bind_what_is_asked_for(
    p: ListParams,
    since: Seq<char>,
    service: String,
    q: String,
)
    requires
        p.service == Some(service),
        p.q == Some(q),
    ensures
        list_binds(p, since) == seq![since, service@, "%"@ + q@ + "%"@, "%"@ + q@ + "%"@],
        list_conditions(p).contains("service = ?"@),
        list_conditions(p).contains("(title ILIKE ? OR exception_type ILIKE ?)"@),
{
    assert(list_binds(p, since) =~= seq![
        since,
        service@,
        "%"@ + q@ + "%"@,
        "%"@ + q@ + "%"@,
    ]);
    let c = list_conditions(p);
    let n = c.len() as int;
    assert(c[n - 1] == "(title ILIKE ? OR exception_type ILIKE ?)"@);
    assert(c[n - 2] == "service = ?"@);
}

/// The list begins with what was seen last, or, where that is asked for, with what was seen
/// most often.
pub proof fn law_lists_are_ordered(p: ListParams)
    ensures
        p.sort@ == "count"@ ==> list_order(p) == "total_count DESC, last_seen DESC"@,
        p.sort@ != "count"@ ==> list_order(p) == "last_seen DESC"@,
{
}

/// The samples of a group are told apart by the whole stack, or by the title where there is
/// none: two events whose stacks are normalized alike are one variant, and what is digested of
/// others differs.
pub proof fn law_variants_are_of_the_stack(a: GroupEvent, b: GroupEvent)
    requires
        a.stack is Some,
        b.stack is Some,
    ensures
        normalized(a.stack->0@) == normalized(b.stack->0@) ==> a.variant() == b.variant(),
        a.variant() == fingerprint("v"@, seq![normalized(a.stack->0@)]),
        is_unseparated(a.stack->0@) && is_unseparated(b.stack->0@) && normalized(a.stack->0@)
            != normalized(b.stack->0@) ==> fingerprint_input("v"@, seq![normalized(a.stack->0@)])
            != fingerprint_input("v"@, seq![normalized(b.stack->0@)]),
{
    let x = normalized(a.stack->0@);
    let y = normalized(b.stack->0@);
    reveal_strlit("v");
    if is_unseparated(a.stack->0@) && is_unseparated(b.stack->0@) && x != y {
        lemma_normalized_unseparated(a.stack->0@);
        lemma_normalized_unseparated(b.stack->0@);
        assert(seq![x][0] == x && seq![y][0] == y);
        if fingerprint_input("v"@, seq![x]) == fingerprint_input("v"@, seq![y]) {
            law_parts_keep_apart("v"@, seq![x], seq![y]);
        }
    }
}

/// An event without a stack is told by its title.
pub proof fn law_titles_stand_for_stacks(ev: GroupEvent)
    requires
        ev.stack is None,
    ensures
        ev.variant() == fingerprint("v"@, seq![normalized(ev.title@)]),
{
}

/// The error list looks back as far as it is asked to, and at least a second.
pub proof fn law_lists_look_back(p: ListParams, now: Timestamp)
    requires
        list_since(p, now) is Some,
    ensures
        p.window_secs >= 1 ==> list_since(p, now)->0.secs + p.window_secs == now.secs,
        p.window_secs < 1 ==> list_since(p, now)->0.secs + 1 == now.secs,
{
}

/// A stack is cut to its first lines.
pub proof fn law_first_items<T>(s: Seq<T>, n: int)
    requires
        n >= 0,
    ensures
        at_most(s, n).len() <= n,
        s.len() <= n ==> at_most(s, n) == s,
        s.len() > n ==> at_most(s, n) == s.take(n),
{
}

/// An event finds room in a group that knows its variant, that is not full, that has no two
/// samples or that knows two variants, and in no other.
pub proof fn law_room_in_a_group(
    samples: Seq<JsonV>,
    variants: Seq<Seq<char>>,
    variant: Seq<char>,
    max: int,
)
    ensures
        variants.contains(variant) ==> can_rotate(samples, variants, variant, max),
        samples.len() < max ==> can_rotate(samples, variants, variant, max),
        samples.len() <= 1 ==> can_rotate(samples, variants, variant, max),
        variants.len() > 1 ==> can_rotate(samples, variants, variant, max),
        !variants.contains(variant) && samples.len() >= max && samples.len() > 1 && variants.len()
            <= 1 ==> !can_rotate(samples, variants, variant, max),
{
}

/// What stands between the words of a message is kept.
pub proof fn law_separators_are_kept(c: char, w: Seq<char>, run: Seq<char>)
    requires
        !is_word_char(c),
    ensures
        word_text(seq![c] + w, run) == run_text(run) + seq![c] + word_text(w, Seq::empty()),
        word_text(Seq::empty(), run) == run_text(run),
{
    assert((seq![c] + w).drop_first() =~= w);
}

/// Of two levels the worse counts: a group with something fatal in it is fatal.
pub proof fn law_the_worse_level_counts(l: Seq<char>, m: Seq<char>)
    ensures
        worst_level("fatal"@, l) == "fatal"@,
        worst_level(l, "fatal"@) == "fatal"@,
        l != "fatal"@ && m != "fatal"@ ==> worst_level(l, m) == "error"@,
{
}

} // verus!
