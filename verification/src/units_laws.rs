//! What sizes, durations and schedules mean.
use vstd::prelude::*;

use crate::error::ErrorV;
use crate::text::{all_digits, begins, dec, ends, is_digit, is_lower, lemma_trim_is, lower, trim};
use crate::text_laws::law_naturals_read_back;
use crate::units::{
    Schedule, clock_read, duration_secs_of, duration_unit, plain_duration, schedule_of, size_of,
    size_unit,
};

verus! {

/// The units of sizes: each decimal one is a thousand of the one before, each binary one
/// 1024.
pub proof fn law_size_units()
    ensures
        size_unit("b"@) == Some(1nat),
        size_unit("kb"@) == Some(1_000nat),
        size_unit("mb"@) == Some((1_000 * size_unit("kb"@)->0) as nat),
        size_unit("gb"@) == Some((1_000 * size_unit("mb"@)->0) as nat),
        size_unit("tb"@) == Some((1_000 * size_unit("gb"@)->0) as nat),
        size_unit("kib"@) == Some(1024nat),
        size_unit("mib"@) == Some((1024 * size_unit("kib"@)->0) as nat),
        size_unit("gib"@) == Some((1024 * size_unit("mib"@)->0) as nat),
        size_unit("tib"@) == Some((1024 * size_unit("gib"@)->0) as nat),
{
    reveal_strlit("b");
    reveal_strlit("kb");
    reveal_strlit("mb");
    reveal_strlit("gb");
    reveal_strlit("tb");
    reveal_strlit("kib");
    reveal_strlit("mib");
    reveal_strlit("gib");
    reveal_strlit("tib");
    assert("b"@.len() == 1);
    assert("kb"@.len() == 2);
    assert("mb"@.len() == 2);
    assert("gb"@.len() == 2);
    assert("tb"@.len() == 2);
    assert("kib"@.len() == 3);
    assert("mib"@.len() == 3);
    assert("gib"@.len() == 3);
    assert("tib"@.len() == 3);
    assert("gb"@[0] == 'g');
    assert("gib"@[0] == 'g');
    assert("kb"@[0] == 'k');
    assert("kib"@[0] == 'k');
    assert("mb"@[0] == 'm');
    assert("mib"@[0] == 'm');
    assert("tb"@[0] == 't');
    assert("tib"@[0] == 't');
}

/// The units of durations: seconds, minutes, hours, days, months of thirty days and years of
/// 365.
pub proof fn law_duration_units(u: Seq<char>, a: nat, b: nat)
    requires
        duration_unit(u) == Some((a, b)),
    ensures
        u == "s"@ ==> a * b == 1,
        u == "sec"@ ==> a * b == 1,
        u == "secs"@ ==> a * b == 1,
        u == "m"@ ==> a * b == 60,
        u == "min"@ ==> a * b == 60,
        u == "mins"@ ==> a * b == 60,
        u == "h"@ ==> a * b == 3600,
        u == "hr"@ ==> a * b == 3600,
        u == "hrs"@ ==> a * b == 3600,
        u == "hour"@ ==> a * b == 3600,
        u == "hours"@ ==> a * b == 3600,
        u == "d"@ ==> a * b == 86400,
        u == "day"@ ==> a * b == 86400,
        u == "days"@ ==> a * b == 86400,
        u == "mo"@ ==> a * b == 2592000,
        u == "month"@ ==> a * b == 2592000,
        u == "months"@ ==> a * b == 2592000,
        u == "y"@ ==> a * b == 31536000,
        u == "year"@ ==> a * b == 31536000,
        u == "years"@ ==> a * b == 31536000,
{
    reveal_strlit("s");
    reveal_strlit("sec");
    reveal_strlit("secs");
    reveal_strlit("m");
    reveal_strlit("min");
    reveal_strlit("mins");
    reveal_strlit("h");
    reveal_strlit("hr");
    reveal_strlit("hrs");
    reveal_strlit("hour");
    reveal_strlit("hours");
    reveal_strlit("d");
    reveal_strlit("day");
    reveal_strlit("days");
    reveal_strlit("mo");
    reveal_strlit("month");
    reveal_strlit("months");
    reveal_strlit("y");
    reveal_strlit("year");
    reveal_strlit("years");
    assert("s"@.len() == 1);
    assert("sec"@.len() == 3);
    assert("secs"@.len() == 4);
    assert("m"@.len() == 1);
    assert("min"@.len() == 3);
    assert("mins"@.len() == 4);
    assert("h"@.len() == 1);
    assert("hr"@.len() == 2);
    assert("hrs"@.len() == 3);
    assert("hour"@.len() == 4);
    assert("hours"@.len() == 5);
    assert("d"@.len() == 1);
    assert("day"@.len() == 3);
    assert("days"@.len() == 4);
    assert("mo"@.len() == 2);
    assert("month"@.len() == 5);
    assert("months"@.len() == 6);
    assert("y"@.len() == 1);
    assert("year"@.len() == 4);
    assert("years"@.len() == 5);
    assert("d"@[0] == 'd');
    assert("day"@[0] == 'd');
    assert("days"@[0] == 'd');
    assert("h"@[0] == 'h');
    assert("hour"@[0] == 'h');
    assert("hours"@[0] == 'h');
    assert("hr"@[0] == 'h');
    assert("hrs"@[0] == 'h');
    assert("m"@[0] == 'm');
    assert("min"@[0] == 'm');
    assert("mins"@[0] == 'm');
    assert("mo"@[0] == 'm');
    assert("month"@[0] == 'm');
    assert("s"@[0] == 's');
    assert("sec"@[0] == 's');
    assert("secs"@[0] == 's');
    assert("y"@[0] == 'y');
    assert("year"@[0] == 'y');
    assert("years"@[0] == 'y');
}

/// These are the units of durations, and there are no others.
pub proof fn law_durations_have_these_units(u: Seq<char>)
    ensures
        duration_unit(u) is Some <==> {
            ||| u == "s"@
            ||| u == "sec"@
            ||| u == "secs"@
            ||| u == "m"@
            ||| u == "min"@
            ||| u == "mins"@
            ||| u == "h"@
            ||| u == "hr"@
            ||| u == "hrs"@
            ||| u == "hour"@
            ||| u == "hours"@
            ||| u == "d"@
            ||| u == "day"@
            ||| u == "days"@
            ||| u == "mo"@
            ||| u == "month"@
            ||| u == "months"@
            ||| u == "y"@
            ||| u == "year"@
            ||| u == "years"@
        },
{
}

/// A whole number of seconds may stand alone; a letter behind it makes it minutes, hours or
/// days.
pub proof fn law_whole_durations(n: u64)
    requires
        n <= 1_000_000_000_000,
    ensures
        duration_secs_of(dec(n as nat)) == Some(n),
        duration_secs_of(dec(n as nat) + "s"@) == Some(n),
        duration_secs_of(dec(n as nat) + "m"@) == Some((n * 60) as u64),
        duration_secs_of(dec(n as nat) + "h"@) == Some((n * 3600) as u64),
        duration_secs_of(dec(n as nat) + "d"@) == Some((n * 86400) as u64),
{
    reveal_strlit("s");
    reveal_strlit("m");
    reveal_strlit("h");
    reveal_strlit("d");
    assert("s"@.len() == 1);
    assert("m"@.len() == 1);
    assert("h"@.len() == 1);
    assert("d"@.len() == 1);
    assert("d"@[0] == 'd');
    assert("h"@[0] == 'h');
    assert("m"@[0] == 'm');
    assert("s"@[0] == 's');
    let d = dec(n as nat);
    law_naturals_read_back(n as nat);
    lemma_digits_stay(d);
    assert(is_digit(d[d.len() - 1]));
    lemma_ends(d, "s"@);
    lemma_ends(d, "m"@);
    lemma_ends(d, "h"@);
    lemma_ends(d, "d"@);
    assert(plain_duration(d) == (d, 1nat));
    lemma_with_letter(d, "s"@);
    lemma_ends(d + "s"@, "s"@);
    assert(plain_duration(d + "s"@) == (d, 1nat));
    lemma_with_letter(d, "m"@);
    lemma_ends(d + "m"@, "s"@);
    lemma_ends(d + "m"@, "m"@);
    assert(plain_duration(d + "m"@) == (d, 60nat));
    lemma_with_letter(d, "h"@);
    lemma_ends(d + "h"@, "s"@);
    lemma_ends(d + "h"@, "m"@);
    lemma_ends(d + "h"@, "h"@);
    assert(plain_duration(d + "h"@) == (d, 3600nat));
    lemma_with_letter(d, "d"@);
    lemma_ends(d + "d"@, "s"@);
    lemma_ends(d + "d"@, "m"@);
    lemma_ends(d + "d"@, "h"@);
    lemma_ends(d + "d"@, "d"@);
    assert(plain_duration(d + "d"@) == (d, 86400nat));
}

proof fn lemma_ends(t: Seq<char>, u: Seq<char>)
    requires
        t.len() > 0,
        u.len() == 1,
    ensures
        ends(t, u) == (t.last() == u[0]),
{
    let x = t.subrange(t.len() - 1, t.len() as int);
    assert(x[0] == t.last());
    if t.last() == u[0] {
        assert(x =~= u);
    }
}

proof fn lemma_digits_stay(d: Seq<char>)
    requires
        d.len() > 0,
        all_digits(d),
    ensures
        lower(d) == d,
        trim(d) == d,
{
    assert forall|i: int| 0 <= i < d.len() implies lower(d)[i] == d[i] by {
        assert(is_digit(d[i]));
    }
    assert(lower(d) =~= d);
    assert(is_digit(d[0]) && is_digit(d[d.len() - 1]));
    lemma_trim_is(d, 0, d.len() as int);
    assert(d.subrange(0, d.len() as int) =~= d);
}

proof fn lemma_with_letter(d: Seq<char>, u: Seq<char>)
    requires
        d.len() > 0,
        all_digits(d),
        u.len() == 1,
        is_lower(u[0]),
    ensures
        lower(trim(d + u)) == d + u,
        (d + u).drop_last() == d,
        (d + u).last() == u[0],
        trim(d) == d,
{
    let t = d + u;
    lemma_digits_stay(d);
    assert(is_digit(t[0]));
    lemma_trim_is(t, 0, t.len() as int);
    assert(t.subrange(0, t.len() as int) =~= t);
    assert forall|i: int| 0 <= i < t.len() implies lower(t)[i] == t[i] by {
        if i < d.len() {
            assert(is_digit(d[i]));
        }
    }
    assert(lower(t) =~= t);
    assert(t.drop_last() =~= d);
}

/// A schedule names a time of the day, or a size.
pub proof fn law_schedules(rest: Seq<char>, s: Seq<char>)
    requires
        trim(s) == s,
    ensures
        s == "daily@"@ + rest ==> (clock_read(trim(rest)) matches Ok(x) ==> schedule_of(s) == Ok::<
            Schedule,
            ErrorV,
        >(Schedule::Daily { hour: x.0, minute: x.1 })) && (clock_read(trim(rest)) is Err
            ==> schedule_of(s) is Err),
        s == "size:"@ + rest ==> (size_of(rest) matches Ok(n) ==> schedule_of(s) == Ok::<
            Schedule,
            ErrorV,
        >(Schedule::Size(n))) && (size_of(rest) is Err ==> schedule_of(s) is Err),
        !begins(s, "daily@"@) && !begins(s, "size:"@) ==> schedule_of(s) is Err,
{
    reveal_strlit("daily@");
    reveal_strlit("size:");
    assert("daily@"@.len() == 6);
    assert("size:"@.len() == 5);
    if s == "daily@"@ + rest {
        assert(s.subrange(0, 6) =~= "daily@"@);
        assert(s.subrange(6, s.len() as int) =~= rest);
    }
    if s == "size:"@ + rest {
        assert(s.subrange(0, 5) =~= "size:"@);
        assert(s.subrange(5, s.len() as int) =~= rest);
        assert(s[0] == 's');
        if begins(s, "daily@"@) {
            assert(s.subrange(0, 6)[0] == 'd');
        }
    }
}

} // verus!
