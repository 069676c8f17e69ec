//! What holds of every parsed row.
use vstd::prelude::*;
use vstd::string::*;
use vstd::utf8::{encode_utf8, encode_utf8_decode_utf8, encode_utf8_valid_utf8};

use crate::{Protocol, RawRecord};
use crate::hot::{HotAttributeV, coerced};
use crate::ingest::parse::{
    base_row, either_text, finished, hot_found, is_parse_of, is_stamped, is_syslog, json_row,
    level_of, lifted, merged, message_text, path_leaf, payload_of, reserved, residue,
    rfc5424_read, syslog_row,
};
use crate::insert::envelope::carries;
use crate::json::{JsonV, is_plain, json_text, member, reads_as, text_in};
use crate::row::RowV;
use crate::text::{
    is_lower, is_space, is_upper, lemma_trim_bounds, lemma_trim_is, lower, lower_char, trim,
    upper, upper_char,
};
use crate::time::Timestamp;

verus! {

proof fn lemma_residue_within(
    attrs: Map<Seq<char>, JsonV>,
    all: Map<Seq<char>, JsonV>,
    hot: Seq<HotAttributeV>,
    k: Seq<char>,
)
    ensures
        residue(attrs, all, hot).contains_key(k) ==> attrs.contains_key(k) && residue(
            attrs,
            all,
            hot,
        )[k] == attrs[k],
    decreases hot.len(),
{
    if hot.len() > 0 {
        lemma_residue_within(attrs, all, hot.drop_last(), k);
    }
}

/// What has a column of its own never stands among the attributes of a row.
pub proof fn law_reserved_names_are_no_attributes(
    base: RowV,
    m: Map<Seq<char>, JsonV>,
    body: Seq<char>,
    hot: Seq<HotAttributeV>,
    unwrap_message: bool,
    k: Seq<char>,
)
    requires
        reserved().contains(k),
    ensures
        !json_row(base, m, body, hot, unwrap_message).attributes.contains_key(k),
{
    let inner = lifted(m, unwrap_message);
    let all = merged(m, inner);
    lemma_residue_within(all.remove_keys(reserved().to_set()), all, hot, k);
}

/// Everything else that an envelope holds, and that is not promoted, stands among
/// the attributes as it is.
pub proof fn law_the_rest_is_kept(
    base: RowV,
    m: Map<Seq<char>, JsonV>,
    body: Seq<char>,
    unwrap_message: bool,
    k: Seq<char>,
)
    requires
        m.contains_key(k),
        !reserved().contains(k),
    ensures
        json_row(base, m, body, Seq::empty(), unwrap_message).attributes.contains_key(k),
        json_row(base, m, body, Seq::empty(), unwrap_message).attributes[k] == m[k],
{
}

proof fn lemma_promoted_leaf(
    attrs: Map<Seq<char>, JsonV>,
    all: Map<Seq<char>, JsonV>,
    hot: Seq<HotAttributeV>,
    i: int,
)
    requires
        0 <= i < hot.len(),
        hot_found(all, hot[i]) is Some,
        !path_leaf(hot[i].json_path).contains('.'),
    ensures
        !residue(attrs, all, hot).contains_key(path_leaf(hot[i].json_path)),
    decreases hot.len(),
{
    if i < hot.len() - 1 {
        lemma_promoted_leaf(attrs, all, hot.drop_last(), i);
    }
}

/// A promoted attribute has its value in a column of its own, and where it stands at
/// the top of the envelope it is no attribute any more.
pub proof fn law_promoted_keys_leave_the_attributes(
    base: RowV,
    m: Map<Seq<char>, JsonV>,
    body: Seq<char>,
    hot: Seq<HotAttributeV>,
    unwrap_message: bool,
    i: int,
)
    requires
        0 <= i < hot.len(),
        hot_found(merged(m, lifted(m, unwrap_message)), hot[i]) is Some,
    ensures
        ({
            let row = json_row(base, m, body, hot, unwrap_message);
            let found = hot_found(merged(m, lifted(m, unwrap_message)), hot[i])->0;
            &&& row.hot[i] == coerced(found, hot[i].duckdb_type)
            &&& !path_leaf(hot[i].json_path).contains('.') ==> !row.attributes.contains_key(
                path_leaf(hot[i].json_path),
            )
        }),
{
    let all = merged(m, lifted(m, unwrap_message));
    if !path_leaf(hot[i].json_path).contains('.') {
        lemma_promoted_leaf(all.remove_keys(reserved().to_set()), all, hot, i);
    }
}

/// A message that is a JSON object is opened: what it holds stands among the
/// attributes, unless the envelope says otherwise.
pub proof fn law_messages_are_opened(
    base: RowV,
    m: Map<Seq<char>, JsonV>,
    body: Seq<char>,
    message: Seq<char>,
    inner: Map<Seq<char>, JsonV>,
    k: Seq<char>,
)
    requires
        message_text(m) == Some(message),
        reads_as(message, JsonV::Obj(inner)),
        inner.contains_key(k),
        !m.contains_key(k),
        !reserved().contains(k),
    ensures
        member(json_row(base, m, body, Seq::empty(), true).attributes, k) == Some(inner[k]),
{
}

/// A key that is to be dropped stands among the attributes of no row.
pub proof fn law_dropped_keys_are_gone(row: RowV, drop_keys: Seq<Seq<char>>, k: Seq<char>)
    requires
        drop_keys.contains(k),
    ensures
        !finished(row, drop_keys).attributes.contains_key(k),
{
}

/// A fingerprint that a row brings along is kept.
pub proof fn law_own_fingerprints_are_kept(row: RowV, drop_keys: Seq<Seq<char>>)
    requires
        row.fingerprint.len() > 0,
    ensures
        finished(row, drop_keys).fingerprint == row.fingerprint,
{
}

/// What a record carries is what its row is made of: the envelope that was written
/// into a record is the one that the parser reads out of it, and so is the point in
/// time with which it was stamped.
pub proof fn law_envelopes_are_read_back(
    row: RowV,
    rec: RawRecord,
    now: Timestamp,
    source: Seq<char>,
    protocol: Protocol,
    envelope: Map<Seq<char>, JsonV>,
    hot: Seq<HotAttributeV>,
    unwrap_message: bool,
)
    requires
        carries(rec, now, source, protocol, envelope),
        is_plain(JsonV::Obj(envelope), 127),
        is_parse_of(row, rec, hot, unwrap_message),
    ensures
        row == json_row(
            base_row(rec, hot),
            envelope,
            json_text(JsonV::Obj(envelope)),
            hot,
            unwrap_message,
        ),
        forall|t: Timestamp| #[trigger] is_stamped(envelope, t) ==> row.ts == t,
{
    let text = json_text(JsonV::Obj(envelope));
    encode_utf8_valid_utf8(text);
    encode_utf8_decode_utf8(text);
}

/// A line that was sent under a service and a level stands in its row under them, with
/// the level's usual name; and the row says where it came from and how.
pub proof fn law_lines_are_read_back(
    row: RowV,
    rec: RawRecord,
    now: Timestamp,
    source: Seq<char>,
    protocol: Protocol,
    envelope: Map<Seq<char>, JsonV>,
    hot: Seq<HotAttributeV>,
    unwrap_message: bool,
    line: Seq<char>,
    level: Seq<char>,
    service: Seq<char>,
)
    requires
        carries(rec, now, source, protocol, envelope),
        is_plain(JsonV::Obj(envelope), 127),
        is_parse_of(row, rec, hot, unwrap_message),
        either_text(envelope, "msg"@, "message"@) == Some(line),
        text_in(member(envelope, "level"@)) == Some(level),
        text_in(member(envelope, "service"@)) == Some(service),
    ensures
        row.message == line,
        row.level == level_of(level),
        row.service == service,
        row.protocol == protocol.name(),
        !unwrap_message && !envelope.contains_key("host"@) ==> row.source_host == source,
{
    law_envelopes_are_read_back(row, rec, now, source, protocol, envelope, hot, unwrap_message);
}

/// A syslog line that is recognized in the newer form has one row, whatever the older
/// form makes of it, and whatever the clock and the machine say.
pub proof fn law_the_newer_form_counts_first(
    row: RowV,
    rec: RawRecord,
    hot: Seq<HotAttributeV>,
    unwrap_message: bool,
)
    requires
        is_syslog(rec.protocol),
        payload_of(rec.raw@).0 is Plain,
        rfc5424_read(payload_of(rec.raw@).1).recognized(),
        is_parse_of(row, rec, hot, unwrap_message),
    ensures
        row == syslog_row(base_row(rec, hot), rfc5424_read(payload_of(rec.raw@).1)),
{
}

/// Lower case takes as many bytes.
proof fn lemma_lower_width(s: Seq<char>)
    ensures
        encode_utf8(lower(s)).len() == encode_utf8(s).len(),
    decreases s.len(),
{
    if s.len() > 0 {
        assert(lower(s).drop_first() =~= lower(s.drop_first()));
        lemma_lower_width(s.drop_first());
        let c = s[0];
        let d = lower_char(c);
        assert(lower(s)[0] == d);
        if is_upper(c) {
            assert(d as u32 == c as u32 + 32);
        }
    }
}

/// One byte for each character of the alphabet.
proof fn lemma_letters_width(s: Seq<char>)
    requires
        forall|i: int| 0 <= i < s.len() ==> is_lower(#[trigger] s[i]),
    ensures
        encode_utf8(s).len() == s.len(),
    decreases s.len(),
{
    if s.len() > 0 {
        let rest = s.drop_first();
        assert forall|i: int| 0 <= i < rest.len() implies is_lower(#[trigger] rest[i]) by {
            assert(is_lower(s[i + 1]));
        }
        lemma_letters_width(rest);
        assert(is_lower(s[0]));
    }
}

/// Trimmed text stays as it is.
proof fn lemma_trim_letters(s: Seq<char>)
    requires
        s.len() == 0 || !is_space(s[0]) && !is_space(s.last()),
    ensures
        trim(s) == s,
{
    if s.len() > 0 {
        lemma_trim_is(s, 0, s.len() as int);
        assert(s.subrange(0, s.len() as int) =~= s);
    } else {
        let (lo, hi) = lemma_trim_bounds(s);
        assert(trim(s) =~= s);
    }
}

/// What stands for a level of its own.
pub(crate) proof fn lemma_named_level(s: Seq<char>)
    requires
        s == "debug"@ || s == "info"@ || s == "warn"@ || s == "error"@ || s == "fatal"@,
    ensures
        level_of(s) == s,
        encode_utf8(s).len() <= 32,
        forall|i: int| 0 <= i < s.len() ==> !is_upper(#[trigger] s[i]),
{
    reveal_strlit("debug");
    reveal_strlit("info");
    reveal_strlit("warn");
    reveal_strlit("error");
    reveal_strlit("fatal");
    reveal_strlit("DEBUG");
    reveal_strlit("INFO");
    reveal_strlit("WARN");
    reveal_strlit("ERROR");
    reveal_strlit("FATAL");
    reveal_strlit("TRACE");
    reveal_strlit("FINEST");
    reveal_strlit("VERBOSE");
    reveal_strlit("DBG");
    reveal_strlit("INFORMATIONAL");
    reveal_strlit("NOTICE");
    reveal_strlit("LOG");
    reveal_strlit("I");
    reveal_strlit("WARNING");
    reveal_strlit("WRN");
    reveal_strlit("W");
    reveal_strlit("ERR");
    reveal_strlit("ERRORS");
    reveal_strlit("E");
    reveal_strlit("FAULT");
    lemma_letters_width(s);
    lemma_trim_letters(s);
    let w = upper(s);
    if s == "debug"@ {
        assert(w =~= "DEBUG"@);
    } else if s == "info"@ {
        assert(w =~= "INFO"@);
        assert(w[0] == 'I');
    } else if s == "warn"@ {
        assert(w =~= "WARN"@);
        assert(w[0] == 'W');
    } else if s == "error"@ {
        assert(w =~= "ERROR"@);
        assert(w[0] == 'E');
        assert(w[0] != "TRACE"@[0] && w[0] != "DEBUG"@[0]);
    } else {
        assert(w =~= "FATAL"@);
        assert(w[0] == 'F' && w[2] == 'T');
        assert("FAULT"@[2] == 'U');
        assert(w[0] != "TRACE"@[0] && w[0] != "DEBUG"@[0] && w[0] != "ERROR"@[0]);
    }
}

/// A word that names no level of its own: its level is the word in lower case.
proof fn lemma_other_level(raw: Seq<char>)
    requires
        level_of(raw) == lower(upper(trim(raw))),
    ensures
        level_of(level_of(raw)) == level_of(raw),
{
    let (lo, hi) = lemma_trim_bounds(raw);
    let t = trim(raw);
    let w = upper(t);
    let l = lower(w);
    assert forall|i: int| 0 <= i < t.len() implies is_space(#[trigger] l[i]) == is_space(t[i])
        && upper_char(l[i]) == w[i] by {
        assert(w[i] == upper_char(t[i]));
        assert(l[i] == lower_char(w[i]));
    }
    if t.len() > 0 {
        assert(t[0] == raw[lo] && t[t.len() - 1] == raw[hi - 1]);
        assert(is_space(l[0]) == is_space(t[0]));
        assert(is_space(l[t.len() - 1]) == is_space(t[t.len() - 1]));
    }
    lemma_trim_letters(l);
    assert(upper(l) =~= w);
}

/// Levels are settled: the level of a level is that level. Each takes at most thirty-two
/// bytes and holds no letter in upper case.
pub proof fn law_levels_are_settled(raw: Seq<char>)
    ensures
        level_of(level_of(raw)) == level_of(raw),
        encode_utf8(level_of(raw)).len() <= 32,
        forall|i: int| 0 <= i < level_of(raw).len() ==> !is_upper(#[trigger] level_of(raw)[i]),
{
    let l = level_of(raw);
    if l == "debug"@ || l == "info"@ || l == "warn"@ || l == "error"@ || l == "fatal"@ {
        lemma_named_level(l);
    } else {
        let w = upper(trim(raw));
        lemma_other_level(raw);
        lemma_lower_width(w);
        assert forall|i: int| 0 <= i < l.len() implies !is_upper(#[trigger] l[i]) by {
            assert(l[i] == lower_char(w[i]));
            if is_upper(w[i]) {
                assert(l[i] as u32 == w[i] as u32 + 32);
            }
        }
    }
}

} // verus!
