//! The rules of the state store: the apply journal's format, the schema
//! migrations a stored version calls for, and generation ids.

use vstd::prelude::*;

use crate::error::{CoreError, CURRENT_SCHEMA_VERSION};
use crate::model::ProbeStatus;
use crate::text::{
    all_digits, decimal, decimal_value, from_chars, parse_unsigned, parse_unsigned_chars,
    push_decimal, push_str, split_once, split_once_chars, to_chars,
};

verus! {

// ---------------------------------------------------------------------------
// The apply journal
// ---------------------------------------------------------------------------

/// The journal of an apply in flight: its generation id, a newline, and the
/// configuration's JSON.
pub open spec fn journal_text(id: Seq<char>, json: Seq<char>) -> Seq<char> {
    id + seq!['\n'] + json
}

/// What a journal entry reads back as: the id and JSON around the first
/// newline, or the whole entry as the id and no JSON.
pub open spec fn journal_parts(value: Seq<char>) -> (Seq<char>, Seq<char>) {
    match split_once(value, '\n') {
        Some((id, json)) => (id, json),
        None => (value, Seq::empty()),
    }
}

/// Formats a journal entry.
pub fn journal_value(id: &str, json: &str) -> (r: String)
    ensures
        r@ == journal_text(id@, json@),
{
    let mut v = to_chars(id);
    v.push('\n');
    push_str(&mut v, json);
    from_chars(v.as_slice())
}

/// Reads a journal entry.
pub fn parse_journal(value: &str) -> (r: (String, String))
    ensures
        (r.0@, r.1@) == journal_parts(value@),
{
    let cs = to_chars(value);
    match split_once_chars(cs.as_slice(), '\n') {
        Some((id, json)) => (from_chars(id.as_slice()), from_chars(json.as_slice())),
        None => (value.to_owned(), String::new()),
    }
}

/// A journal entry reads back as the id and JSON it was made from, when the
/// id holds no newline.
pub proof fn lemma_journal_round_trip(id: Seq<char>, json: Seq<char>)
    requires
        !id.contains('\n'),
    ensures
        journal_parts(journal_text(id, json)) == (id, json),
{
    let t = journal_text(id, json);
    crate::text::lemma_index_of(t, '\n', id.len() as int);
    assert(t[id.len() as int] == '\n');
    crate::text::lemma_index_of_found(t, '\n');
    assert(t.take(id.len() as int) =~= id);
    assert(t.skip(id.len() as int + 1) =~= json);
}

// ---------------------------------------------------------------------------
// Schema versions
// ---------------------------------------------------------------------------

/// `str::parse::<i64>`: an optional sign, then decimal digits, in range.
pub open spec fn parse_i64(s: Seq<char>) -> Option<int> {
    if s.len() > 0 && s[0] == '-' {
        let d = s.drop_first();
        if d.len() > 0 && all_digits(d) && decimal_value(d) <= 0x8000_0000_0000_0000 {
            Some(-(decimal_value(d) as int))
        } else {
            None
        }
    } else {
        match parse_unsigned(s, 0x7fff_ffff_ffff_ffff) {
            Some(v) => Some(v as int),
            None => None,
        }
    }
}

/// Parses a signed decimal number.
pub fn parse_i64_text(s: &str) -> (r: Option<i64>)
    ensures
        match r {
            Some(v) => parse_i64(s@) == Some(v as int),
            None => parse_i64(s@) is None,
        },
{
    let cs = to_chars(s);
    if cs.len() > 0 && cs[0] == '-' {
        let d = crate::text::slice_of(cs.as_slice(), 1, cs.len());
        assert(d@ =~= s@.drop_first());
        if d.len() > 0 && d[0] == '+' {
            assert(!crate::text::is_digit(d@[0]));
            return None;
        }
        match parse_unsigned_chars(d.as_slice(), 0x8000_0000_0000_0000) {
            Some(v) => {
                if v == 0x8000_0000_0000_0000 {
                    Some(i64::MIN)
                } else {
                    Some(-(v as i64))
                }
            },
            None => None,
        }
    } else {
        match parse_unsigned_chars(cs.as_slice(), 0x7fff_ffff_ffff_ffff) {
            Some(v) => Some(v as i64),
            None => None,
        }
    }
}

/// The stored schema version: the parsed value, 0 when none is stored or it
/// does not parse.
pub open spec fn stored_version(stored: Option<Seq<char>>) -> int {
    match stored {
        Some(s) => match parse_i64(s) {
            Some(v) => v,
            None => 0,
        },
        None => 0,
    }
}

/// What opening the store does for a stored schema version.
#[derive(Debug, Clone, Copy, PartialEq, Eq, Structural)]
pub struct SchemaPlan {
    /// Archive a legacy generations table and create the v2 tables.
    pub migrate_v2: bool,
    /// Create the runtime state and record the current version.
    pub migrate_v3: bool,
    /// The stored version is newer than this library knows.
    pub too_new: bool,
    pub version: i64,
}

/// The migrations a stored version calls for.
pub fn schema_plan(stored: Option<&str>) -> (r: SchemaPlan)
    ensures
        r.version == stored_version(match stored {
            Some(s) => Some(s@),
            None => None,
        }),
        r.migrate_v2 == (r.version < 2),
        r.migrate_v3 == (r.version < 3),
        r.too_new == (r.version > CURRENT_SCHEMA_VERSION),
{
    let version: i64 = match stored {
        Some(s) => match parse_i64_text(s) {
            Some(v) => v,
            None => 0,
        },
        None => 0,
    };
    SchemaPlan {
        migrate_v2: version < 2,
        migrate_v3: version < 3,
        too_new: version > CURRENT_SCHEMA_VERSION,
        version,
    }
}

/// The refusal of a store whose schema is newer than this library.
pub fn schema_check(plan: &SchemaPlan) -> (r: Result<(), CoreError>)
    ensures
        plan.too_new ==> r == Err::<(), CoreError>(CoreError::UnsupportedSchema(plan.version)),
        !plan.too_new ==> r is Ok,
{
    if plan.too_new {
        Err(CoreError::UnsupportedSchema(plan.version))
    } else {
        Ok(())
    }
}

// ---------------------------------------------------------------------------
// Time and generation ids
// ---------------------------------------------------------------------------

/// `SystemTime::now().duration_since(UNIX_EPOCH)`: seconds and the
/// sub-second nanoseconds (below one billion), or `None` when the clock is
/// before the epoch. The clock is read, so nothing is claimed of the value.
#[verifier::external_body]
fn since_epoch() -> (r: Option<(u64, u32)>)
    ensures
        r matches Some((_, n)) ==> n < 1_000_000_000,
{
    match std::time::SystemTime::now().duration_since(std::time::UNIX_EPOCH) {
        Ok(d) => Some((d.as_secs(), d.subsec_nanos())),
        Err(_) => None,
    }
}

/// The id of a generation made at the given time: `g<secs>-<nanos>`.
pub open spec fn generation_text(secs: u64, nanos: u32) -> Seq<char> {
    "g"@ + decimal(secs as nat) + "-"@ + decimal(nanos as nat)
}

/// The id of a generation made at the given time.
pub fn generation_id(secs: u64, nanos: u32) -> (r: String)
    ensures
        r@ == generation_text(secs, nanos),
{
    let mut v = to_chars("g");
    push_decimal(&mut v, secs);
    push_str(&mut v, "-");
    push_decimal(&mut v, nanos as u64);
    from_chars(v.as_slice())
}

/// The seconds of a reading of the clock, as `as_secs() as i64` gives
/// them (a count past `i64::MAX` wraps), or 0 for a clock before the epoch.
pub open spec fn seconds_of(t: Option<(u64, u32)>) -> i64 {
    match t {
        Some((s, _)) => s as i64,
        None => 0,
    }
}

/// The seconds of a reading of the clock.
pub fn seconds_since_epoch(t: Option<(u64, u32)>) -> (r: i64)
    ensures
        r == seconds_of(t),
{
    match t {
        Some((s, _)) => s as i64,
        None => 0,
    }
}

/// Seconds since the epoch (0 for a clock before it). The clock is read,
/// so the result is that of some reading.
pub fn unix_now() -> (r: i64)
    ensures
        exists|t: Option<(u64, u32)>|
            (t matches Some((_, n)) ==> n < 1_000_000_000) && r == #[trigger] seconds_of(t),
{
    let t = since_epoch();
    seconds_since_epoch(t)
}

/// A fresh generation id from the clock (`g0-0` for a clock before the
/// epoch).
pub fn next_generation_id() -> (r: String)
    ensures
        exists|s: u64, n: u32| n < 1_000_000_000 && r@ == #[trigger] generation_text(s, n),
{
    match since_epoch() {
        Some((s, n)) => generation_id(s, n),
        None => generation_id(0, 0),
    }
}

/// How a probe's status is recorded in the state store.
pub open spec fn probe_status_name(s: ProbeStatus) -> Seq<char> {
    match s {
        ProbeStatus::Detected => "detected"@,
        ProbeStatus::NotPresent => "not_present"@,
        ProbeStatus::Unavailable => "unavailable"@,
        ProbeStatus::Failed => "failed"@,
    }
}

/// The recorded name of a probe's status.
pub fn probe_status_text(s: ProbeStatus) -> (r: &'static str)
    ensures
        r@ == probe_status_name(s),
{
    match s {
        ProbeStatus::Detected => "detected",
        ProbeStatus::NotPresent => "not_present",
        ProbeStatus::Unavailable => "unavailable",
        ProbeStatus::Failed => "failed",
    }
}

/// One entry of the event log.
#[derive(Debug, Clone, PartialEq, Eq)]
pub struct EventRecord {
    pub kind: String,
    pub payload: String,
    pub created_at: i64,
}

} // verus!
