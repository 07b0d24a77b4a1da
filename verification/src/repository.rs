//! Persistence rules: database locations, persistence errors, stored timestamps and
//! what a stored release must hold when it is read back.
use vstd::prelude::*;
use vstd::string::*;

use crate::domain::models::{Metrics, Timestamp, metric_names, metrics_view};
use crate::json::{Float64, JsonObject, JsonValue, member_names};
use crate::text::{chars_of, has_prefix, names_in_key_order, starts_with};

verus! {

broadcast use vstd::string::group_string_axioms;

/// Why the release store could not serve a request. Database and migration
/// failures carry the text of the sqlx error that caused them.
#[derive(Debug)]
pub enum RepositoryError {
    Database(String),
    Migration(String),
    InvalidData(String),
}

/// The message of a persistence error: `database error: <text>`,
/// `migration error: <text>` or `invalid persisted release: <detail>`.
pub open spec fn repository_message(error: RepositoryError) -> Seq<char> {
    match error {
        RepositoryError::Database(text) => "database error: "@ + text@,
        RepositoryError::Migration(text) => "migration error: "@ + text@,
        RepositoryError::InvalidData(detail) => "invalid persisted release: "@ + detail@,
    }
}

impl RepositoryError {
    /// `database error: <text>`, `migration error: <text>` or
    /// `invalid persisted release: <detail>`.
    pub fn to_string(&self) -> (text: String)
        ensures
            text@ == repository_message(*self),
    {
        let (mut text, detail) = match self {
            RepositoryError::Database(detail) => (String::from_str("database error: "), detail),
            RepositoryError::Migration(detail) => (String::from_str("migration error: "), detail),
            RepositoryError::InvalidData(detail) => (
                String::from_str("invalid persisted release: "),
                detail,
            ),
        };
        text.append(detail.as_str());
        text
    }
}

/// The SQLx form of a SQLAlchemy-style SQLite URL: `sqlite:////<path>`
/// becomes `sqlite:///<path>` and `sqlite:///<path>` becomes
/// `sqlite://<path>`; any other URL is kept.
pub open spec fn normalized_sqlite_url(url: Seq<char>) -> Seq<char> {
    if starts_with(url, "sqlite:////"@) {
        "sqlite:///"@ + url.subrange("sqlite:////"@.len() as int, url.len() as int)
    } else if starts_with(url, "sqlite:///"@) {
        "sqlite://"@ + url.subrange("sqlite:///"@.len() as int, url.len() as int)
    } else {
        url
    }
}

/// Converts SQLAlchemy's `sqlite:///` URL notation to SQLx's equivalent.
pub fn normalize_sqlite_url(url: &str) -> (normalized: String)
    ensures
        normalized@ == normalized_sqlite_url(url@),
{
    let chars = chars_of(url);
    if has_prefix(&chars, "sqlite:////") {
        let mut normalized = String::from_str("sqlite:///");
        normalized.append(url.substring_char("sqlite:////".unicode_len(), url.unicode_len()));
        normalized
    } else if has_prefix(&chars, "sqlite:///") {
        let mut normalized = String::from_str("sqlite://");
        normalized.append(url.substring_char("sqlite:///".unicode_len(), url.unicode_len()));
        normalized
    } else {
        String::from_str(url)
    }
}

/// What `chrono::DateTime::parse_from_rfc3339` reads from the text: the
/// instant, or the text of its parse error.
pub uninterp spec fn rfc3339_reading(text: Seq<char>) -> Result<Timestamp, Seq<char>>;

/// What `chrono::NaiveDateTime::parse_from_str` reads from the text in the
/// given format, taken as UTC: the instant, or the text of its parse error.
pub uninterp spec fn naive_utc_reading(text: Seq<char>, format: Seq<char>) -> Result<
    Timestamp,
    Seq<char>,
>;

/// What `chrono::DateTime::<Utc>::to_rfc3339` writes for the instant, or
/// `None` when `DateTime::from_timestamp` cannot represent it.
pub uninterp spec fn rfc3339_writing(seconds: i64, nanoseconds: u32) -> Option<Seq<char>>;

/// Parses RFC 3339 text with `chrono::DateTime::parse_from_rfc3339`; the
/// instant (the same in every offset) or the error's text is named by
/// `rfc3339_reading`.
#[verifier::external_body]
fn parse_rfc3339(text: &str) -> (r: Result<Timestamp, String>)
    ensures
        match r {
            Ok(at) => rfc3339_reading(text@) == Ok::<Timestamp, Seq<char>>(at),
            Err(message) => rfc3339_reading(text@) == Err::<Timestamp, Seq<char>>(message@),
        },
{
    match chrono::DateTime::parse_from_rfc3339(text) {
        Ok(at) => Ok(Timestamp { seconds: at.timestamp(), nanoseconds: at.timestamp_subsec_nanos() }),
        Err(error) => Err(error.to_string()),
    }
}

/// Parses zone-less text with `chrono::NaiveDateTime::parse_from_str` and
/// takes it as UTC; the instant or the error's text is named by
/// `naive_utc_reading`.
#[verifier::external_body]
fn parse_naive_utc(text: &str, format: &str) -> (r: Result<Timestamp, String>)
    ensures
        match r {
            Ok(at) => naive_utc_reading(text@, format@) == Ok::<Timestamp, Seq<char>>(at),
            Err(message) => naive_utc_reading(text@, format@) == Err::<Timestamp, Seq<char>>(
                message@,
            ),
        },
{
    match chrono::NaiveDateTime::parse_from_str(text, format) {
        Ok(at) => {
            let at = at.and_utc();
            Ok(Timestamp { seconds: at.timestamp(), nanoseconds: at.timestamp_subsec_nanos() })
        },
        Err(error) => Err(error.to_string()),
    }
}

/// Whether the instant lies in the years 0 to 9999 with less than a second
/// of nanoseconds: `0000-01-01T00:00:00Z` is -62167219200 seconds and
/// `9999-12-31T23:59:59Z` is 253402300799 seconds from the epoch.
pub open spec fn in_rfc3339_years(seconds: i64, nanoseconds: u32) -> bool {
    -62167219200 <= seconds <= 253402300799 && nanoseconds < 1_000_000_000
}

/// Whether RFC 3339 text reads back, through `parse_from_rfc3339`, to the
/// instant with these seconds and nanoseconds.
pub open spec fn reads_back(text: Seq<char>, seconds: i64, nanoseconds: u32) -> bool {
    rfc3339_reading(text) matches Ok(at) && at.seconds == seconds && at.nanoseconds == nanoseconds
}

/// Writes the instant with `chrono::DateTime::<Utc>::to_rfc3339`, after
/// `DateTime::from_timestamp` builds it; both are named by `rfc3339_writing`.
/// In the years 0 to 9999 `from_timestamp` succeeds and `to_rfc3339` writes
/// `YYYY-MM-DDTHH:MM:SS`, the fraction when it is not zero, and `+00:00`,
/// which `parse_from_rfc3339` reads back to the same instant.
#[verifier::external_body]
fn format_rfc3339(seconds: i64, nanoseconds: u32) -> (r: Option<String>)
    ensures
        match r {
            Some(text) => rfc3339_writing(seconds, nanoseconds) == Some(text@),
            None => rfc3339_writing(seconds, nanoseconds) is None,
        },
        in_rfc3339_years(seconds, nanoseconds) ==> r is Some && reads_back(r->0@, seconds, nanoseconds),
{
    match chrono::DateTime::from_timestamp(seconds, nanoseconds) {
        Some(at) => Some(at.to_rfc3339()),
        None => None,
    }
}

/// The format of timestamps written by the earlier schema.
pub const LEGACY_TIMESTAMP_FORMAT: &'static str = "%Y-%m-%d %H:%M:%S%.f";

/// The stored text for what chrono wrote: the text itself, or invalid data
/// when chrono could not represent the instant.
pub fn stored_timestamp_text(written: Option<String>) -> (r: Result<String, RepositoryError>)
    ensures
        match written {
            Some(text) => r matches Ok(stored) && stored@ == text@,
            None => r matches Err(RepositoryError::InvalidData(detail)) && detail@
                == "timestamp out of range"@,
        },
{
    match written {
        Some(text) => Ok(text),
        None => Err(RepositoryError::InvalidData(String::from_str("timestamp out of range"))),
    }
}

/// The stored text of an instant, in RFC 3339; invalid data when chrono
/// cannot represent the instant. In the years 0 to 9999 the text reads back
/// (see `timestamp_from_database`) to the same instant.
pub fn timestamp_to_database(value: Timestamp) -> (r: Result<String, RepositoryError>)
    ensures
        match rfc3339_writing(value.seconds, value.nanoseconds) {
            Some(text) => r matches Ok(written) && written@ == text,
            None => r matches Err(RepositoryError::InvalidData(detail)) && detail@
                == "timestamp out of range"@,
        },
        in_rfc3339_years(value.seconds, value.nanoseconds) ==> (r matches Ok(written)
            && reads_back(written@, value.seconds, value.nanoseconds)),
{
    stored_timestamp_text(format_rfc3339(value.seconds, value.nanoseconds))
}

/// The instant that the earlier schema's format gave for `value`, or
/// invalid data naming the text and the parser's error.
pub fn legacy_timestamp(value: &str, reading: Result<Timestamp, String>) -> (r: Result<
    Timestamp,
    RepositoryError,
>)
    ensures
        match reading {
            Ok(at) => r matches Ok(read) && read == at,
            Err(message) => r matches Err(RepositoryError::InvalidData(detail)) && detail@
                == "invalid timestamp '"@ + value@ + "': "@ + message@,
        },
{
    match reading {
        Ok(at) => Ok(at),
        Err(message) => {
            let mut detail = String::from_str("invalid timestamp '");
            detail.append(value);
            detail.append("': ");
            detail.append(message.as_str());
            Err(RepositoryError::InvalidData(detail))
        },
    }
}

/// Reads a stored instant: RFC 3339 first, then the earlier schema's
/// zone-less format taken as UTC; when neither reads it, invalid data naming
/// the text and the second parser's error.
pub fn timestamp_from_database(value: &str) -> (r: Result<Timestamp, RepositoryError>)
    ensures
        match rfc3339_reading(value@) {
            Ok(at) => r matches Ok(read) && read == at,
            Err(_) => match naive_utc_reading(value@, LEGACY_TIMESTAMP_FORMAT@) {
                Ok(at) => r matches Ok(read) && read == at,
                Err(message) => r matches Err(RepositoryError::InvalidData(detail)) && detail@
                    == "invalid timestamp '"@ + value@ + "': "@ + message,
            },
        },
{
    match parse_rfc3339(value) {
        Ok(at) => Ok(at),
        Err(_) => legacy_timestamp(value, parse_naive_utc(value, LEGACY_TIMESTAMP_FORMAT)),
    }
}

/// The numbers of stored metrics, or `None` when one of them is not a
/// number.
pub open spec fn stored_metric_values(members: Seq<(String, JsonValue)>) -> Option<
    Seq<(Seq<char>, Float64)>,
>
    decreases members.len(),
{
    if members.len() == 0 {
        Some(Seq::empty())
    } else {
        match stored_metric_values(members.drop_last()) {
            None => None,
            Some(values) => match members.last().1 {
                JsonValue::Number(n) => Some(values.push((members.last().0@, n))),
                _ => None,
            },
        }
    }
}

/// Every stored metric reads back as the number stored under its own name,
/// in stored order; reading fails exactly when some stored member is not a
/// number.
pub proof fn lemma_stored_metrics_read_their_own_numbers(members: Seq<(String, JsonValue)>)
    ensures
        stored_metric_values(members) is Some <==> (forall|i: int|
            0 <= i < members.len() ==> (#[trigger] members[i]).1 is Number),
        stored_metric_values(members) matches Some(values) ==> {
            &&& values.len() == members.len()
            &&& forall|i: int|
                0 <= i < members.len() ==> (#[trigger] values[i]).0 == members[i].0@ && members[i].1
                    == JsonValue::Number(values[i].1)
        },
    decreases members.len(),
{
    if members.len() > 0 {
        let rest = members.drop_last();
        lemma_stored_metrics_read_their_own_numbers(rest);
        assert forall|i: int| 0 <= i < rest.len() implies #[trigger] rest[i] == members[i] by {}
        if !(members.last().1 is Number) {
            assert(!(members[members.len() - 1].1 is Number));
        }
        if forall|i: int| 0 <= i < members.len() ==> (#[trigger] members[i]).1 is Number {
            assert forall|i: int| 0 <= i < rest.len() implies (#[trigger] rest[i]).1 is Number by {
                assert(rest[i] == members[i]);
            }
            assert(members.last() == members[members.len() - 1]);
        }
        if stored_metric_values(members) is Some {
            assert forall|i: int| 0 <= i < members.len() implies (#[trigger] members[i]).1 is Number by {
                if i < rest.len() {
                    assert(rest[i] == members[i]);
                } else {
                    assert(members[i] == members.last());
                }
            }
        }
        if stored_metric_values(rest) is None {
            let k = choose|k: int| 0 <= k < rest.len() && !((#[trigger] rest[k]).1 is Number);
            assert(members[k] == rest[k]);
        }
    }
}

/// The metric values read back keep the stored names in order.
pub proof fn lemma_stored_names_follow_members(members: Seq<(String, JsonValue)>)
    requires
        stored_metric_values(members) is Some,
    ensures
        metric_names(stored_metric_values(members)->0) == member_names(members),
    decreases members.len(),
{
    if members.len() > 0 {
        lemma_stored_names_follow_members(members.drop_last());
        assert(member_names(members) =~= member_names(members.drop_last()).push(
            members.last().0@,
        ));
        assert(metric_names(stored_metric_values(members)->0) =~= metric_names(
            stored_metric_values(members.drop_last())->0,
        ).push(members.last().0@));
    } else {
        assert(member_names(members) =~= Seq::<Seq<char>>::empty());
        assert(metric_names(stored_metric_values(members)->0) =~= Seq::<Seq<char>>::empty());
    }
}

/// Reads back the metrics object of a stored release: every member must be
/// a number. The names keep their order, so names stored distinct and in key
/// order read back so.
pub fn stored_metrics(members: &JsonObject) -> (r: Result<Metrics, RepositoryError>)
    ensures
        match stored_metric_values(members@) {
            Some(values) => r matches Ok(metrics) && crate::domain::models::metrics_view(metrics@)
                == values,
            None => r matches Err(RepositoryError::InvalidData(detail)) && detail@
                == "metrics must contain numbers"@,
        },
        r matches Ok(metrics) ==> metric_names(metrics_view(metrics@)) == member_names(members@),
        r matches Ok(metrics) ==> (names_in_key_order(member_names(members@)) ==> names_in_key_order(
            metric_names(metrics_view(metrics@)),
        )),
{
    let mut metrics: Metrics = Vec::new();
    let n = members.len();
    proof {
        assert(members@.take(0) =~= Seq::<(String, JsonValue)>::empty());
        assert(crate::domain::models::metrics_view(metrics@) =~= Seq::<
            (Seq<char>, Float64),
        >::empty());
    }
    for i in 0..n
        invariant
            n == members@.len(),
            stored_metric_values(members@.take(i as int)) == Some(
                crate::domain::models::metrics_view(metrics@),
            ),
    {
        proof {
            assert(members@.take(i + 1).drop_last() =~= members@.take(i as int));
            assert(members@.take(i + 1).last() == members@[i as int]);
        }
        match &members[i].1 {
            JsonValue::Number(value) => {
                let ghost before = metrics@;
                metrics.push((members[i].0.clone(), *value));
                proof {
                    assert(crate::domain::models::metrics_view(metrics@) =~= crate::domain::models::metrics_view(before).push((members@[i as int].0@, *value)));
                }
            },
            _ => {
                proof {
                    lemma_missing_number_stays(members@, i as int + 1);
                }
                return Err(RepositoryError::InvalidData(String::from_str("metrics must contain numbers")));
            },
        }
    }
    proof {
        assert(members@.take(n as int) =~= members@);
        lemma_stored_names_follow_members(members@);
    }
    Ok(metrics)
}

/// Reads back the stored metrics value: it must be an object whose members
/// are all numbers.
pub fn stored_metrics_value(value: &JsonValue) -> (r: Result<Metrics, RepositoryError>)
    ensures
        match value {
            JsonValue::Object(members) => match stored_metric_values(members@) {
                Some(values) => r matches Ok(metrics)
                    && crate::domain::models::metrics_view(metrics@) == values
                    && metric_names(values) == member_names(members@),
                None => r matches Err(RepositoryError::InvalidData(detail)) && detail@
                    == "metrics must contain numbers"@,
            },
            _ => r matches Err(RepositoryError::InvalidData(detail)) && detail@
                == "metrics must be an object"@,
        },
{
    match value {
        JsonValue::Object(members) => stored_metrics(members),
        _ => Err(RepositoryError::InvalidData(String::from_str("metrics must be an object"))),
    }
}

proof fn lemma_missing_number_stays(members: Seq<(String, JsonValue)>, k: int)
    requires
        0 <= k <= members.len(),
        stored_metric_values(members.take(k)) is None,
    ensures
        stored_metric_values(members) is None,
    decreases members.len() - k,
{
    if k < members.len() {
        assert(members.take(k + 1).drop_last() =~= members.take(k));
        lemma_missing_number_stays(members, k + 1);
    } else {
        assert(members.take(k) =~= members);
    }
}

} // verus!
