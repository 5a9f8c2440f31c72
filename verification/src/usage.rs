use vstd::prelude::*;
use crate::clock::{utc_rfc3339, rfc3339_of_unix_seconds};
use crate::text::{opt_text, decimal, signed_decimal, push_decimal, push_signed_decimal};

verus! {

/// One rate limit: how much of it is used, in percent, when it resets, and its status.
#[derive(Debug, Clone)]
pub struct LimitInfo {
    pub pct: Option<i32>,
    pub reset_at: Option<String>,
    pub status: String,
}

/// Whether the fallback model is available, and how much of it is used, in percent.
#[derive(Debug, Clone)]
pub struct FallbackInfo {
    pub available: bool,
    pub pct: i32,
}

/// The usage of the session (5 hours), weekly (7 days) and overage limits, as
/// last read, with the time of reading and the error that reading met, if any.
#[derive(Debug, Clone)]
pub struct UsageData {
    pub session: LimitInfo,
    pub weekly: LimitInfo,
    pub overage: LimitInfo,
    pub fallback: FallbackInfo,
    pub updated_at: String,
    pub error: Option<String>,
}

/// What the rate-limit headers of a reply say of one limit: the utilization as
/// a percentage, the reset time in seconds since the Unix epoch, and the status
/// header's text (empty where the header is missing or not text).
pub struct LimitHeaders {
    pub pct: Option<i32>,
    pub reset_secs: Option<i64>,
    pub status: String,
}

/// A status as reported: the header's text, or `default` where it is empty.
pub open spec fn status_or(header: Seq<char>, default: Seq<char>) -> Seq<char> {
    if header.len() == 0 {
        default
    } else {
        header
    }
}

/// The reset time of a limit: the RFC 3339 text of its reset instant.
pub open spec fn reset_text(secs: Option<i64>) -> Option<Seq<char>> {
    match secs {
        Some(s) => utc_rfc3339(s),
        None => None,
    }
}

/// `info` is what `headers` say of a limit whose status defaults to `default`.
pub open spec fn limit_from(info: LimitInfo, headers: LimitHeaders, default: Seq<char>) -> bool {
    &&& info.pct == headers.pct
    &&& opt_text(info.reset_at) == reset_text(headers.reset_secs)
    &&& info.status@ == status_or(headers.status@, default)
}

/// A limit that nothing is known of: no percentage, no reset time, status `status`.
pub open spec fn unknown_limit(info: LimitInfo, status: Seq<char>) -> bool {
    &&& info.pct is None
    &&& info.reset_at is None
    &&& info.status@ == status
}

/// The error reported for a reply with HTTP status `status`: none below 400.
pub open spec fn status_error(status: u16) -> Option<Seq<char>> {
    if status >= 400 {
        Some("API returned "@ + decimal(status as nat))
    } else {
        None
    }
}

/// `d` is usage with nothing known: unknown limits, no fallback, time `updated_at`.
pub open spec fn blank_usage(d: UsageData, updated_at: Seq<char>) -> bool {
    &&& unknown_limit(d.session, "normal"@)
    &&& unknown_limit(d.weekly, "normal"@)
    &&& unknown_limit(d.overage, "allowed"@)
    &&& !d.fallback.available
    &&& d.fallback.pct == 0
    &&& d.updated_at@ == updated_at
}

/// The information on one limit that the headers give.
pub fn limit_info(headers: LimitHeaders, default_status: &str) -> (r: LimitInfo)
    ensures
        limit_from(r, headers, default_status@),
{
    let reset_at = match headers.reset_secs {
        Some(s) => rfc3339_of_unix_seconds(s),
        None => None,
    };
    let status = if headers.status.as_str().is_empty() {
        String::from_str(default_status)
    } else {
        headers.status
    };
    LimitInfo { pct: headers.pct, reset_at, status }
}

/// The error for a reply with HTTP status `status`.
pub fn api_error(status: u16) -> (r: Option<String>)
    ensures
        opt_text(r) == status_error(status),
{
    if status >= 400 {
        let mut m = String::from_str("API returned ");
        push_decimal(&mut m, status as u64);
        Some(m)
    } else {
        None
    }
}

/// The usage that a reply reports: the three limits from their headers (a
/// missing status reads `normal` for the session and weekly limits and
/// `allowed` for overage), the fallback as available exactly when its header
/// reads `available`, and the error for the reply's status.
pub fn usage_from_reply(
    status: u16,
    session: LimitHeaders,
    weekly: LimitHeaders,
    overage: LimitHeaders,
    fallback_header: &str,
    fallback_pct: i32,
    updated_at: String,
) -> (r: UsageData)
    ensures
        limit_from(r.session, session, "normal"@),
        limit_from(r.weekly, weekly, "normal"@),
        limit_from(r.overage, overage, "allowed"@),
        r.fallback.available == (fallback_header@ == "available"@),
        r.fallback.pct == fallback_pct,
        r.updated_at == updated_at,
        opt_text(r.error) == status_error(status),
{
    let available = String::from_str(fallback_header) == String::from_str("available");
    UsageData {
        session: limit_info(session, "normal"),
        weekly: limit_info(weekly, "normal"),
        overage: limit_info(overage, "allowed"),
        fallback: FallbackInfo { available, pct: fallback_pct },
        updated_at,
        error: api_error(status),
    }
}

/// Usage with nothing known, read at `updated_at`, with error `error`.
pub fn blank(updated_at: String, error: Option<String>) -> (r: UsageData)
    ensures
        blank_usage(r, updated_at@),
        r.updated_at == updated_at,
        r.error == error,
{
    UsageData {
        session: LimitInfo { pct: None, reset_at: None, status: String::from_str("normal") },
        weekly: LimitInfo { pct: None, reset_at: None, status: String::from_str("normal") },
        overage: LimitInfo { pct: None, reset_at: None, status: String::from_str("allowed") },
        fallback: FallbackInfo { available: false, pct: 0 },
        updated_at,
        error,
    }
}

/// The message reported when no token could be found.
pub open spec fn no_token_message() -> Seq<char> {
    "No sign-in token found — is the command-line client installed and signed in?"@
}

/// The usage reported when no token was found: nothing known, and an error
/// that says so.
pub fn usage_without_token(updated_at: String) -> (r: UsageData)
    ensures
        blank_usage(r, updated_at@),
        opt_text(r.error) == Some(no_token_message()),
{
    let notice = String::from_str(
        "No sign-in token found — is the command-line client installed and signed in?",
    );
    blank(updated_at, Some(notice))
}

/// The usage to keep after polling: what the poll read, or, when it failed, the
/// usage kept so far (or usage with nothing known) with the poll's error and
/// the new time.
pub fn usage_after_poll(
    poll: Result<UsageData, String>,
    cached: Option<UsageData>,
    updated_at: String,
) -> (r: UsageData)
    ensures
        poll matches Ok(d) ==> r == d,
        poll matches Err(e) ==> {
            &&& r.error == Some(e)
            &&& r.updated_at == updated_at
            &&& cached matches Some(c) ==> {
                &&& r.session == c.session
                &&& r.weekly == c.weekly
                &&& r.overage == c.overage
                &&& r.fallback == c.fallback
            }
            &&& cached is None ==> blank_usage(r, updated_at@)
        },
{
    match poll {
        Ok(d) => d,
        Err(e) => match cached {
            Some(c) => UsageData { error: Some(e), updated_at, ..c },
            None => blank(updated_at, Some(e)),
        },
    }
}

/// The tray title for the session and weekly percentages.
pub open spec fn title_text(session: Option<i32>, weekly: Option<i32>) -> Seq<char> {
    match (session, weekly) {
        (Some(s), Some(w)) => signed_decimal(s as int) + "% ("@ + signed_decimal(w as int) + "%)"@,
        (Some(s), None) => " "@ + signed_decimal(s as int) + "%"@,
        _ => " –"@,
    }
}

/// The tray title: `47% (70%)` for session and weekly use, ` 47%` (with a
/// leading space) without a weekly figure, ` –` without a session figure.
pub fn tray_title(session: Option<i32>, weekly: Option<i32>) -> (r: String)
    ensures
        r@ == title_text(session, weekly),
{
    match (session, weekly) {
        (Some(s), Some(w)) => {
            let mut t = String::new();
            push_signed_decimal(&mut t, s as i64);
            t.append("% (");
            push_signed_decimal(&mut t, w as i64);
            t.append("%)");
            t
        },
        (Some(s), None) => {
            let mut t = String::from_str(" ");
            push_signed_decimal(&mut t, s as i64);
            t.append("%");
            t
        },
        _ => String::from_str(" –"),
    }
}

/// A status header that is not empty is reported as it reads; the default
/// stands only for an empty header.
pub proof fn law_status_header_reported(header: Seq<char>, default: Seq<char>)
    ensures
        header.len() > 0 ==> status_or(header, default) == header,
        header.len() == 0 ==> status_or(header, default) == default,
{
}

/// Whatever a limit's headers say of its status, if anything, is its status.
pub proof fn law_limit_status_from_header(info: LimitInfo, headers: LimitHeaders, default: Seq<char>)
    requires
        limit_from(info, headers, default),
    ensures
        headers.status@.len() > 0 ==> info.status@ == headers.status@,
        headers.status@.len() == 0 ==> info.status@ == default,
{
}

proof fn lemma_signed_decimal_nonempty(n: int)
    ensures
        signed_decimal(n).len() >= 1,
{
    if n < 0 {
        assert(decimal((-n) as nat).len() >= 1);
    } else {
        assert(decimal(n as nat).len() >= 1);
    }
}

/// The session percentage is shown whenever it is known: first the session
/// figure and `%`, then the weekly figure in parentheses where it is known,
/// and a single leading space where it is not; the dash title never stands
/// for a known session figure.
pub proof fn law_title_shows_session(s: i32, w: Option<i32>)
    ensures
        w matches Some(x) ==> title_text(Some(s), w) == signed_decimal(s as int) + "% ("@
            + signed_decimal(x as int) + "%)"@,
        w is None ==> title_text(Some(s), w) == " "@ + signed_decimal(s as int) + "%"@,
        title_text(Some(s), w) != " –"@,
{
    reveal_strlit(" –");
    reveal_strlit("% (");
    reveal_strlit("%)");
    reveal_strlit(" ");
    reveal_strlit("%");
    lemma_signed_decimal_nonempty(s as int);
    if let Some(x) = w {
        lemma_signed_decimal_nonempty(x as int);
        assert(title_text(Some(s), w).len() >= 7);
    } else {
        assert(title_text(Some(s), w).len() >= 3);
    }
    assert(" –"@.len() == 2);
}

/// Without a session figure the title is the dash, whatever the weekly figure.
pub proof fn law_title_dash_without_session(w: Option<i32>)
    ensures
        title_text(None, w) == " –"@,
{
}

} // verus!

