//! The notification item as the pipeline reads it, and the pure message
//! renderer that turns one into a human-readable block.

use vstd::prelude::*;
use vstd::string::StrSliceExecFns;
use vstd::string::StringExecFns;

verus! {

/// One item of the remote feed, reduced to the values the pipeline reads.
/// The updated-at instant is carried as non-leap seconds since the Unix
/// epoch, UTC.
pub struct Notification {
    /// Globally unique identifier of the item.
    pub id: String,
    /// Whether the item is still unread in the feed.
    pub unread: bool,
    /// Last-updated instant, seconds since the Unix epoch.
    pub updated_at: i64,
    /// Repository name, when the feed gave one.
    pub repository: Option<String>,
    /// Kind of the subject (issue, pull request, ...).
    pub subject_type: String,
    /// Title of the subject.
    pub subject_title: String,
    /// Why the feed delivered the item.
    pub reason: String,
}

/// The RFC 3339 rendering of a UTC instant given as epoch seconds.
pub uninterp spec fn rfc3339_utc_of(secs: i64) -> Seq<char>;

/// Relies on chrono's `DateTime::<Utc>::from_timestamp` and
/// `DateTime::to_rfc3339`: rendering a UTC instant depends on the seconds
/// value alone (no locale, zone or clock input).
#[verifier::external_body]
fn rfc3339_utc(secs: i64) -> (r: String)
    ensures
        r@ == rfc3339_utc_of(secs),
{
    match chrono::DateTime::from_timestamp(secs, 0) {
        Some(dt) => dt.to_rfc3339(),
        None => String::new(),
    }
}

/// The repository line's value: the recorded name, or a fixed placeholder.
pub open spec fn spec_repo_name(n: &Notification) -> Seq<char> {
    match n.repository {
        Some(r) => r@,
        None => "unknown/unknown"@,
    }
}

/// The exact text forwarded for one notification.
pub open spec fn spec_message(n: &Notification) -> Seq<char> {
    "GitHub Notification\nRepo: "@ + spec_repo_name(n) + "\nType: "@ + n.subject_type@
        + "\nReason: "@ + n.reason@ + "\nTitle: "@ + n.subject_title@ + "\nUpdated: "@
        + rfc3339_utc_of(n.updated_at) + "\nThread: https://github.com/notifications/threads/"@
        + n.id@ + "\nInbox: https://github.com/notifications"@
}

/// Renders the fixed-structure message block for one notification: repository
/// (placeholder when absent), subject type, reason, title, updated-at in RFC
/// 3339, and a deep link built from the identifier. No side effects.
pub fn format_message(n: &Notification) -> (r: String)
    ensures
        r@ == spec_message(n),
{
    let mut out = String::from_str("GitHub Notification\nRepo: ");
    match &n.repository {
        Some(repo) => out.append(repo.as_str()),
        None => out.append("unknown/unknown"),
    }
    out.append("\nType: ");
    out.append(n.subject_type.as_str());
    out.append("\nReason: ");
    out.append(n.reason.as_str());
    out.append("\nTitle: ");
    out.append(n.subject_title.as_str());
    out.append("\nUpdated: ");
    let updated = rfc3339_utc(n.updated_at);
    out.append(updated.as_str());
    out.append("\nThread: https://github.com/notifications/threads/");
    out.append(n.id.as_str());
    out.append("\nInbox: https://github.com/notifications");
    out
}

} // verus!
