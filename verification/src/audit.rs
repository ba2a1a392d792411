//! The audit log of terminal sessions.

use vstd::prelude::*;

use crate::strings;

verus! {

/// One line of the audit log. Who or why is empty where it is not known.
#[derive(Debug, PartialEq, Eq)]
pub struct AuditRecord {
    pub event: String,
    pub sandbox_id: String,
    pub pid: Option<i64>,
    pub user: String,
    pub client_ip: String,
    pub reason: String,
}

/// What an [`AuditRecord`] says.
pub ghost struct AuditView {
    pub event: Seq<char>,
    pub sandbox_id: Seq<char>,
    pub pid: Option<i64>,
    pub user: Seq<char>,
    pub client_ip: Seq<char>,
    pub reason: Seq<char>,
}

impl View for AuditRecord {
    type V = AuditView;

    open spec fn view(&self) -> AuditView {
        AuditView {
            event: self.event@,
            sandbox_id: self.sandbox_id@,
            pid: self.pid,
            user: self.user@,
            client_ip: self.client_ip@,
            reason: self.reason@,
        }
    }
}

/// A text, or nothing where there is none.
pub open spec fn or_blank(text: Option<Seq<char>>) -> Seq<char> {
    match text {
        Some(t) => t,
        None => ""@,
    }
}

/// The record of an event.
pub open spec fn audit_of(
    event: Seq<char>,
    sandbox_id: Seq<char>,
    pid: Option<i64>,
    user: Option<Seq<char>>,
    client_ip: Option<Seq<char>>,
    reason: Option<Seq<char>>,
) -> AuditView {
    AuditView {
        event,
        sandbox_id,
        pid,
        user: or_blank(user),
        client_ip: or_blank(client_ip),
        reason: or_blank(reason),
    }
}

/// A copy of a text, or nothing where there is none.
fn text_or_blank(text: Option<&str>) -> (copy: String)
    ensures
        copy@ == or_blank(strings::option_str(text)),
{
    match text {
        Some(t) => t.to_owned(),
        None => "".to_owned(),
    }
}

/// The text of an optional string.
pub(crate) fn as_text(text: &Option<String>) -> (slice: Option<&str>)
    ensures
        strings::option_str(slice) == strings::option_text(*text),
{
    match text {
        Some(t) => Some(t.as_str()),
        None => None,
    }
}

/// The audit record of an event.
pub fn audit_log(
    event: &str,
    sandbox_id: &str,
    pid: Option<i64>,
    user: Option<&str>,
    client_ip: Option<&str>,
    reason: Option<&str>,
) -> (record: AuditRecord)
    ensures
        record@ == audit_of(
            event@,
            sandbox_id@,
            pid,
            strings::option_str(user),
            strings::option_str(client_ip),
            strings::option_str(reason),
        ),
{
    AuditRecord {
        event: event.to_owned(),
        sandbox_id: sandbox_id.to_owned(),
        pid,
        user: text_or_blank(user),
        client_ip: text_or_blank(client_ip),
        reason: text_or_blank(reason),
    }
}

/// A record holds what it was given, whole, and nothing where there is none.
pub proof fn law_record_holds_what_it_is_given(
    event: Seq<char>,
    sandbox_id: Seq<char>,
    pid: Option<i64>,
    user: Option<Seq<char>>,
    client_ip: Option<Seq<char>>,
    reason: Option<Seq<char>>,
)
    ensures
        ({
            let record = audit_of(event, sandbox_id, pid, user, client_ip, reason);
            &&& record.event == event
            &&& record.sandbox_id == sandbox_id
            &&& record.pid == pid
            &&& user matches Some(text) ==> record.user == text
            &&& client_ip matches Some(text) ==> record.client_ip == text
            &&& reason matches Some(text) ==> record.reason == text
            &&& user is None ==> record.user.len() == 0
            &&& client_ip is None ==> record.client_ip.len() == 0
            &&& reason is None ==> record.reason.len() == 0
        }),
{
    reveal_strlit("");
}

/// A record says exactly what it holds.
pub proof fn law_record_says_what_it_holds(record: AuditRecord)
    ensures
        record@.event == record.event@,
        record@.sandbox_id == record.sandbox_id@,
        record@.pid == record.pid,
        record@.user == record.user@,
        record@.client_ip == record.client_ip@,
        record@.reason == record.reason@,
{
}

} // verus!
