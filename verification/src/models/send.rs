//! Sending SMS messages (MT).

use crate::text::{
    ascii_lower, eq_ignore_ascii_case, eq_ignore_ascii_case_spec, lemma_ascii_lower_letter, opt_view,
};
use vstd::prelude::*;

verus! {

/// The answer `"ok"` in any ASCII case.
pub open spec fn is_ok_status(s: Seq<char>) -> bool {
    eq_ignore_ascii_case_spec(s, seq!['o', 'k'])
}

/// A status counts as accepted exactly when it is the two letters O, K, each
/// in either ASCII case.
pub proof fn law_ok_means_ok(s: Seq<char>)
    ensures
        is_ok_status(s) <==> s.len() == 2 && (s[0] == 'o' || s[0] == 'O') && (s[1] == 'k' || s[1]
            == 'K'),
{
    let w = seq!['o', 'k'];
    if s.len() == 2 {
        lemma_ascii_lower_letter(s[0], 'o', 'O');
        lemma_ascii_lower_letter(s[1], 'k', 'K');
        if is_ok_status(s) {
            assert(ascii_lower(s[0]) == ascii_lower(w[0]));
            assert(ascii_lower(s[1]) == ascii_lower(w[1]));
        }
        if (s[0] == 'o' || s[0] == 'O') && (s[1] == 'k' || s[1] == 'K') {
            assert forall|i: int| 0 <= i < s.len() implies ascii_lower(#[trigger] s[i])
                == ascii_lower(w[i]) by {
                assert(i == 0 || i == 1);
            }
        }
    }
}

/// Whether a status text is `"ok"` in any ASCII case.
pub fn status_is_ok(status: &String) -> (r: bool)
    ensures
        r == is_ok_status(status@),
{
    proof {
        reveal_strlit("ok");
    }
    eq_ignore_ascii_case(status.as_str(), "ok")
}

/// A single SMS message to be sent.
///
/// Build with [`SendSmsRequest::new`] and optionally chain the scheduling
/// helpers (`.schedule_date()`, `.schedule_time()`, `.refer()`).
#[derive(Debug, Clone)]
pub struct SendSmsRequest {
    /// Account authentication key.
    pub key: String,
    /// Service type. Always `9` for SMS; sent as the field `type`.
    pub service_type: u8,
    /// Destination phone number, e.g. `5511988887777` or `11988887777`.
    pub number: u64,
    /// Message text (up to 160 chars; longer messages consume extra credits).
    pub msg: String,
    /// Optional user reference for message identification (max 100 chars).
    pub refer: Option<String>,
    /// Optional scheduling date, format `DD/MM/YYYY`.
    pub jobdate: Option<String>,
    /// Optional scheduling time, format `HH:MM`.
    pub jobtime: Option<String>,
}

impl SendSmsRequest {
    /// Create a new SMS send request.
    pub fn new(key: &str, number: u64, msg: &str) -> (r: Self)
        ensures
            r.key@ == key@,
            r.service_type == 9,
            r.number == number,
            r.msg@ == msg@,
            r.refer is None,
            r.jobdate is None,
            r.jobtime is None,
    {
        SendSmsRequest {
            key: String::from_str(key),
            service_type: 9,
            number,
            msg: String::from_str(msg),
            refer: None,
            jobdate: None,
            jobtime: None,
        }
    }

    /// Set a user-defined reference identifier (max 100 chars).
    pub fn refer(self, refer: &str) -> (r: Self)
        ensures
            opt_view(r.refer) == Some(refer@),
            r.key == self.key,
            r.service_type == self.service_type,
            r.number == self.number,
            r.msg == self.msg,
            r.jobdate == self.jobdate,
            r.jobtime == self.jobtime,
    {
        let mut s = self;
        s.refer = Some(String::from_str(refer));
        s
    }

    /// Schedule the message for a specific date (format: `DD/MM/YYYY`).
    pub fn schedule_date(self, date: &str) -> (r: Self)
        ensures
            opt_view(r.jobdate) == Some(date@),
            r.key == self.key,
            r.service_type == self.service_type,
            r.number == self.number,
            r.msg == self.msg,
            r.refer == self.refer,
            r.jobtime == self.jobtime,
    {
        let mut s = self;
        s.jobdate = Some(String::from_str(date));
        s
    }

    /// Schedule the message for a specific time (format: `HH:MM`).
    pub fn schedule_time(self, time: &str) -> (r: Self)
        ensures
            opt_view(r.jobtime) == Some(time@),
            r.key == self.key,
            r.service_type == self.service_type,
            r.number == self.number,
            r.msg == self.msg,
            r.refer == self.refer,
            r.jobdate == self.jobdate,
    {
        let mut s = self;
        s.jobtime = Some(String::from_str(time));
        s
    }
}

/// The result returned for each message in a send operation.
#[derive(Debug, Clone)]
pub struct SendSmsResponse {
    /// `"OK"` on success, `"ERROR"` otherwise (field `situacao`).
    pub status: String,
    /// Numeric status code (field `codigo`).
    pub code: String,
    /// Unique ID of the queued / sent message. Keep this for DLR queries.
    pub id: String,
    /// Human-readable description, e.g. `"MENSAGEM NA FILA"` (field `descricao`).
    pub description: String,
}

impl SendSmsResponse {
    /// Returns `true` when the API accepted the message without error.
    pub fn is_ok(&self) -> (r: bool)
        ensures
            r == is_ok_status(self.status@),
    {
        status_is_ok(&self.status)
    }
}

} // verus!
