//! Cancelling, inbox, delivery status, balance and reports.

use crate::models::send::{is_ok_status, status_is_ok};
use crate::text::{ascii_lower, lemma_ascii_lower_letter, opt_view, eq_ignore_ascii_case, eq_ignore_ascii_case_spec, parse_u64, parse_u64_spec, trim, trim_spec};
use vstd::prelude::*;

verus! {

// ------------------------------------------------------------------
// Cancel (MT)
// ------------------------------------------------------------------

/// Request body for cancelling one or more scheduled messages.
#[derive(Debug, Clone)]
pub struct CancelRequest {
    /// Account authentication key.
    pub key: String,
    /// List of message IDs to cancel.
    pub id: Vec<u64>,
}

impl CancelRequest {
    /// Create a cancel request for the given message IDs.
    pub fn new(key: &str, ids: Vec<u64>) -> (r: Self)
        ensures
            r.key@ == key@,
            r.id == ids,
    {
        CancelRequest { key: String::from_str(key), id: ids }
    }
}

/// Result for a single cancelled message.
#[derive(Debug, Clone)]
pub struct CancelResponse {
    /// `"OK"` on success, `"ERROR"` otherwise (field `situacao`).
    pub status: String,
    /// Numeric status code (field `codigo`).
    pub code: String,
    /// ID of the affected message.
    pub id: String,
    /// Human-readable description (field `descricao`).
    pub description: String,
}

impl CancelResponse {
    /// Returns `true` when the cancellation succeeded.
    pub fn is_ok(&self) -> (r: bool)
        ensures
            r == is_ok_status(self.status@),
    {
        status_is_ok(&self.status)
    }
}

// ------------------------------------------------------------------
// SMS Inbox / Receiving (MO)
// ------------------------------------------------------------------

/// Controls which messages the inbox query returns.
#[derive(Debug, Clone, Copy, PartialEq, Eq, Structural)]
pub enum InboxStatus {
    /// Return only new (unread) responses. **Default.** Sent as `0`.
    NewOnly,
    /// Return all responses (read and unread). Sent as `1`.
    All,
}

/// The number by which the API knows an inbox status.
pub open spec fn inbox_status_code(s: InboxStatus) -> u8 {
    match s {
        InboxStatus::NewOnly => 0,
        InboxStatus::All => 1,
    }
}

/// Each inbox status has a number of its own.
pub proof fn law_inbox_status_codes_distinct(a: InboxStatus, b: InboxStatus)
    ensures
        inbox_status_code(a) == inbox_status_code(b) <==> a == b,
{
}

impl Default for InboxStatus {
    fn default() -> (r: Self)
        ensures
            r == InboxStatus::NewOnly,
    {
        InboxStatus::NewOnly
    }
}

impl From<InboxStatus> for u8 {
    fn from(s: InboxStatus) -> (r: u8) {
        match s {
            InboxStatus::NewOnly => 0,
            InboxStatus::All => 1,
        }
    }
}

impl vstd::std_specs::convert::FromSpecImpl<InboxStatus> for u8 {
    open spec fn obeys_from_spec() -> bool {
        true
    }

    open spec fn from_spec(v: InboxStatus) -> u8 {
        inbox_status_code(v)
    }
}

/// Parameters for querying received messages.
#[derive(Debug, Clone)]
pub struct InboxRequest {
    /// Account authentication key.
    pub key: String,
    /// Filter by read status.
    pub status: InboxStatus,
    /// Optional start date filter (format: `DD/MM/YYYY`).
    pub date_from: Option<String>,
    /// Optional end date filter (format: `DD/MM/YYYY`).
    pub date_to: Option<String>,
    /// Optional list of sent-message IDs to filter responses by.
    pub id: Option<Vec<u64>>,
}

impl Default for InboxRequest {
    fn default() -> (r: Self)
        ensures
            r.key@ == Seq::<char>::empty(),
            r.status == InboxStatus::NewOnly,
            r.date_from is None,
            r.date_to is None,
            r.id is None,
    {
        InboxRequest {
            key: String::new(),
            status: InboxStatus::NewOnly,
            date_from: None,
            date_to: None,
            id: None,
        }
    }
}

impl InboxRequest {
    /// Create a basic inbox request that fetches only new messages.
    pub fn new(key: &str) -> (r: Self)
        ensures
            r.key@ == key@,
            r.status == InboxStatus::NewOnly,
            r.date_from is None,
            r.date_to is None,
            r.id is None,
    {
        InboxRequest {
            key: String::from_str(key),
            status: InboxStatus::NewOnly,
            date_from: None,
            date_to: None,
            id: None,
        }
    }

    /// Include all messages, not just unread ones.
    pub fn all(self) -> (r: Self)
        ensures
            r.status == InboxStatus::All,
            r.key == self.key,
            r.date_from == self.date_from,
            r.date_to == self.date_to,
            r.id == self.id,
    {
        let mut s = self;
        s.status = InboxStatus::All;
        s
    }

    /// Filter messages starting from this date (format: `DD/MM/YYYY`).
    pub fn date_from(self, date: &str) -> (r: Self)
        ensures
            opt_view(r.date_from) == Some(date@),
            r.key == self.key,
            r.status == self.status,
            r.date_to == self.date_to,
            r.id == self.id,
    {
        let mut s = self;
        s.date_from = Some(String::from_str(date));
        s
    }

    /// Filter messages up to this date (format: `DD/MM/YYYY`).
    pub fn date_to(self, date: &str) -> (r: Self)
        ensures
            opt_view(r.date_to) == Some(date@),
            r.key == self.key,
            r.status == self.status,
            r.date_from == self.date_from,
            r.id == self.id,
    {
        let mut s = self;
        s.date_to = Some(String::from_str(date));
        s
    }

    /// Limit results to responses for the specified sent-message IDs.
    pub fn filter_ids(self, ids: Vec<u64>) -> (r: Self)
        ensures
            r.id == Some(ids),
            r.key == self.key,
            r.status == self.status,
            r.date_from == self.date_from,
            r.date_to == self.date_to,
    {
        let mut s = self;
        s.id = Some(ids);
        s
    }
}

/// A received (MO) message.
#[derive(Debug, Clone)]
pub struct InboxMessage {
    /// `"OK"` on success, `"ERROR"` on error (field `situacao`).
    pub status: String,
    /// Date and time the response was received (`DD/MM/YYYY HH:MM:SS`).
    pub data_read: String,
    /// Phone number that sent the reply (field `telefone`).
    pub phone: String,
    /// ID of the original sent message (MT) this reply belongs to, if known.
    pub id: String,
    /// Reference identifier from the original send request.
    pub refer: String,
    /// Text of the original sent message.
    pub msg_sent: String,
    /// Unique ID of this received message.
    pub id_sms_read: String,
    /// Text of the received reply (field `descricao`).
    pub description: String,
}

// ------------------------------------------------------------------
// DLR - Message Status Inquiry
// ------------------------------------------------------------------

/// Request for querying delivery status of one or more sent messages.
#[derive(Debug, Clone)]
pub struct DlrRequest {
    /// Account authentication key.
    pub key: String,
    /// IDs of the sent messages to query.
    pub id: Vec<u64>,
}

impl DlrRequest {
    /// Build a DLR query for the given message IDs.
    pub fn new(key: &str, ids: Vec<u64>) -> (r: Self)
        ensures
            r.key@ == key@,
            r.id == ids,
    {
        DlrRequest { key: String::from_str(key), id: ids }
    }
}

/// The delivery description `"recebida"` in any ASCII case.
pub open spec fn is_delivered_description(s: Seq<char>) -> bool {
    eq_ignore_ascii_case_spec(s, seq!['r', 'e', 'c', 'e', 'b', 'i', 'd', 'a'])
}

/// A description counts as delivered exactly when it is the eight letters
/// R, E, C, E, B, I, D, A, each in either ASCII case; no other status of the
/// API (ENVIADA, FILA, ERROR, CANCELADA, BLACK LIST, APROVACAO) counts.
pub proof fn law_delivered_means_recebida(s: Seq<char>)
    ensures
        is_delivered_description(s) <==> s.len() == 8 && (s[0] == 'r' || s[0] == 'R') && (s[1]
            == 'e' || s[1] == 'E') && (s[2] == 'c' || s[2] == 'C') && (s[3] == 'e' || s[3] == 'E')
            && (s[4] == 'b' || s[4] == 'B') && (s[5] == 'i' || s[5] == 'I') && (s[6] == 'd' || s[6]
            == 'D') && (s[7] == 'a' || s[7] == 'A'),
        !is_delivered_description("ENVIADA"@),
        !is_delivered_description("FILA"@),
        !is_delivered_description("ERROR"@),
        !is_delivered_description("CANCELADA"@),
        !is_delivered_description("BLACK LIST"@),
        !is_delivered_description("APROVACAO"@),
{
    let w = seq!['r', 'e', 'c', 'e', 'b', 'i', 'd', 'a'];
    if s.len() == 8 {
        lemma_ascii_lower_letter(s[0], 'r', 'R');
        lemma_ascii_lower_letter(s[1], 'e', 'E');
        lemma_ascii_lower_letter(s[2], 'c', 'C');
        lemma_ascii_lower_letter(s[3], 'e', 'E');
        lemma_ascii_lower_letter(s[4], 'b', 'B');
        lemma_ascii_lower_letter(s[5], 'i', 'I');
        lemma_ascii_lower_letter(s[6], 'd', 'D');
        lemma_ascii_lower_letter(s[7], 'a', 'A');
        if is_delivered_description(s) {
            assert(ascii_lower(s[0]) == ascii_lower(w[0]));
            assert(ascii_lower(s[1]) == ascii_lower(w[1]));
            assert(ascii_lower(s[2]) == ascii_lower(w[2]));
            assert(ascii_lower(s[3]) == ascii_lower(w[3]));
            assert(ascii_lower(s[4]) == ascii_lower(w[4]));
            assert(ascii_lower(s[5]) == ascii_lower(w[5]));
            assert(ascii_lower(s[6]) == ascii_lower(w[6]));
            assert(ascii_lower(s[7]) == ascii_lower(w[7]));
        }
        if (s[0] == 'r' || s[0] == 'R') && (s[1] == 'e' || s[1] == 'E') && (s[2] == 'c' || s[2]
            == 'C') && (s[3] == 'e' || s[3] == 'E') && (s[4] == 'b' || s[4] == 'B') && (s[5]
            == 'i' || s[5] == 'I') && (s[6] == 'd' || s[6] == 'D') && (s[7] == 'a' || s[7]
            == 'A') {
            assert forall|i: int| 0 <= i < s.len() implies ascii_lower(#[trigger] s[i])
                == ascii_lower(w[i]) by {
                assert(i == 0 || i == 1 || i == 2 || i == 3 || i == 4 || i == 5 || i == 6 || i
                    == 7);
            }
        }
    }
    reveal_strlit("ENVIADA");
    reveal_strlit("FILA");
    reveal_strlit("ERROR");
    reveal_strlit("CANCELADA");
    reveal_strlit("BLACK LIST");
    reveal_strlit("APROVACAO");
    assert("ENVIADA"@.len() == 7);
    assert("FILA"@.len() == 4);
    assert("ERROR"@.len() == 5);
    assert("CANCELADA"@.len() == 9);
    assert("BLACK LIST"@.len() == 10);
    assert("APROVACAO"@.len() == 9);
}

/// Delivery status of a single message.
#[derive(Debug, Clone)]
pub struct DlrResponse {
    /// `"OK"` on success, `"ERROR"` otherwise (field `situacao`).
    pub status: String,
    /// Numeric status code (field `codigo`).
    pub code: String,
    /// Timestamp the message was sent (`DD/MM/YYYY HH:MM:SS`).
    pub data_envio: Option<String>,
    /// Mobile operator the message was sent to, e.g. `"OI"` (field `operadora`).
    pub operator: Option<String>,
    /// Delivery status description (field `descricao`): `"RECEBIDA"`,
    /// `"ENVIADA"`, `"ERROR"`, `"FILA"`, `"CANCELADA"`, `"BLACK LIST"` or `"APROVACAO"`.
    pub description: String,
}

impl DlrResponse {
    /// Returns `true` when the API call itself succeeded (not necessarily
    /// that the SMS was delivered; see [`DlrResponse::is_delivered`]).
    pub fn is_ok(&self) -> (r: bool)
        ensures
            r == is_ok_status(self.status@),
    {
        status_is_ok(&self.status)
    }

    /// Returns `true` if the message was delivered to the device.
    pub fn is_delivered(&self) -> (r: bool)
        ensures
            r == is_delivered_description(self.description@),
    {
        proof {
            reveal_strlit("recebida");
        }
        eq_ignore_ascii_case(self.description.as_str(), "recebida")
    }
}

// ------------------------------------------------------------------
// Account Balance
// ------------------------------------------------------------------

/// The current SMS credit balance for the account.
#[derive(Debug, Clone)]
pub struct BalanceResponse {
    /// `"OK"` on success, `"ERROR"` otherwise (field `situacao`).
    pub status: String,
    /// Available SMS credits (field `saldo_sms`).
    pub sms_balance: String,
    /// Human-readable description (field `descricao`).
    pub description: String,
}

impl BalanceResponse {
    /// Returns `true` when the API call succeeded.
    pub fn is_ok(&self) -> (r: bool)
        ensures
            r == is_ok_status(self.status@),
    {
        status_is_ok(&self.status)
    }

    /// Parse the SMS balance as an integer, ignoring surrounding whitespace.
    pub fn balance_as_u64(&self) -> (r: Option<u64>)
        ensures
            r == parse_u64_spec(trim_spec(self.sms_balance@)),
    {
        parse_u64(trim(self.sms_balance.as_str()))
    }
}

// ------------------------------------------------------------------
// Total Report
// ------------------------------------------------------------------

/// Parameters for a total-usage report query.
#[derive(Debug, Clone)]
pub struct ReportRequest {
    /// Account authentication key.
    pub key: String,
    /// Optional start date filter (format: `DD/MM/YYYY`).
    pub date_from: Option<String>,
    /// Optional end date filter (format: `DD/MM/YYYY`).
    pub date_to: Option<String>,
}

impl Default for ReportRequest {
    fn default() -> (r: Self)
        ensures
            r.key@ == Seq::<char>::empty(),
            r.date_from is None,
            r.date_to is None,
    {
        ReportRequest { key: String::new(), date_from: None, date_to: None }
    }
}

impl ReportRequest {
    /// Build a report request without date filters.
    pub fn new(key: &str) -> (r: Self)
        ensures
            r.key@ == key@,
            r.date_from is None,
            r.date_to is None,
    {
        ReportRequest { key: String::from_str(key), date_from: None, date_to: None }
    }

    /// Filter report starting from this date (format: `DD/MM/YYYY`).
    pub fn date_from(self, date: &str) -> (r: Self)
        ensures
            opt_view(r.date_from) == Some(date@),
            r.key == self.key,
            r.date_to == self.date_to,
    {
        let mut s = self;
        s.date_from = Some(String::from_str(date));
        s
    }

    /// Filter report up to this date (format: `DD/MM/YYYY`).
    pub fn date_to(self, date: &str) -> (r: Self)
        ensures
            opt_view(r.date_to) == Some(date@),
            r.key == self.key,
            r.date_from == self.date_from,
    {
        let mut s = self;
        s.date_to = Some(String::from_str(date));
        s
    }
}

/// Summary usage statistics for a reporting period.
#[derive(Debug, Clone)]
pub struct ReportResponse {
    /// `"OK"` on success, `"ERROR"` otherwise (field `situacao`).
    pub status: String,
    /// Numeric status code (field `codigo`).
    pub code: String,
    /// Start date of the period (`DD/MM/YYYY`).
    pub data_inicio: Option<String>,
    /// End date of the period (`DD/MM/YYYY`).
    pub data_fim: Option<String>,
    /// Count of messages with status *sent* (field `enviada`).
    pub sent: String,
    /// Count of messages with status *received* (field `recebida`).
    pub received: String,
    /// Count of messages rejected by the block list (field `blacklist`).
    pub blacklist: String,
    /// Count of messages cancelled (field `cancelada`).
    pub cancelled: String,
    /// Total credits consumed (field `qtd_credito`).
    pub credits_used: String,
    /// Human-readable description (field `descricao`).
    pub description: String,
}

impl ReportResponse {
    /// Returns `true` when the API call succeeded.
    pub fn is_ok(&self) -> (r: bool)
        ensures
            r == is_ok_status(self.status@),
    {
        status_is_ok(&self.status)
    }
}

} // verus!
