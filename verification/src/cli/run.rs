//! What the command-line tools send and what they report.

use crate::text::opt_view;
use crate::cli::tools::{InboxArgs, ReportArgs, SendArgs};
use crate::models::{
    is_ok_status, BalanceResponse, CancelResponse, InboxRequest, InboxStatus, ReportRequest,
    SendSmsRequest, SendSmsResponse,
};
use crate::text::{contains, contains_spec, parse_u64_spec, trim_spec};
use vstd::prelude::*;

verus! {

/// The smaller of two lengths.
pub open spec fn min_len(a: nat, b: nat) -> nat {
    if a <= b {
        a
    } else {
        b
    }
}

/// The messages that `send_sms` sends: the numbers and texts paired in order
/// (as far as both lists go), each with the reference and schedule given.
pub fn send_requests(args: &SendArgs) -> (r: Vec<SendSmsRequest>)
    ensures
        r.len() == min_len(args.numbers.len() as nat, args.messages.len() as nat),
        forall|i: int|
            0 <= i < r.len() ==> {
                &&& (#[trigger] r@[i]).key@ == args.key@
                &&& r@[i].service_type == 9
                &&& r@[i].number == args.numbers@[i]
                &&& r@[i].msg@ == args.messages@[i]@
                &&& opt_view(r@[i].refer) == opt_view(args.refer)
                &&& opt_view(r@[i].jobdate) == opt_view(args.date)
                &&& opt_view(r@[i].jobtime) == opt_view(args.time)
            },
{
    let n = if args.numbers.len() <= args.messages.len() {
        args.numbers.len()
    } else {
        args.messages.len()
    };
    let mut r: Vec<SendSmsRequest> = Vec::new();
    let mut i: usize = 0;
    while i < n
        invariant
            n == min_len(args.numbers.len() as nat, args.messages.len() as nat),
            i <= n,
            r.len() == i,
            forall|j: int|
                0 <= j < i ==> {
                    &&& (#[trigger] r@[j]).key@ == args.key@
                    &&& r@[j].service_type == 9
                    &&& r@[j].number == args.numbers@[j]
                    &&& r@[j].msg@ == args.messages@[j]@
                    &&& opt_view(r@[j].refer) == opt_view(args.refer)
                    &&& opt_view(r@[j].jobdate) == opt_view(args.date)
                    &&& opt_view(r@[j].jobtime) == opt_view(args.time)
                },
        decreases n - i,
    {
        let mut req = SendSmsRequest::new(
            args.key.as_str(),
            args.numbers[i],
            args.messages[i].as_str(),
        );
        match &args.refer {
            Some(s) => {
                req = req.refer(s.as_str());
            },
            None => {},
        }
        match &args.date {
            Some(s) => {
                req = req.schedule_date(s.as_str());
            },
            None => {},
        }
        match &args.time {
            Some(s) => {
                req = req.schedule_time(s.as_str());
            },
            None => {},
        }
        r.push(req);
        i = i + 1;
    }
    r
}

/// The inbox query that `inbox` sends.
pub fn inbox_request(args: InboxArgs) -> (r: InboxRequest)
    ensures
        r.key@ == args.key@,
        r.status == (if args.all {
            InboxStatus::All
        } else {
            InboxStatus::NewOnly
        }),
        opt_view(r.date_from) == opt_view(args.date_from),
        opt_view(r.date_to) == opt_view(args.date_to),
        args.ids.len() == 0 ==> r.id is None,
        args.ids.len() > 0 ==> r.id == Some(args.ids),
{
    let mut req = InboxRequest::new(args.key.as_str());
    if args.all {
        req = req.all();
    }
    match &args.date_from {
        Some(s) => {
            req = req.date_from(s.as_str());
        },
        None => {},
    }
    match &args.date_to {
        Some(s) => {
            req = req.date_to(s.as_str());
        },
        None => {},
    }
    if args.ids.len() > 0 {
        req = req.filter_ids(args.ids);
    }
    req
}

/// The report query that `report` sends.
pub fn report_request(args: ReportArgs) -> (r: ReportRequest)
    ensures
        r.key@ == args.key@,
        opt_view(r.date_from) == opt_view(args.date_from),
        opt_view(r.date_to) == opt_view(args.date_to),
{
    let mut req = ReportRequest::new(args.key.as_str());
    match &args.date_from {
        Some(s) => {
            req = req.date_from(s.as_str());
        },
        None => {},
    }
    match &args.date_to {
        Some(s) => {
            req = req.date_to(s.as_str());
        },
        None => {},
    }
    req
}

/// How `report` names the period of a report.
pub open spec fn period_spec(from: Option<Seq<char>>, to: Option<Seq<char>>) -> Seq<char> {
    match (from, to) {
        (Some(f), Some(t)) => f + " → "@ + t,
        (Some(f), None) => "from "@ + f,
        (None, Some(t)) => "up to "@ + t,
        (None, None) => "all time"@,
    }
}

/// The period of a report, from its optional start and end dates.
pub fn report_period(from: &Option<String>, to: &Option<String>) -> (r: String)
    ensures
        r@ == period_spec(opt_view(*from), opt_view(*to)),
{
    match (from, to) {
        (Some(f), Some(t)) => {
            let mut s = f.clone();
            s.append(" → ");
            s.append(t.as_str());
            s
        },
        (Some(f), None) => {
            let mut s = String::from_str("from ");
            s.append(f.as_str());
            s
        },
        (None, Some(t)) => {
            let mut s = String::from_str("up to ");
            s.append(t.as_str());
            s
        },
        (None, None) => String::from_str("all time"),
    }
}

/// Whether every message of a send was accepted.
pub fn all_sent_ok(results: &Vec<SendSmsResponse>) -> (r: bool)
    ensures
        r == forall|i: int| 0 <= i < results.len() ==> is_ok_status(#[trigger] results@[i].status@),
{
    let mut i: usize = 0;
    while i < results.len()
        invariant
            i <= results.len(),
            forall|j: int| 0 <= j < i ==> is_ok_status(#[trigger] results@[j].status@),
        decreases results.len() - i,
    {
        if !results[i].is_ok() {
            return false;
        }
        i = i + 1;
    }
    true
}

/// Whether every cancellation succeeded.
pub fn all_cancelled_ok(results: &Vec<CancelResponse>) -> (r: bool)
    ensures
        r == forall|i: int| 0 <= i < results.len() ==> is_ok_status(#[trigger] results@[i].status@),
{
    let mut i: usize = 0;
    while i < results.len()
        invariant
            i <= results.len(),
            forall|j: int| 0 <= j < i ==> is_ok_status(#[trigger] results@[j].status@),
        decreases results.len() - i,
    {
        if !results[i].is_ok() {
            return false;
        }
        i = i + 1;
    }
    true
}

/// The credits that `balance` reports: the balance read as a number, or 0
/// when it is not one.
pub fn credits(b: &BalanceResponse) -> (r: u64)
    ensures
        r == match parse_u64_spec(trim_spec(b.sms_balance@)) {
            Some(n) => n,
            None => 0,
        },
{
    match b.balance_as_u64() {
        Some(n) => n,
        None => 0,
    }
}

/// What `str::to_uppercase` gives for a text: a function of the text alone,
/// by the Unicode case mappings.
pub uninterp spec fn uppercase(s: Seq<char>) -> Seq<char>;

/// Calls `str::to_uppercase`; the contract names its result and says nothing
/// more of the Unicode mapping.
#[verifier::external_body]
fn to_uppercase(s: &str) -> (r: String)
    ensures
        r@ == uppercase(s@),
{
    s.to_uppercase()
}

/// The label of an upper-cased delivery description: the first of the known
/// statuses that it contains.
pub open spec fn status_label_spec(u: Seq<char>) -> Seq<char> {
    if contains_spec(u, "RECEBIDA"@) {
        "✓ DELIVERED"@
    } else if contains_spec(u, "ENVIADA"@) {
        "→ SENT"@
    } else if contains_spec(u, "FILA"@) {
        "⏳ QUEUED"@
    } else if contains_spec(u, "CANCELADA"@) {
        "✗ CANCELLED"@
    } else if contains_spec(u, "BLACK"@) {
        "⛔ BLACKLIST"@
    } else if contains_spec(u, "APROVACAO"@) {
        "⏳ APPROVAL"@
    } else if contains_spec(u, "ERROR"@) {
        "✗ ERROR"@
    } else {
        "? UNKNOWN"@
    }
}

/// The label of an upper-cased delivery description.
pub fn status_label(upper: &str) -> (r: &'static str)
    ensures
        r@ == status_label_spec(upper@),
{
    if contains(upper, "RECEBIDA") {
        "✓ DELIVERED"
    } else if contains(upper, "ENVIADA") {
        "→ SENT"
    } else if contains(upper, "FILA") {
        "⏳ QUEUED"
    } else if contains(upper, "CANCELADA") {
        "✗ CANCELLED"
    } else if contains(upper, "BLACK") {
        "⛔ BLACKLIST"
    } else if contains(upper, "APROVACAO") {
        "⏳ APPROVAL"
    } else if contains(upper, "ERROR") {
        "✗ ERROR"
    } else {
        "? UNKNOWN"
    }
}

/// The label that `dlr` shows for a delivery description: the description is
/// upper-cased, then labelled.
pub fn status_icon(description: &str) -> (r: &'static str)
    ensures
        r@ == status_label_spec(uppercase(description@)),
{
    let upper = to_uppercase(description);
    status_label(upper.as_str())
}

} // verus!
