//! The SMSDev API: where each call goes, what it sends, and how its answer is read.

use crate::error::SmsDevError;
use crate::models::{
    inbox_status_code, InboxStatus, BalanceResponse, CancelRequest, DlrRequest, DlrResponse, InboxRequest,
    ReportRequest, SendSmsRequest, SendSmsResponse,
};
use crate::text::{eq_ignore_ascii_case, eq_ignore_ascii_case_spec, opt_view};
use crate::payload::{
    has_field, lemma_has_field_concat, lemma_has_field_opt, lemma_has_field_small, fields_view, number_field, numbers_field, opt_text_field, push_opt_text, text_field, Field,
    FieldValueView, FieldView, Payload, PayloadView,
};
use vstd::prelude::*;

verus! {

/// The address of the production API.
pub open spec fn default_base_url() -> Seq<char> {
    "https://api.smsdev.com.br/v1"@
}

/// The URL of an endpoint: the base URL, a slash, then the endpoint's path.
pub open spec fn endpoint_spec(base: Seq<char>, path: Seq<char>) -> Seq<char> {
    base + seq!['/'] + path
}

/// One HTTP `POST` to the API: where it goes and the JSON body it carries.
#[derive(Debug, Clone)]
pub struct ApiCall {
    /// The full URL of the endpoint.
    pub url: String,
    /// The JSON body.
    pub payload: Payload,
}

/// The client configuration: the account's API key and the API's base URL.
///
/// The client attaches its own key to every call.
#[derive(Debug, Clone)]
pub struct SmsDev {
    api_key: String,
    base_url: String,
}

/// The fields of one message in a send call; `key` is the client's key.
pub open spec fn send_fields(key: Seq<char>, m: SendSmsRequest) -> Seq<FieldView> {
    seq![
        ("key"@, FieldValueView::Text(key)),
        ("type"@, FieldValueView::Number(m.service_type as u64)),
        ("number"@, FieldValueView::Number(m.number)),
        ("msg"@, FieldValueView::Text(m.msg@)),
    ] + opt_text_field("refer"@, m.refer) + opt_text_field("jobdate"@, m.jobdate)
        + opt_text_field("jobtime"@, m.jobtime)
}

/// The body of a send call: one object per message, in order, each with the
/// client's key.
pub open spec fn send_payload(key: Seq<char>, messages: Seq<SendSmsRequest>) -> PayloadView {
    PayloadView::Array(messages.map_values(|m: SendSmsRequest| send_fields(key, m)))
}

/// A body made of an API key and a list of message IDs.
pub open spec fn key_ids_payload(key: Seq<char>, ids: Seq<u64>) -> PayloadView {
    PayloadView::Object(
        seq![("key"@, FieldValueView::Text(key)), ("id"@, FieldValueView::Numbers(ids))],
    )
}

/// The body of an inbox call; `key` is the client's key.
pub open spec fn inbox_payload(key: Seq<char>, r: InboxRequest) -> PayloadView {
    PayloadView::Object(
        seq![
            ("key"@, FieldValueView::Text(key)),
            ("status"@, FieldValueView::Number(inbox_status_code(r.status) as u64)),
        ] + opt_text_field("date_from"@, r.date_from) + opt_text_field("date_to"@, r.date_to)
            + match r.id {
            Some(ids) => seq![("id"@, FieldValueView::Numbers(ids@))],
            None => seq![],
        },
    )
}

/// The body of a report call; `key` is the client's key.
pub open spec fn report_payload(key: Seq<char>, r: ReportRequest) -> PayloadView {
    PayloadView::Object(
        seq![("key"@, FieldValueView::Text(key))] + opt_text_field("date_from"@, r.date_from)
            + opt_text_field("date_to"@, r.date_to),
    )
}

fn send_object(key: &String, m: &SendSmsRequest) -> (r: Vec<Field>)
    ensures
        fields_view(r@) == send_fields(key@, *m),
{
    let mut fields: Vec<Field> = Vec::new();
    fields.push(text_field("key", key.as_str()));
    fields.push(number_field("type", m.service_type as u64));
    fields.push(number_field("number", m.number));
    fields.push(text_field("msg", m.msg.as_str()));
    assert(fields_view(fields@) =~= seq![
        ("key"@, FieldValueView::Text(key@)),
        ("type"@, FieldValueView::Number(m.service_type as u64)),
        ("number"@, FieldValueView::Number(m.number)),
        ("msg"@, FieldValueView::Text(m.msg@)),
    ]);
    push_opt_text(&mut fields, "refer", &m.refer);
    push_opt_text(&mut fields, "jobdate", &m.jobdate);
    push_opt_text(&mut fields, "jobtime", &m.jobtime);
    fields
}

fn key_ids_object(key: &String, ids: Vec<u64>) -> (r: Payload)
    ensures
        r@ == key_ids_payload(key@, ids@),
{
    let mut fields: Vec<Field> = Vec::new();
    fields.push(text_field("key", key.as_str()));
    let ghost ids_view = ids@;
    fields.push(numbers_field("id", ids));
    assert(fields_view(fields@) =~= seq![
        ("key"@, FieldValueView::Text(key@)),
        ("id"@, FieldValueView::Numbers(ids_view)),
    ]);
    Payload::Object(fields)
}

impl SmsDev {
    /// The account's API key.
    pub closed spec fn api_key_spec(&self) -> Seq<char> {
        self.api_key@
    }

    /// The base URL that every endpoint hangs under.
    pub closed spec fn base_url_spec(&self) -> Seq<char> {
        self.base_url@
    }

    /// Create a client configuration for the given API key and the production API.
    pub fn new(api_key: &str) -> (r: Self)
        ensures
            r.api_key_spec() == api_key@,
            r.base_url_spec() == default_base_url(),
    {
        SmsDev {
            api_key: String::from_str(api_key),
            base_url: String::from_str("https://api.smsdev.com.br/v1"),
        }
    }

    /// Override the base URL (useful for testing against a mock server).
    pub fn with_base_url(self, url: &str) -> (r: Self)
        ensures
            r.api_key_spec() == self.api_key_spec(),
            r.base_url_spec() == url@,
    {
        SmsDev { api_key: self.api_key, base_url: String::from_str(url) }
    }

    /// The account's API key.
    pub fn api_key(&self) -> (r: &str)
        ensures
            r@ == self.api_key_spec(),
    {
        self.api_key.as_str()
    }

    /// The base URL.
    pub fn base_url(&self) -> (r: &str)
        ensures
            r@ == self.base_url_spec(),
    {
        self.base_url.as_str()
    }

    /// The full URL of an endpoint.
    pub fn endpoint(&self, path: &str) -> (r: String)
        ensures
            r@ == endpoint_spec(self.base_url_spec(), path@),
    {
        proof {
            reveal_strlit("/");
        }
        let mut url = self.base_url.clone();
        url.append("/");
        url.append(path);
        url
    }

    /// The call that sends one or more SMS messages: `POST send` with an
    /// array holding one object per message, in the given order, each with the
    /// client's key.
    pub fn send_sms_call(&self, messages: Vec<SendSmsRequest>) -> (r: ApiCall)
        ensures
            r.url@ == endpoint_spec(self.base_url_spec(), "send"@),
            r.payload@ == send_payload(self.api_key_spec(), messages@),
    {
        let mut objects: Vec<Vec<Field>> = Vec::new();
        let mut i: usize = 0;
        while i < messages.len()
            invariant
                i <= messages.len(),
                objects.len() == i,
                forall|j: int|
                    0 <= j < i ==> fields_view(#[trigger] objects@[j]@) == send_fields(
                        self.api_key@,
                        messages@[j],
                    ),
            decreases messages.len() - i,
        {
            objects.push(send_object(&self.api_key, &messages[i]));
            i = i + 1;
        }
        assert(objects@.map_values(|o: Vec<Field>| fields_view(o@)) =~= messages@.map_values(
            |m: SendSmsRequest| send_fields(self.api_key@, m),
        ));
        ApiCall { url: self.endpoint("send"), payload: Payload::Array(objects) }
    }

    /// The call that cancels scheduled messages: `POST cancel` with the
    /// client's key and the IDs.
    pub fn cancel_call(&self, ids: Vec<u64>) -> (r: ApiCall)
        ensures
            r.url@ == endpoint_spec(self.base_url_spec(), "cancel"@),
            r.payload@ == key_ids_payload(self.api_key_spec(), ids@),
    {
        let req = CancelRequest::new(self.api_key.as_str(), ids);
        ApiCall { url: self.endpoint("cancel"), payload: key_ids_object(&req.key, req.id) }
    }

    /// The call that reads the inbox: `POST inbox` with the client's key, the
    /// request's status, and the date and ID filters that the request holds.
    pub fn inbox_call(&self, req: InboxRequest) -> (r: ApiCall)
        ensures
            r.url@ == endpoint_spec(self.base_url_spec(), "inbox"@),
            r.payload@ == inbox_payload(self.api_key_spec(), req),
    {
        let mut fields: Vec<Field> = Vec::new();
        fields.push(text_field("key", self.api_key.as_str()));
        let code: u8 = req.status.into();
        fields.push(number_field("status", code as u64));
        assert(fields_view(fields@) =~= seq![
            ("key"@, FieldValueView::Text(self.api_key@)),
            ("status"@, FieldValueView::Number(inbox_status_code(req.status) as u64)),
        ]);
        push_opt_text(&mut fields, "date_from", &req.date_from);
        push_opt_text(&mut fields, "date_to", &req.date_to);
        let ghost before = fields_view(fields@);
        match req.id {
            Some(ids) => {
                let ghost v = ids@;
                fields.push(numbers_field("id", ids));
                assert(fields_view(fields@) =~= before + seq![
                    ("id"@, FieldValueView::Numbers(v)),
                ]);
            },
            None => {
                assert(fields_view(fields@) =~= before + Seq::<FieldView>::empty());
            },
        }
        ApiCall { url: self.endpoint("inbox"), payload: Payload::Object(fields) }
    }

    /// The call that asks for delivery statuses: `POST dlr` with the
    /// client's key and the IDs.
    pub fn dlr_call(&self, ids: Vec<u64>) -> (r: ApiCall)
        ensures
            r.url@ == endpoint_spec(self.base_url_spec(), "dlr"@),
            r.payload@ == key_ids_payload(self.api_key_spec(), ids@),
    {
        let req = DlrRequest::new(self.api_key.as_str(), ids);
        ApiCall { url: self.endpoint("dlr"), payload: key_ids_object(&req.key, req.id) }
    }

    /// The call that asks for the balance: `POST balance` with the client's key.
    pub fn balance_call(&self) -> (r: ApiCall)
        ensures
            r.url@ == endpoint_spec(self.base_url_spec(), "balance"@),
            r.payload@ == PayloadView::Object(
                seq![("key"@, FieldValueView::Text(self.api_key_spec()))],
            ),
    {
        let mut fields: Vec<Field> = Vec::new();
        fields.push(text_field("key", self.api_key.as_str()));
        assert(fields_view(fields@) =~= seq![("key"@, FieldValueView::Text(self.api_key@))]);
        ApiCall { url: self.endpoint("balance"), payload: Payload::Object(fields) }
    }

    /// The call that fetches the usage report: `POST report/total` with the
    /// client's key and the date filters that the request holds.
    pub fn report_call(&self, req: ReportRequest) -> (r: ApiCall)
        ensures
            r.url@ == endpoint_spec(self.base_url_spec(), "report/total"@),
            r.payload@ == report_payload(self.api_key_spec(), req),
    {
        let mut fields: Vec<Field> = Vec::new();
        fields.push(text_field("key", self.api_key.as_str()));
        assert(fields_view(fields@) =~= seq![("key"@, FieldValueView::Text(self.api_key@))]);
        push_opt_text(&mut fields, "date_from", &req.date_from);
        push_opt_text(&mut fields, "date_to", &req.date_to);
        ApiCall { url: self.endpoint("report/total"), payload: Payload::Object(fields) }
    }
}

/// Every endpoint URL lies under the client's base URL: it starts with the
/// base URL followed by a slash, and ends with the endpoint's path.
pub proof fn law_endpoint_under_base(base: Seq<char>, path: Seq<char>)
    ensures
        endpoint_spec(base, path).subrange(0, base.len() as int) == base,
        endpoint_spec(base, path)[base.len() as int] == '/',
        endpoint_spec(base, path).subrange(base.len() + 1int, endpoint_spec(base, path).len() as int)
            == path,
{
    let u = endpoint_spec(base, path);
    assert(u.subrange(0, base.len() as int) =~= base);
    assert(u.subrange(base.len() + 1int, u.len() as int) =~= path);
}

/// Sending one message sends an array that holds exactly that message's object.
pub proof fn law_send_one_body(key: Seq<char>, m: SendSmsRequest)
    ensures
        send_payload(key, seq![m]) == PayloadView::Array(seq![send_fields(key, m)]),
{
    assert(seq![m].map_values(|x: SendSmsRequest| send_fields(key, x)) =~= seq![
        send_fields(key, m),
    ]);
}

/// What the object sent for one message holds: the client's key, the service
/// type, the number and the text; and each of the reference, the schedule date
/// and the schedule time exactly when the message sets it, with its value.
pub proof fn law_send_object_fields(key: Seq<char>, m: SendSmsRequest, t: Seq<char>, n: u64)
    ensures
        has_field(send_fields(key, m), "key"@, FieldValueView::Text(t)) <==> t == key,
        has_field(send_fields(key, m), "type"@, FieldValueView::Number(n)) <==> n
            == m.service_type,
        has_field(send_fields(key, m), "number"@, FieldValueView::Number(n)) <==> n == m.number,
        has_field(send_fields(key, m), "msg"@, FieldValueView::Text(t)) <==> t == m.msg@,
        has_field(send_fields(key, m), "refer"@, FieldValueView::Text(t)) <==> opt_view(m.refer)
            == Some(t),
        has_field(send_fields(key, m), "jobdate"@, FieldValueView::Text(t)) <==> opt_view(
            m.jobdate,
        ) == Some(t),
        has_field(send_fields(key, m), "jobtime"@, FieldValueView::Text(t)) <==> opt_view(
            m.jobtime,
        ) == Some(t),
{
    reveal_strlit("key");
    reveal_strlit("type");
    reveal_strlit("number");
    reveal_strlit("msg");
    reveal_strlit("refer");
    reveal_strlit("jobdate");
    reveal_strlit("jobtime");
    assert("jobdate"@[3] != "jobtime"@[3]);
    assert("key"@[0] != "msg"@[0]);
    assert("key"@.len() == 3 && "type"@.len() == 4 && "number"@.len() == 6 && "msg"@.len() == 3
        && "refer"@.len() == 5 && "jobdate"@.len() == 7 && "jobtime"@.len() == 7);
    lemma_send_fields_split(key, m, "key"@, FieldValueView::Text(t));
    lemma_send_fields_split(key, m, "type"@, FieldValueView::Number(n));
    lemma_send_fields_split(key, m, "number"@, FieldValueView::Number(n));
    lemma_send_fields_split(key, m, "msg"@, FieldValueView::Text(t));
    lemma_send_fields_split(key, m, "refer"@, FieldValueView::Text(t));
    lemma_send_fields_split(key, m, "jobdate"@, FieldValueView::Text(t));
    lemma_send_fields_split(key, m, "jobtime"@, FieldValueView::Text(t));
    let tv = FieldValueView::Text(t);
    lemma_has_field_opt("refer"@, m.refer, "refer"@, tv);
    lemma_has_field_opt("jobdate"@, m.jobdate, "refer"@, tv);
    lemma_has_field_opt("jobtime"@, m.jobtime, "refer"@, tv);
    lemma_has_field_opt("refer"@, m.refer, "jobdate"@, tv);
    lemma_has_field_opt("jobdate"@, m.jobdate, "jobdate"@, tv);
    lemma_has_field_opt("jobtime"@, m.jobtime, "jobdate"@, tv);
    lemma_has_field_opt("refer"@, m.refer, "jobtime"@, tv);
    lemma_has_field_opt("jobdate"@, m.jobdate, "jobtime"@, tv);
    lemma_has_field_opt("jobtime"@, m.jobtime, "jobtime"@, tv);
}

proof fn lemma_send_fields_split(key: Seq<char>, m: SendSmsRequest, nm: Seq<char>, v: FieldValueView)
    ensures
        has_field(send_fields(key, m), nm, v) <==> (nm == "key"@ && v == FieldValueView::Text(key))
            || (nm == "type"@ && v == FieldValueView::Number(m.service_type as u64)) || (nm
            == "number"@ && v == FieldValueView::Number(m.number)) || (nm == "msg"@ && v
            == FieldValueView::Text(m.msg@)) || has_field(opt_text_field("refer"@, m.refer), nm, v)
            || has_field(opt_text_field("jobdate"@, m.jobdate), nm, v) || has_field(
            opt_text_field("jobtime"@, m.jobtime),
            nm,
            v,
        ),
{
    let base = seq![
        ("key"@, FieldValueView::Text(key)),
        ("type"@, FieldValueView::Number(m.service_type as u64)),
        ("number"@, FieldValueView::Number(m.number)),
        ("msg"@, FieldValueView::Text(m.msg@)),
    ];
    let r = opt_text_field("refer"@, m.refer);
    let d = opt_text_field("jobdate"@, m.jobdate);
    let h = opt_text_field("jobtime"@, m.jobtime);
    assert(send_fields(key, m) == base + r + d + h);
    lemma_has_field_concat(base + r + d, h, nm, v);
    lemma_has_field_concat(base + r, d, nm, v);
    lemma_has_field_concat(base, r, nm, v);
    lemma_has_field_small(base, nm, v);
    lemma_has_field_opt("refer"@, m.refer, nm, v);
    lemma_has_field_opt("jobdate"@, m.jobdate, nm, v);
    lemma_has_field_opt("jobtime"@, m.jobtime, nm, v);
}

/// The ID part of an inbox body.
pub open spec fn inbox_id_part(r: InboxRequest) -> Seq<FieldView> {
    match r.id {
        Some(ids) => seq![("id"@, FieldValueView::Numbers(ids@))],
        None => seq![],
    }
}

proof fn lemma_inbox_split(key: Seq<char>, r: InboxRequest, nm: Seq<char>, v: FieldValueView)
    ensures
        inbox_payload(key, r) matches PayloadView::Object(fs) && (has_field(fs, nm, v) <==> (nm
            == "key"@ && v == FieldValueView::Text(key)) || (nm == "status"@ && v
            == FieldValueView::Number(inbox_status_code(r.status) as u64)) || has_field(
            opt_text_field("date_from"@, r.date_from),
            nm,
            v,
        ) || has_field(opt_text_field("date_to"@, r.date_to), nm, v) || (nm == "id"@ && r.id is Some
            && v == FieldValueView::Numbers(r.id->0@))),
{
    let base = seq![
        ("key"@, FieldValueView::Text(key)),
        ("status"@, FieldValueView::Number(inbox_status_code(r.status) as u64)),
    ];
    let f = opt_text_field("date_from"@, r.date_from);
    let t = opt_text_field("date_to"@, r.date_to);
    let i = inbox_id_part(r);
    assert(inbox_payload(key, r) == PayloadView::Object(base + f + t + i));
    lemma_has_field_concat(base + f + t, i, nm, v);
    lemma_has_field_concat(base + f, t, nm, v);
    lemma_has_field_concat(base, f, nm, v);
    lemma_has_field_small(base, nm, v);
    lemma_has_field_small(i, nm, v);
}

/// What the inbox body holds: the client's key; the status 1 when the request
/// asks for all messages and 0 when it asks for new ones only; each date
/// filter exactly when the request sets it, with its value, whatever the
/// status; and the ID list exactly when the request filters by IDs.
pub proof fn law_inbox_body_fields(
    key: Seq<char>,
    r: InboxRequest,
    t: Seq<char>,
    n: u64,
    v: Seq<u64>,
)
    ensures
        inbox_payload(key, r) matches PayloadView::Object(fs) && (has_field(
            fs,
            "key"@,
            FieldValueView::Text(t),
        ) <==> t == key) && (has_field(fs, "status"@, FieldValueView::Number(n)) <==> n == (
        if r.status == InboxStatus::All {
            1u64
        } else {
            0u64
        })) && (has_field(fs, "date_from"@, FieldValueView::Text(t)) <==> opt_view(r.date_from)
            == Some(t)) && (has_field(fs, "date_to"@, FieldValueView::Text(t)) <==> opt_view(
            r.date_to,
        ) == Some(t)) && (has_field(fs, "id"@, FieldValueView::Numbers(v)) <==> (r.id is Some
            && r.id->0@ == v)),
{
    reveal_strlit("key");
    reveal_strlit("status");
    reveal_strlit("date_from");
    reveal_strlit("date_to");
    reveal_strlit("id");
    assert("key"@.len() == 3 && "status"@.len() == 6 && "date_from"@.len() == 9
        && "date_to"@.len() == 7 && "id"@.len() == 2);
    let tv = FieldValueView::Text(t);
    lemma_inbox_split(key, r, "key"@, tv);
    lemma_inbox_split(key, r, "status"@, FieldValueView::Number(n));
    lemma_inbox_split(key, r, "date_from"@, tv);
    lemma_inbox_split(key, r, "date_to"@, tv);
    lemma_inbox_split(key, r, "id"@, FieldValueView::Numbers(v));
    lemma_has_field_opt("date_from"@, r.date_from, "key"@, tv);
    lemma_has_field_opt("date_to"@, r.date_to, "key"@, tv);
    lemma_has_field_opt("date_from"@, r.date_from, "status"@, FieldValueView::Number(n));
    lemma_has_field_opt("date_to"@, r.date_to, "status"@, FieldValueView::Number(n));
    lemma_has_field_opt("date_from"@, r.date_from, "date_from"@, tv);
    lemma_has_field_opt("date_to"@, r.date_to, "date_from"@, tv);
    lemma_has_field_opt("date_from"@, r.date_from, "date_to"@, tv);
    lemma_has_field_opt("date_to"@, r.date_to, "date_to"@, tv);
    lemma_has_field_opt("date_from"@, r.date_from, "id"@, FieldValueView::Numbers(v));
    lemma_has_field_opt("date_to"@, r.date_to, "id"@, FieldValueView::Numbers(v));
}

proof fn lemma_report_split(key: Seq<char>, r: ReportRequest, nm: Seq<char>, v: FieldValueView)
    ensures
        report_payload(key, r) matches PayloadView::Object(fs) && (has_field(fs, nm, v) <==> (nm
            == "key"@ && v == FieldValueView::Text(key)) || has_field(
            opt_text_field("date_from"@, r.date_from),
            nm,
            v,
        ) || has_field(opt_text_field("date_to"@, r.date_to), nm, v)),
{
    let base = seq![("key"@, FieldValueView::Text(key))];
    let f = opt_text_field("date_from"@, r.date_from);
    let t = opt_text_field("date_to"@, r.date_to);
    assert(report_payload(key, r) == PayloadView::Object(base + f + t));
    lemma_has_field_concat(base + f, t, nm, v);
    lemma_has_field_concat(base, f, nm, v);
    lemma_has_field_small(base, nm, v);
}

/// What the report body holds: the client's key, and each end of the date
/// range exactly when the request sets it, with its value, independently of
/// the other end.
pub proof fn law_report_body_fields(key: Seq<char>, r: ReportRequest, t: Seq<char>)
    ensures
        report_payload(key, r) matches PayloadView::Object(fs) && (has_field(
            fs,
            "key"@,
            FieldValueView::Text(t),
        ) <==> t == key) && (has_field(fs, "date_from"@, FieldValueView::Text(t)) <==> opt_view(
            r.date_from,
        ) == Some(t)) && (has_field(fs, "date_to"@, FieldValueView::Text(t)) <==> opt_view(
            r.date_to,
        ) == Some(t)),
{
    reveal_strlit("key");
    reveal_strlit("date_from");
    reveal_strlit("date_to");
    assert("key"@.len() == 3 && "date_from"@.len() == 9 && "date_to"@.len() == 7);
    let tv = FieldValueView::Text(t);
    lemma_report_split(key, r, "key"@, tv);
    lemma_report_split(key, r, "date_from"@, tv);
    lemma_report_split(key, r, "date_to"@, tv);
    lemma_has_field_opt("date_from"@, r.date_from, "key"@, tv);
    lemma_has_field_opt("date_to"@, r.date_to, "key"@, tv);
    lemma_has_field_opt("date_from"@, r.date_from, "date_from"@, tv);
    lemma_has_field_opt("date_to"@, r.date_to, "date_from"@, tv);
    lemma_has_field_opt("date_from"@, r.date_from, "date_to"@, tv);
    lemma_has_field_opt("date_to"@, r.date_to, "date_to"@, tv);
}

/// The send body holds one object per message, in order, and the object of
/// each message holds exactly what that message sets (see
/// [`law_send_object_fields`]).
pub proof fn law_send_body_objects(key: Seq<char>, messages: Seq<SendSmsRequest>, j: int)
    requires
        0 <= j < messages.len(),
    ensures
        send_payload(key, messages) matches PayloadView::Array(os) && os.len() == messages.len()
            && os[j] == send_fields(key, messages[j]),
{
}

/// An object carries the key `key`: it has the field `("key", key)`.
pub open spec fn object_carries_key(fs: Seq<FieldView>, key: Seq<char>) -> bool {
    exists|i: int| 0 <= i < fs.len() && #[trigger] fs[i] == ("key"@, FieldValueView::Text(key))
}

/// A body carries the key `key`: the object, or every object of the array, does.
pub open spec fn carries_key(p: PayloadView, key: Seq<char>) -> bool {
    match p {
        PayloadView::Object(fs) => object_carries_key(fs, key),
        PayloadView::Array(os) => forall|j: int|
            0 <= j < os.len() ==> object_carries_key(#[trigger] os[j], key),
    }
}

/// The client attaches its own key to every request: each body that a client
/// with key `key` builds carries that key, whatever keys the requests hold.
pub proof fn law_client_key_in_every_body(
    key: Seq<char>,
    messages: Seq<SendSmsRequest>,
    ids: Seq<u64>,
    inbox: InboxRequest,
    report: ReportRequest,
)
    ensures
        carries_key(send_payload(key, messages), key),
        carries_key(key_ids_payload(key, ids), key),
        carries_key(inbox_payload(key, inbox), key),
        carries_key(report_payload(key, report), key),
        carries_key(PayloadView::Object(seq![("key"@, FieldValueView::Text(key))]), key),
{
    let os = messages.map_values(|m: SendSmsRequest| send_fields(key, m));
    assert forall|j: int| 0 <= j < os.len() implies object_carries_key(#[trigger] os[j], key) by {
        assert(os[j][0] == ("key"@, FieldValueView::Text(key)));
    }
    let k = seq![("key"@, FieldValueView::Text(key))];
    assert(k[0] == ("key"@, FieldValueView::Text(key)));
    if let PayloadView::Object(fs) = key_ids_payload(key, ids) {
        assert(fs[0] == ("key"@, FieldValueView::Text(key)));
    }
    if let PayloadView::Object(fs) = inbox_payload(key, inbox) {
        assert(fs[0] == ("key"@, FieldValueView::Text(key)));
    }
    if let PayloadView::Object(fs) = report_payload(key, report) {
        assert(fs[0] == ("key"@, FieldValueView::Text(key)));
    }
}

/// The body of a cancel or delivery-status call holds exactly two fields: the
/// client's key and the IDs, unchanged.
pub proof fn law_key_then_ids(key: Seq<char>, ids: Seq<u64>)
    ensures
        key_ids_payload(key, ids) matches PayloadView::Object(fs) && fs.len() == 2 && fs[0] == (
            "key"@,
            FieldValueView::Text(key),
        ) && fs[1] == ("id"@, FieldValueView::Numbers(ids)),
{
}

/// The inbox body holds the client's key and the number of the request's
/// status, and holds an ID list exactly when the request filters by IDs.
pub proof fn law_inbox_body(key: Seq<char>, r: InboxRequest)
    ensures
        inbox_payload(key, r) matches PayloadView::Object(fs) && fs.len() >= 2 && fs[0] == (
            "key"@,
            FieldValueView::Text(key),
        ) && fs[1] == ("status"@, FieldValueView::Number(inbox_status_code(r.status) as u64))
            && (r.id is Some <==> fs.last() == ("id"@, FieldValueView::Numbers(r.id->0@))),
{
    reveal_strlit("id");
    reveal_strlit("date_to");
    reveal_strlit("date_from");
    reveal_strlit("status");
}

/// The status `"ERROR"` in any ASCII case: the API refused the request.
pub open spec fn is_error_status(s: Seq<char>) -> bool {
    eq_ignore_ascii_case_spec(s, seq!['e', 'r', 'r', 'o', 'r'])
}

/// Reads an answer's status: a refused request (`situacao` = `"ERROR"`) is the
/// API error with the answer's code and description; any other status passes.
pub fn api_status(status: &String, code: &String, description: &String) -> (r: Result<
    (),
    SmsDevError,
>)
    ensures
        is_error_status(status@) ==> (r matches Err(SmsDevError::Api { code: c, description: d })
            && c@ == code@ && d@ == description@),
        !is_error_status(status@) ==> r is Ok,
{
    proof {
        reveal_strlit("error");
    }
    if eq_ignore_ascii_case(status.as_str(), "error") {
        Err(SmsDevError::Api { code: code.clone(), description: description.clone() })
    } else {
        Ok(())
    }
}

/// The answer to sending a single message: the last entry of the array that
/// the API answered, whatever its status, or an unexpected answer when the
/// array is empty.
pub fn send_one_outcome(results: Vec<SendSmsResponse>) -> (r: Result<SendSmsResponse, SmsDevError>)
    ensures
        results.len() > 0 ==> r == Ok::<SendSmsResponse, SmsDevError>(results@.last()),
        results.len() == 0 ==> (r matches Err(SmsDevError::UnexpectedResponse(m))
            && m@ == "Empty response array"@),
{
    let mut results = results;
    match results.pop() {
        Some(x) => Ok(x),
        None => Err(SmsDevError::UnexpectedResponse(String::from_str("Empty response array"))),
    }
}

/// The answer to a balance query: the balance, or the API error when the API
/// refused the request. The balance answer has no code, so the error's code is empty.
pub fn balance_outcome(b: BalanceResponse) -> (r: Result<BalanceResponse, SmsDevError>)
    ensures
        !is_error_status(b.status@) ==> r == Ok::<BalanceResponse, SmsDevError>(b),
        is_error_status(b.status@) ==> (r matches Err(SmsDevError::Api { code: c, description: d })
            && c@ == Seq::<char>::empty() && d@ == b.description@),
{
    let no_code = String::new();
    match api_status(&b.status, &no_code, &b.description) {
        Ok(()) => Ok(b),
        Err(e) => Err(e),
    }
}

/// The answer to a delivery-status query.
///
/// The API answers either an array or a single object. `as_array` is the body
/// read as an array of statuses, if it is one; `as_object` is the body read as
/// one status, if it is one; `raw` is the body itself. An array is taken first;
/// a single object becomes an array of one; anything else is an unexpected answer
/// that carries the body.
pub fn dlr_outcome(
    as_array: Option<Vec<DlrResponse>>,
    as_object: Option<DlrResponse>,
    raw: String,
) -> (r: Result<Vec<DlrResponse>, SmsDevError>)
    ensures
        as_array is Some ==> r == Ok::<Vec<DlrResponse>, SmsDevError>(as_array->0),
        as_array is None && as_object is Some ==> (r matches Ok(v) && v@ == seq![
            as_object->0,
        ]),
        as_array is None && as_object is None ==> r == Err::<Vec<DlrResponse>, SmsDevError>(
            SmsDevError::UnexpectedResponse(raw),
        ),
{
    match as_array {
        Some(v) => Ok(v),
        None => match as_object {
            Some(single) => {
                let mut v: Vec<DlrResponse> = Vec::new();
                v.push(single);
                Ok(v)
            },
            None => Err(SmsDevError::UnexpectedResponse(raw)),
        },
    }
}

} // verus!
