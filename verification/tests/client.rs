use smsdev::client::{api_status, balance_outcome, dlr_outcome, send_one_outcome, ApiCall};
use smsdev::models::{BalanceResponse, DlrResponse, InboxRequest, ReportRequest, SendSmsRequest, SendSmsResponse};
use smsdev::payload::{Field, FieldValue, Payload};
use smsdev::{SmsDev, SmsDevError};

fn s(x: &str) -> String {
    x.to_string()
}

fn client(base: &str) -> SmsDev {
    SmsDev::new("TEST_KEY").with_base_url(base)
}

fn object(call: &ApiCall) -> &Vec<Field> {
    match &call.payload {
        Payload::Object(fields) => fields,
        Payload::Array(_) => panic!("expected an object body"),
    }
}

fn text(fields: &[Field], name: &str) -> Option<String> {
    fields.iter().find(|f| f.name == name).and_then(|f| match &f.value {
        FieldValue::Text(t) => Some(t.clone()),
        _ => None,
    })
}

fn number(fields: &[Field], name: &str) -> Option<u64> {
    fields.iter().find(|f| f.name == name).and_then(|f| match &f.value {
        FieldValue::Number(n) => Some(*n),
        _ => None,
    })
}

fn numbers(fields: &[Field], name: &str) -> Option<Vec<u64>> {
    fields.iter().find(|f| f.name == name).and_then(|f| match &f.value {
        FieldValue::Numbers(n) => Some(n.clone()),
        _ => None,
    })
}

#[test]
fn default_base_url_and_key() {
    let c = SmsDev::new("KEY");
    assert_eq!(c.api_key(), "KEY");
    assert_eq!(c.base_url(), "https://api.smsdev.com.br/v1");
    assert_eq!(c.endpoint("send"), "https://api.smsdev.com.br/v1/send");
}

#[test]
fn with_base_url_keeps_key() {
    let c = client("http://127.0.0.1:1234");
    assert_eq!(c.api_key(), "TEST_KEY");
    assert_eq!(c.endpoint("report/total"), "http://127.0.0.1:1234/report/total");
}

#[test]
fn send_call_one_object_per_message() {
    let c = client("http://mock");
    let msgs = vec![
        SendSmsRequest::new("TEST_KEY", 5511988887777_u64, "Hello"),
        SendSmsRequest::new("TEST_KEY", 5521977776666_u64, "Hi Bob!").refer("campaign-abc").schedule_date("25/12/2025"),
    ];
    let call = c.send_sms_call(msgs);
    assert_eq!(call.url, "http://mock/send");
    let objects = match &call.payload {
        Payload::Array(v) => v,
        Payload::Object(_) => panic!("expected an array body"),
    };
    assert_eq!(objects.len(), 2);
    assert_eq!(text(&objects[0], "key").as_deref(), Some("TEST_KEY"));
    assert_eq!(number(&objects[0], "type"), Some(9));
    assert_eq!(number(&objects[0], "number"), Some(5511988887777));
    assert_eq!(text(&objects[0], "msg").as_deref(), Some("Hello"));
    assert_eq!(objects[0].len(), 4);
    assert_eq!(text(&objects[1], "refer").as_deref(), Some("campaign-abc"));
    assert_eq!(text(&objects[1], "jobdate").as_deref(), Some("25/12/2025"));
    assert_eq!(text(&objects[1], "jobtime"), None);
    assert_eq!(objects[1].len(), 6);
}

#[test]
fn cancel_and_dlr_calls_use_client_key() {
    let c = client("http://mock");
    let call = c.cancel_call(vec![637849052, 637849053]);
    assert_eq!(call.url, "http://mock/cancel");
    let f = object(&call);
    assert_eq!(text(f, "key").as_deref(), Some("TEST_KEY"));
    assert_eq!(numbers(f, "id"), Some(vec![637849052, 637849053]));
    assert_eq!(f.len(), 2);

    let call = c.dlr_call(vec![123456789]);
    assert_eq!(call.url, "http://mock/dlr");
    let f = object(&call);
    assert_eq!(text(f, "key").as_deref(), Some("TEST_KEY"));
    assert_eq!(numbers(f, "id"), Some(vec![123456789]));
}

#[test]
fn inbox_call_fields() {
    let c = client("http://mock");
    let call = c.inbox_call(InboxRequest::new("OTHER_KEY"));
    assert_eq!(call.url, "http://mock/inbox");
    let f = object(&call);
    assert_eq!(text(f, "key").as_deref(), Some("TEST_KEY"));
    assert_eq!(number(f, "status"), Some(0));
    assert_eq!(f.len(), 2);

    let call = c.inbox_call(InboxRequest::new("K").all().date_from("01/01/2025").date_to("31/01/2025").filter_ids(vec![7]));
    let f = object(&call);
    assert_eq!(number(f, "status"), Some(1));
    assert_eq!(text(f, "date_from").as_deref(), Some("01/01/2025"));
    assert_eq!(text(f, "date_to").as_deref(), Some("31/01/2025"));
    assert_eq!(numbers(f, "id"), Some(vec![7]));
    assert_eq!(f.len(), 5);
}

#[test]
fn balance_and_report_calls() {
    let c = client("http://mock");
    let call = c.balance_call();
    assert_eq!(call.url, "http://mock/balance");
    let f = object(&call);
    assert_eq!(text(f, "key").as_deref(), Some("TEST_KEY"));
    assert_eq!(f.len(), 1);

    let call = c.report_call(ReportRequest::new("TEST_KEY").date_from("01/01/2020").date_to("30/01/2020"));
    assert_eq!(call.url, "http://mock/report/total");
    let f = object(&call);
    assert_eq!(text(f, "date_from").as_deref(), Some("01/01/2020"));
    assert_eq!(text(f, "date_to").as_deref(), Some("30/01/2020"));
    assert_eq!(f.len(), 3);

    let call = c.report_call(ReportRequest::new("TEST_KEY").date_to("30/01/2020"));
    let f = object(&call);
    assert_eq!(text(f, "date_from"), None);
    assert_eq!(f.len(), 2);
}

fn send_response(id: &str) -> SendSmsResponse {
    SendSmsResponse { status: s("OK"), code: s("1"), id: s(id), description: s("MENSAGEM NA FILA") }
}

#[test]
fn send_one_takes_the_answer() {
    let r = send_one_outcome(vec![send_response("111")]).unwrap();
    assert_eq!(r.id, "111");
    let r = send_one_outcome(vec![send_response("1"), send_response("2")]).unwrap();
    assert_eq!(r.id, "2");
}

#[test]
fn send_one_empty_answer_is_unexpected() {
    match send_one_outcome(vec![]) {
        Err(SmsDevError::UnexpectedResponse(m)) => assert_eq!(m, "Empty response array"),
        other => panic!("unexpected {:?}", other),
    }
}

fn dlr(operator: &str, description: &str) -> DlrResponse {
    DlrResponse {
        status: s("OK"),
        code: s("1"),
        data_envio: Some(s("21/10/2019 11:08:58")),
        operator: Some(s(operator)),
        description: s(description),
    }
}

#[test]
fn dlr_single_object_becomes_list() {
    let statuses = dlr_outcome(None, Some(dlr("OI", "RECEBIDA")), s("{}")).unwrap();
    assert_eq!(statuses.len(), 1);
    assert!(statuses[0].is_delivered());
}

#[test]
fn dlr_array_is_taken_first() {
    let statuses = dlr_outcome(Some(vec![dlr("VIVO", "ENVIADA")]), Some(dlr("OI", "RECEBIDA")), s("[]")).unwrap();
    assert_eq!(statuses.len(), 1);
    assert!(!statuses[0].is_delivered());
    assert_eq!(statuses[0].operator.as_deref(), Some("VIVO"));
}

#[test]
fn dlr_unreadable_body_is_unexpected() {
    match dlr_outcome(None, None, s("garbage")) {
        Err(SmsDevError::UnexpectedResponse(m)) => assert_eq!(m, "garbage"),
        other => panic!("unexpected {:?}", other),
    }
}

#[test]
fn api_error_variant_holds_code_and_description() {
    let e = SmsDevError::Api { code: s("400"), description: s("CHAVE INVALIDA") };
    match e {
        SmsDevError::Api { code, description } => {
            assert_eq!(code, "400");
            assert_eq!(description, "CHAVE INVALIDA");
        },
        _ => unreachable!(),
    }
}

#[test]
fn single_message_body_is_one_object_array() {
    let call = client("http://mock").send_sms_call(vec![SendSmsRequest::new("TEST_KEY", 5511988887777_u64, "Hi!")]);
    match &call.payload {
        Payload::Array(v) => {
            assert_eq!(v.len(), 1);
            assert_eq!(text(&v[0], "msg").as_deref(), Some("Hi!"));
        },
        Payload::Object(_) => panic!("expected an array body"),
    }
}

#[test]
fn endpoints_hang_under_base_url() {
    let c = client("http://host/v9");
    for path in ["send", "cancel", "inbox", "dlr", "balance", "report/total"] {
        let u = c.endpoint(path);
        assert!(u.starts_with("http://host/v9/"));
        assert!(u.ends_with(path));
    }
}

#[test]
fn client_key_goes_into_every_body() {
    let c = client("http://mock");
    let call = c.send_sms_call(vec![SendSmsRequest::new("OTHER", 1, "m"), SendSmsRequest::new("TEST_KEY", 2, "n")]);
    match &call.payload {
        Payload::Array(v) => {
            for o in v {
                assert_eq!(text(o, "key").as_deref(), Some("TEST_KEY"));
            }
        },
        Payload::Object(_) => panic!("expected an array body"),
    }
    let call = c.report_call(ReportRequest::new("OTHER"));
    assert_eq!(text(object(&call), "key").as_deref(), Some("TEST_KEY"));
    let call = c.inbox_call(InboxRequest::new("OTHER").all());
    assert_eq!(text(object(&call), "key").as_deref(), Some("TEST_KEY"));
}

#[test]
fn refused_status_is_api_error() {
    assert!(api_status(&s("OK"), &s("1"), &s("fine")).is_ok());
    match api_status(&s("Error"), &s("400"), &s("CHAVE INVALIDA")) {
        Err(SmsDevError::Api { code, description }) => {
            assert_eq!(code, "400");
            assert_eq!(description, "CHAVE INVALIDA");
        },
        other => panic!("unexpected {:?}", other),
    }
}

#[test]
fn balance_refused_is_api_error() {
    let ok = BalanceResponse { status: s("OK"), sms_balance: s("1200"), description: s("SALDO ATUAL") };
    assert_eq!(balance_outcome(ok).unwrap().sms_balance, "1200");
    let bad = BalanceResponse { status: s("ERROR"), sms_balance: s(""), description: s("CHAVE INVALIDA") };
    match balance_outcome(bad) {
        Err(SmsDevError::Api { code, description }) => {
            assert_eq!(code, "");
            assert_eq!(description, "CHAVE INVALIDA");
        },
        other => panic!("unexpected {:?}", other),
    }
}

#[test]
fn send_one_keeps_refused_entry() {
    let bad = SendSmsResponse { status: s("ERROR"), code: s("5"), id: s("9"), description: s("NUMERO INVALIDO") };
    let r = send_one_outcome(vec![bad]).unwrap();
    assert!(!r.is_ok());
    assert_eq!(r.code, "5");
}
