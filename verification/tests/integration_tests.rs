use smsdev::models::{
    BalanceResponse, CancelRequest, CancelResponse, DlrRequest, DlrResponse, InboxMessage,
    InboxRequest, InboxStatus, ReportRequest, ReportResponse, SendSmsRequest, SendSmsResponse,
};

fn s(x: &str) -> String {
    x.to_string()
}

#[test]
fn test_send_request_builder() {
    let req = SendSmsRequest::new("KEY", 5511999998888_u64, "Test")
        .refer("ref-01")
        .schedule_date("25/12/2025")
        .schedule_time("09:00");

    assert_eq!(req.refer.as_deref(), Some("ref-01"));
    assert_eq!(req.jobdate.as_deref(), Some("25/12/2025"));
    assert_eq!(req.jobtime.as_deref(), Some("09:00"));
    assert_eq!(req.service_type, 9);
}

#[test]
fn send_request_new_fields() {
    let req = SendSmsRequest::new("TEST_KEY", 5511988887777_u64, "Hello");
    assert_eq!(req.key, "TEST_KEY");
    assert_eq!(req.number, 5511988887777);
    assert_eq!(req.msg, "Hello");
    assert_eq!(req.service_type, 9);
    assert!(req.refer.is_none() && req.jobdate.is_none() && req.jobtime.is_none());
}

#[test]
fn send_request_builders_keep_other_fields() {
    let req = SendSmsRequest::new("K", 1, "m").schedule_time("10:00").refer("a").refer("b");
    assert_eq!(req.refer.as_deref(), Some("b"));
    assert_eq!(req.jobtime.as_deref(), Some("10:00"));
    assert_eq!(req.jobdate, None);
    assert_eq!(req.key, "K");
    assert_eq!(req.number, 1);
    assert_eq!(req.msg, "m");
}

fn send_response(status: &str, id: &str) -> SendSmsResponse {
    SendSmsResponse { status: s(status), code: s("1"), id: s(id), description: s("MENSAGEM NA FILA") }
}

#[test]
fn send_response_is_ok_ignores_ascii_case() {
    assert!(send_response("OK", "637849052").is_ok());
    assert!(send_response("ok", "1").is_ok());
    assert!(send_response("oK", "1").is_ok());
    assert!(!send_response("ERROR", "1").is_ok());
    assert!(!send_response("OK ", "1").is_ok());
    assert!(!send_response("", "1").is_ok());
}

#[test]
fn cancel_request_and_response() {
    let req = CancelRequest::new("TEST_KEY", vec![9999999]);
    assert_eq!(req.key, "TEST_KEY");
    assert_eq!(req.id, vec![9999999]);
    let r = CancelResponse {
        status: s("OK"),
        code: s("1"),
        id: s("9999999"),
        description: s("MENSAGEM CANCELADA COM SUCESSO"),
    };
    assert!(r.is_ok());
    assert_eq!(r.id, "9999999");
    let bad = CancelResponse { status: s("ERROR"), ..r.clone() };
    assert!(!bad.is_ok());
}

#[test]
fn inbox_request_builders() {
    let req = InboxRequest::new("TEST_KEY");
    assert_eq!(req.key, "TEST_KEY");
    assert_eq!(req.status, InboxStatus::NewOnly);
    assert!(req.date_from.is_none() && req.date_to.is_none() && req.id.is_none());

    let req = InboxRequest::new("K").all().date_from("01/01/2025").date_to("31/01/2025").filter_ids(vec![1, 2]);
    assert_eq!(req.status, InboxStatus::All);
    assert_eq!(req.date_from.as_deref(), Some("01/01/2025"));
    assert_eq!(req.date_to.as_deref(), Some("31/01/2025"));
    assert_eq!(req.id, Some(vec![1, 2]));
    assert_eq!(req.key, "K");
}

#[test]
fn inbox_defaults() {
    let req = InboxRequest::default();
    assert_eq!(req.key, "");
    assert_eq!(req.status, InboxStatus::NewOnly);
    assert_eq!(InboxStatus::default(), InboxStatus::NewOnly);
}

#[test]
fn inbox_status_numbers() {
    assert_eq!(u8::from(InboxStatus::NewOnly), 0);
    assert_eq!(u8::from(InboxStatus::All), 1);
}

#[test]
fn inbox_message_fields() {
    let m = InboxMessage {
        status: s("OK"),
        data_read: s("01/01/2020 11:35:14"),
        phone: s("5511988887777"),
        id: s(""),
        refer: s(""),
        msg_sent: s(""),
        id_sms_read: s("2515973"),
        description: s("Reply 1"),
    };
    assert_eq!(m.description, "Reply 1");
    assert_eq!(m.phone, "5511988887777");
}

fn dlr(description: &str) -> DlrResponse {
    DlrResponse {
        status: s("OK"),
        code: s("1"),
        data_envio: Some(s("21/10/2019 11:08:58")),
        operator: Some(s("OI")),
        description: s(description),
    }
}

#[test]
fn dlr_request_fields() {
    let req = DlrRequest::new("TEST_KEY", vec![123456789]);
    assert_eq!(req.key, "TEST_KEY");
    assert_eq!(req.id, vec![123456789]);
}

#[test]
fn dlr_delivered_only_for_recebida() {
    assert!(dlr("RECEBIDA").is_delivered());
    assert!(dlr("recebida").is_delivered());
    assert!(!dlr("ENVIADA").is_delivered());
    assert!(!dlr("RECEBIDA ").is_delivered());
    assert!(dlr("ENVIADA").is_ok());
}

fn balance(text: &str) -> BalanceResponse {
    BalanceResponse { status: s("OK"), sms_balance: s(text), description: s("SALDO ATUAL") }
}

#[test]
fn balance_parses_numbers() {
    assert!(balance("1200").is_ok());
    assert_eq!(balance("1200").balance_as_u64(), Some(1200));
    assert_eq!(balance("  42\n").balance_as_u64(), Some(42));
    assert_eq!(balance("\u{3000}7\u{a0}").balance_as_u64(), Some(7));
    assert_eq!(balance("+5").balance_as_u64(), Some(5));
    assert_eq!(balance("0").balance_as_u64(), Some(0));
    assert_eq!(balance("18446744073709551615").balance_as_u64(), Some(u64::MAX));
}

#[test]
fn balance_refuses_non_numbers() {
    assert_eq!(balance("").balance_as_u64(), None);
    assert_eq!(balance("   ").balance_as_u64(), None);
    assert_eq!(balance("+").balance_as_u64(), None);
    assert_eq!(balance("-1").balance_as_u64(), None);
    assert_eq!(balance("12a").balance_as_u64(), None);
    assert_eq!(balance("1 2").balance_as_u64(), None);
    assert_eq!(balance("18446744073709551616").balance_as_u64(), None);
    assert_eq!(balance("١٢").balance_as_u64(), None);
}

#[test]
fn balance_agrees_with_std_parse() {
    for text in ["1200", " 3 ", "+0", "007", "x", "", "99999999999999999999", "\t15\r\n", "+-1"] {
        let expected: Option<u64> = text.trim().parse().ok();
        assert_eq!(balance(text).balance_as_u64(), expected, "text {:?}", text);
    }
}

#[test]
fn report_request_builders() {
    let req = ReportRequest::new("TEST_KEY").date_from("01/01/2020").date_to("30/01/2020");
    assert_eq!(req.key, "TEST_KEY");
    assert_eq!(req.date_from.as_deref(), Some("01/01/2020"));
    assert_eq!(req.date_to.as_deref(), Some("30/01/2020"));
    let d = ReportRequest::default();
    assert_eq!(d.key, "");
    assert!(d.date_from.is_none() && d.date_to.is_none());
}

#[test]
fn report_response_is_ok() {
    let r = ReportResponse {
        status: s("OK"),
        code: s("1"),
        data_inicio: Some(s("01/01/2020")),
        data_fim: Some(s("30/01/2020")),
        sent: s("100"),
        received: s("10200"),
        blacklist: s("0"),
        cancelled: s("0"),
        credits_used: s("10300"),
        description: s("CONSULTA REALIZADA"),
    };
    assert!(r.is_ok());
    assert_eq!(r.sent, "100");
    assert_eq!(r.credits_used, "10300");
}
