use smsdev::cli::run::{
    all_cancelled_ok, all_sent_ok, credits, inbox_request, report_period, report_request,
    send_requests, status_icon, status_label,
};
use smsdev::cli::tools::{
    parse_id_args, parse_inbox_args, parse_key_args, parse_report_args, parse_send_args,
    CliOutcome, SendArgs,
};
use smsdev::models::{BalanceResponse, CancelResponse, InboxStatus, SendSmsResponse};

fn args(v: &[&str]) -> Vec<String> {
    v.iter().map(|x| x.to_string()).collect()
}

fn failure<A: std::fmt::Debug>(o: CliOutcome<A>) -> String {
    match o {
        CliOutcome::Fail(m) => m,
        other => panic!("expected a failure, got {:?}", other),
    }
}

fn run<A: std::fmt::Debug>(o: CliOutcome<A>) -> A {
    match o {
        CliOutcome::Run(a) => a,
        other => panic!("expected arguments, got {:?}", other),
    }
}

#[test]
fn send_args_single_message() {
    let a = run(parse_send_args(&args(&["--key", "K", "--number", "5511988887777", "--msg", "Hello!"])));
    assert_eq!(a.key, "K");
    assert_eq!(a.numbers, vec![5511988887777]);
    assert_eq!(a.messages, vec!["Hello!".to_string()]);
    assert!(a.refer.is_none() && a.date.is_none() && a.time.is_none());
}

#[test]
fn send_args_options_and_pairs() {
    let a = run(parse_send_args(&args(&[
        "--key", "K", "--number", "5511988887777", "--msg", "Hi Alice!", "--number", "5521977776666",
        "--msg", "Hi Bob!", "--date", "25/12/2025", "--time", "09:00", "--refer", "order-42",
    ])));
    assert_eq!(a.numbers, vec![5511988887777, 5521977776666]);
    assert_eq!(a.messages, vec!["Hi Alice!".to_string(), "Hi Bob!".to_string()]);
    assert_eq!(a.date.as_deref(), Some("25/12/2025"));
    assert_eq!(a.time.as_deref(), Some("09:00"));
    assert_eq!(a.refer.as_deref(), Some("order-42"));
}

#[test]
fn send_args_last_key_stands() {
    let a = run(parse_send_args(&args(&["--key", "A", "--number", "1", "--msg", "m", "--key", "B"])));
    assert_eq!(a.key, "B");
}

#[test]
fn send_args_errors() {
    assert_eq!(failure(parse_send_args(&args(&["--number", "1", "--msg", "m"]))), "--key is required");
    assert_eq!(failure(parse_send_args(&args(&["--key", "K", "--msg", "m"]))), "At least one --number is required");
    assert_eq!(failure(parse_send_args(&args(&["--key", "K", "--number", "1"]))), "At least one --msg is required");
    assert_eq!(
        failure(parse_send_args(&args(&["--key", "K", "--number", "1", "--number", "2", "--msg", "m"]))),
        "Mismatch: 2 --number(s) but 1 --msg(s)"
    );
    assert_eq!(failure(parse_send_args(&args(&["--key"]))), "--key requires a value");
    assert_eq!(failure(parse_send_args(&args(&["--key", "K", "--number"]))), "--number requires a value");
    assert_eq!(
        failure(parse_send_args(&args(&["--key", "K", "--number", "55-11"]))),
        "--number must be a numeric phone number"
    );
    assert_eq!(failure(parse_send_args(&args(&["--key", "K", "--verbose"]))), "Unknown argument: --verbose");
    assert_eq!(failure(parse_send_args(&args(&["--msg"]))), "--msg requires a value");
}

#[test]
fn help_stops_reading() {
    assert!(matches!(parse_send_args(&args(&["--help", "--bogus"])), CliOutcome::Help));
    assert!(matches!(parse_send_args(&args(&["--key", "K", "-h"])), CliOutcome::Help));
    assert!(matches!(parse_key_args(&args(&["-h"])), CliOutcome::Help));
    assert!(matches!(parse_id_args(&args(&["--help"])), CliOutcome::Help));
    assert!(matches!(parse_inbox_args(&args(&["--help"])), CliOutcome::Help));
    assert!(matches!(parse_report_args(&args(&["--help"])), CliOutcome::Help));
    assert_eq!(failure(parse_send_args(&args(&["--bogus", "--help"]))), "Unknown argument: --bogus");
}

#[test]
fn key_args() {
    assert_eq!(run(parse_key_args(&args(&["--key", "YOUR_KEY"]))).key, "YOUR_KEY");
    assert_eq!(failure(parse_key_args(&args(&[]))), "--key is required");
    assert_eq!(failure(parse_key_args(&args(&["--id", "1"]))), "Unknown argument: --id");
}

#[test]
fn id_args() {
    let a = run(parse_id_args(&args(&["--key", "K", "--id", "637849052", "--id", "637849053"])));
    assert_eq!(a.key, "K");
    assert_eq!(a.ids, vec![637849052, 637849053]);
    assert_eq!(failure(parse_id_args(&args(&["--key", "K"]))), "At least one --id is required");
    assert_eq!(failure(parse_id_args(&args(&["--id", "1"]))), "--key is required");
    assert_eq!(failure(parse_id_args(&args(&["--key", "K", "--id", "x"]))), "--id must be a numeric message ID");
    assert_eq!(failure(parse_id_args(&args(&["--key", "K", "--id"]))), "--id requires a value");
}

#[test]
fn inbox_args() {
    let a = run(parse_inbox_args(&args(&["--key", "K", "--all", "--from", "01/01/2025", "--to", "31/01/2025", "--id", "5"])));
    assert!(a.all);
    assert_eq!(a.date_from.as_deref(), Some("01/01/2025"));
    assert_eq!(a.date_to.as_deref(), Some("31/01/2025"));
    assert_eq!(a.ids, vec![5]);
    let a = run(parse_inbox_args(&args(&["--key", "K"])));
    assert!(!a.all && a.ids.is_empty());
    assert_eq!(failure(parse_inbox_args(&args(&["--key", "K", "--id", "x"]))), "--id must be numeric");
    assert_eq!(failure(parse_inbox_args(&args(&["--key", "K", "--from"]))), "--from requires a value");
    assert_eq!(failure(parse_inbox_args(&args(&["--all"]))), "--key is required");

    let req = inbox_request(run(parse_inbox_args(&args(&["--key", "K", "--all", "--id", "5"]))));
    assert_eq!(req.status, InboxStatus::All);
    assert_eq!(req.id, Some(vec![5]));
    let req = inbox_request(run(parse_inbox_args(&args(&["--key", "K"]))));
    assert_eq!(req.status, InboxStatus::NewOnly);
    assert_eq!(req.id, None);
    assert_eq!(req.key, "K");
}

#[test]
fn report_args() {
    let a = run(parse_report_args(&args(&["--key", "K", "--from", "01/01/2025", "--to", "31/01/2025"])));
    assert_eq!(a.key, "K");
    assert_eq!(failure(parse_report_args(&args(&["--key", "K", "--to"]))), "--to requires a value (DD/MM/YYYY)");
    let req = report_request(a);
    assert_eq!(req.date_from.as_deref(), Some("01/01/2025"));
    assert_eq!(req.date_to.as_deref(), Some("31/01/2025"));
}

#[test]
fn report_periods() {
    let d = |x: &str| Some(x.to_string());
    assert_eq!(report_period(&d("01/01/2020"), &d("30/01/2020")), "01/01/2020 → 30/01/2020");
    assert_eq!(report_period(&d("01/01/2020"), &None), "from 01/01/2020");
    assert_eq!(report_period(&None, &d("30/01/2020")), "up to 30/01/2020");
    assert_eq!(report_period(&None, &None), "all time");
}

#[test]
fn send_requests_pair_numbers_and_messages() {
    let a = SendArgs {
        key: "K".to_string(),
        numbers: vec![1, 2],
        messages: vec!["a".to_string(), "b".to_string()],
        refer: Some("r".to_string()),
        date: None,
        time: Some("09:00".to_string()),
    };
    let reqs = send_requests(&a);
    assert_eq!(reqs.len(), 2);
    assert_eq!(reqs[1].number, 2);
    assert_eq!(reqs[1].msg, "b");
    assert_eq!(reqs[0].refer.as_deref(), Some("r"));
    assert_eq!(reqs[0].jobdate, None);
    assert_eq!(reqs[0].jobtime.as_deref(), Some("09:00"));
    let short = SendArgs { messages: vec!["only".to_string()], ..a };
    assert_eq!(send_requests(&short).len(), 1);
}

#[test]
fn result_summaries() {
    let ok = SendSmsResponse { status: "OK".into(), code: "1".into(), id: "1".into(), description: "".into() };
    let bad = SendSmsResponse { status: "ERROR".into(), ..ok.clone() };
    assert!(all_sent_ok(&vec![ok.clone(), ok.clone()]));
    assert!(!all_sent_ok(&vec![ok, bad]));
    assert!(all_sent_ok(&vec![]));
    let c = CancelResponse { status: "ok".into(), code: "1".into(), id: "9".into(), description: "".into() };
    assert!(all_cancelled_ok(&vec![c.clone()]));
    assert!(!all_cancelled_ok(&vec![CancelResponse { status: "ERROR".into(), ..c }]));
}

#[test]
fn credits_default_to_zero() {
    let b = |t: &str| BalanceResponse { status: "OK".into(), sms_balance: t.into(), description: "".into() };
    assert_eq!(credits(&b("1200")), 1200);
    assert_eq!(credits(&b("n/a")), 0);
}

#[test]
fn status_icons() {
    assert_eq!(status_icon("RECEBIDA"), "✓ DELIVERED");
    assert_eq!(status_icon("recebida"), "✓ DELIVERED");
    assert_eq!(status_icon("Enviada"), "→ SENT");
    assert_eq!(status_icon("FILA"), "⏳ QUEUED");
    assert_eq!(status_icon("cancelada"), "✗ CANCELLED");
    assert_eq!(status_icon("BLACK LIST"), "⛔ BLACKLIST");
    assert_eq!(status_icon("APROVACAO"), "⏳ APPROVAL");
    assert_eq!(status_icon("error"), "✗ ERROR");
    assert_eq!(status_icon("???"), "? UNKNOWN");
    assert_eq!(status_label("MENSAGEM RECEBIDA E ENVIADA"), "✓ DELIVERED");
    assert_eq!(status_label("recebida"), "? UNKNOWN");
}
