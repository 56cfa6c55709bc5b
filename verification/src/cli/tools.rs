//! The arguments of each command-line tool.
//!
//! Every tool takes `--help` and `-h`, which ask for its usage text.

use crate::cli::scan::{
    find_flag, law_help_stops_scan, lemma_all_numbers_given, lemma_last_text_given, lemma_scan_append,
    lemma_switch_given, TokenView, all_numbers, all_numbers_of, all_texts, all_texts_of, flag, last_text, last_text_of,
    scan, scan_spec, switched, switched_in, texts_view, FlagKind, FlagSpec,
    FlagView, Scan, ScanView, table_view,
};
use crate::text::{decimal, decimal_spec, opt_view, parse_u64_spec};
use vstd::prelude::*;

verus! {

/// What reading a tool's arguments decides.
#[derive(Debug, Clone)]
pub enum CliOutcome<A> {
    /// Run the tool with these arguments.
    Run(A),
    /// Print the usage text and stop successfully.
    Help,
    /// Print this error and stop with a failure.
    Fail(String),
}

/// What reading a tool's arguments decides, as plain values.
pub enum CliOutcomeView<V> {
    Run(V),
    Help,
    Fail(Seq<char>),
}

impl<A: View> View for CliOutcome<A> {
    type V = CliOutcomeView<A::V>;

    open spec fn view(&self) -> CliOutcomeView<A::V> {
        match self {
            CliOutcome::Run(a) => CliOutcomeView::Run(a@),
            CliOutcome::Help => CliOutcomeView::Help,
            CliOutcome::Fail(m) => CliOutcomeView::Fail(m@),
        }
    }
}

/// The message for a required flag that was not given.
pub open spec fn key_required() -> Seq<char> {
    "--key is required"@
}

fn fail<A>(msg: &str) -> (r: CliOutcome<A>)
    ensures
        r matches CliOutcome::Fail(m) && m@ == msg@,
{
    CliOutcome::Fail(String::from_str(msg))
}

// ------------------------------------------------------------------
// send_sms
// ------------------------------------------------------------------

/// The arguments of `send_sms`: one message per `--number`/`--msg` pair,
/// with an optional reference and schedule applied to every message.
#[derive(Debug, Clone)]
pub struct SendArgs {
    pub key: String,
    pub numbers: Vec<u64>,
    pub messages: Vec<String>,
    pub refer: Option<String>,
    pub date: Option<String>,
    pub time: Option<String>,
}

/// The arguments of `send_sms`, as plain values.
pub struct SendArgsView {
    pub key: Seq<char>,
    pub numbers: Seq<u64>,
    pub messages: Seq<Seq<char>>,
    pub refer: Option<Seq<char>>,
    pub date: Option<Seq<char>>,
    pub time: Option<Seq<char>>,
}

impl View for SendArgs {
    type V = SendArgsView;

    open spec fn view(&self) -> SendArgsView {
        SendArgsView {
            key: self.key@,
            numbers: self.numbers@,
            messages: texts_view(self.messages@),
            refer: opt_view(self.refer),
            date: opt_view(self.date),
            time: opt_view(self.time),
        }
    }
}

/// The flags of `send_sms`.
pub open spec fn send_table() -> Seq<FlagView> {
    seq![
        ("--key"@, FlagKind::Text, "--key requires a value"@, ""@),
        ("--number"@, FlagKind::Number, "--number requires a value"@,
            "--number must be a numeric phone number"@),
        ("--msg"@, FlagKind::Text, "--msg requires a value"@, ""@),
        ("--refer"@, FlagKind::Text, "--refer requires a value"@, ""@),
        ("--date"@, FlagKind::Text, "--date requires a value"@, ""@),
        ("--time"@, FlagKind::Text, "--time requires a value"@, ""@),
        ("--help"@, FlagKind::Help, ""@, ""@),
        ("-h"@, FlagKind::Help, ""@, ""@),
    ]
}

/// The message for numbers and messages that do not pair up.
pub open spec fn mismatch_message(numbers: nat, messages: nat) -> Seq<char> {
    "Mismatch: "@ + decimal_spec(numbers) + " --number(s) but "@ + decimal_spec(messages)
        + " --msg(s)"@
}

/// What `send_sms` makes of its arguments.
pub open spec fn send_args_spec(raw: Seq<Seq<char>>) -> CliOutcomeView<SendArgsView> {
    match scan_spec(send_table(), raw, 0) {
        ScanView::Help => CliOutcomeView::Help,
        ScanView::Fail(m) => CliOutcomeView::Fail(m),
        ScanView::Tokens(ts) => {
            let key = last_text(ts, 0);
            let numbers = all_numbers(ts, 1);
            let messages = all_texts(ts, 2);
            if key is None {
                CliOutcomeView::Fail(key_required())
            } else if numbers.len() == 0 {
                CliOutcomeView::Fail("At least one --number is required"@)
            } else if messages.len() == 0 {
                CliOutcomeView::Fail("At least one --msg is required"@)
            } else if numbers.len() != messages.len() {
                CliOutcomeView::Fail(mismatch_message(numbers.len(), messages.len()))
            } else {
                CliOutcomeView::Run(
                    SendArgsView {
                        key: key->0,
                        numbers,
                        messages,
                        refer: last_text(ts, 3),
                        date: last_text(ts, 4),
                        time: last_text(ts, 5),
                    },
                )
            }
        },
    }
}

fn send_flags() -> (r: Vec<FlagSpec>)
    ensures
        table_view(r@) == send_table(),
{
    let mut t: Vec<FlagSpec> = Vec::new();
    t.push(flag("--key", FlagKind::Text, "--key requires a value", ""));
    t.push(
        flag(
            "--number",
            FlagKind::Number,
            "--number requires a value",
            "--number must be a numeric phone number",
        ),
    );
    t.push(flag("--msg", FlagKind::Text, "--msg requires a value", ""));
    t.push(flag("--refer", FlagKind::Text, "--refer requires a value", ""));
    t.push(flag("--date", FlagKind::Text, "--date requires a value", ""));
    t.push(flag("--time", FlagKind::Text, "--time requires a value", ""));
    t.push(flag("--help", FlagKind::Help, "", ""));
    t.push(flag("-h", FlagKind::Help, "", ""));
    assert(table_view(t@) =~= send_table());
    t
}

fn mismatch(numbers: usize, messages: usize) -> (r: String)
    ensures
        r@ == mismatch_message(numbers as nat, messages as nat),
{
    let mut m = String::from_str("Mismatch: ");
    let a = decimal(numbers as u64);
    m.append(a.as_str());
    m.append(" --number(s) but ");
    let b = decimal(messages as u64);
    m.append(b.as_str());
    m.append(" --msg(s)");
    m
}

/// Reads the arguments of `send_sms` (without the program name).
pub fn parse_send_args(raw: &Vec<String>) -> (r: CliOutcome<SendArgs>)
    ensures
        r@ == send_args_spec(texts_view(raw@)),
{
    let table = send_flags();
    match scan(&table, raw) {
        Scan::Help => CliOutcome::Help,
        Scan::Fail(m) => CliOutcome::Fail(m),
        Scan::Tokens(tokens) => {
            let key = last_text_of(&tokens, 0);
            let numbers = all_numbers_of(&tokens, 1);
            let messages = all_texts_of(&tokens, 2);
            match key {
                None => fail("--key is required"),
                Some(key) => {
                    if numbers.len() == 0 {
                        fail("At least one --number is required")
                    } else if messages.len() == 0 {
                        fail("At least one --msg is required")
                    } else if numbers.len() != messages.len() {
                        CliOutcome::Fail(mismatch(numbers.len(), messages.len()))
                    } else {
                        let refer = last_text_of(&tokens, 3);
                        let date = last_text_of(&tokens, 4);
                        let time = last_text_of(&tokens, 5);
                        CliOutcome::Run(SendArgs { key, numbers, messages, refer, date, time })
                    }
                },
            }
        },
    }
}

/// When `send_sms` runs, it has as many numbers as messages, and at least one.
pub proof fn law_send_args_pair_up(raw: Seq<Seq<char>>)
    ensures
        send_args_spec(raw) matches CliOutcomeView::Run(a) ==> a.numbers.len() == a.messages.len()
            && a.numbers.len() > 0,
{
}

/// `send_sms --help` asks for the usage text, whatever follows it.
pub proof fn law_send_help_first(rest: Seq<Seq<char>>)
    ensures
        send_args_spec(seq!["--help"@] + rest) == CliOutcomeView::<SendArgsView>::Help,
{
    reveal_strlit("--help");
    reveal_strlit("--key");
    reveal_strlit("--number");
    reveal_strlit("--msg");
    reveal_strlit("--refer");
    reveal_strlit("--date");
    reveal_strlit("--time");
    let t = send_table();
    let a = "--help"@;
    assert(t[0].0.len() != a.len());
    assert(t[1].0.len() != a.len());
    assert(t[2].0.len() != a.len());
    assert(t[3].0.len() != a.len());
    assert(t[4].0[2] != a[2]);
    assert(t[5].0[2] != a[2]);
    assert(t[6].0 == a);
    assert(find_flag(t, a, 6) == Some(6nat));
    assert(find_flag(t, a, 5) == Some(6nat));
    assert(find_flag(t, a, 4) == Some(6nat));
    assert(find_flag(t, a, 3) == Some(6nat));
    assert(find_flag(t, a, 2) == Some(6nat));
    assert(find_flag(t, a, 1) == Some(6nat));
    assert(find_flag(t, a, 0) == Some(6nat));
    law_help_stops_scan(t, a, rest);
}

/// When the numbers and messages of `send_sms` differ in count, it stops with
/// the message that gives both counts.
pub proof fn law_send_args_mismatch(raw: Seq<Seq<char>>)
    requires
        scan_spec(send_table(), raw, 0) matches ScanView::Tokens(ts) && last_text(ts, 0) is Some
            && all_numbers(ts, 1).len() > 0 && all_texts(ts, 2).len() > 0 && all_numbers(
            ts,
            1,
        ).len() != all_texts(ts, 2).len(),
    ensures
        send_args_spec(raw) == CliOutcomeView::<SendArgsView>::Fail(
            mismatch_message(
                all_numbers(scan_spec(send_table(), raw, 0)->Tokens_0, 1).len(),
                all_texts(scan_spec(send_table(), raw, 0)->Tokens_0, 2).len(),
            ),
        ),
{
}

// ------------------------------------------------------------------
// cancel_sms and dlr
// ------------------------------------------------------------------

/// The arguments of `cancel_sms` and `dlr`: the key and the message IDs.
#[derive(Debug, Clone)]
pub struct IdArgs {
    pub key: String,
    pub ids: Vec<u64>,
}

impl View for IdArgs {
    type V = (Seq<char>, Seq<u64>);

    open spec fn view(&self) -> (Seq<char>, Seq<u64>) {
        (self.key@, self.ids@)
    }
}

/// The flags of `cancel_sms` and `dlr`.
pub open spec fn id_table() -> Seq<FlagView> {
    seq![
        ("--key"@, FlagKind::Text, "--key requires a value"@, ""@),
        ("--id"@, FlagKind::Number, "--id requires a value"@, "--id must be a numeric message ID"@),
        ("--help"@, FlagKind::Help, ""@, ""@),
        ("-h"@, FlagKind::Help, ""@, ""@),
    ]
}

/// What `cancel_sms` and `dlr` make of their arguments.
pub open spec fn id_args_spec(raw: Seq<Seq<char>>) -> CliOutcomeView<(Seq<char>, Seq<u64>)> {
    match scan_spec(id_table(), raw, 0) {
        ScanView::Help => CliOutcomeView::Help,
        ScanView::Fail(m) => CliOutcomeView::Fail(m),
        ScanView::Tokens(ts) => {
            let key = last_text(ts, 0);
            let ids = all_numbers(ts, 1);
            if key is None {
                CliOutcomeView::Fail(key_required())
            } else if ids.len() == 0 {
                CliOutcomeView::Fail("At least one --id is required"@)
            } else {
                CliOutcomeView::Run((key->0, ids))
            }
        },
    }
}

fn id_flags() -> (r: Vec<FlagSpec>)
    ensures
        table_view(r@) == id_table(),
{
    let mut t: Vec<FlagSpec> = Vec::new();
    t.push(flag("--key", FlagKind::Text, "--key requires a value", ""));
    t.push(
        flag("--id", FlagKind::Number, "--id requires a value", "--id must be a numeric message ID"),
    );
    t.push(flag("--help", FlagKind::Help, "", ""));
    t.push(flag("-h", FlagKind::Help, "", ""));
    assert(table_view(t@) =~= id_table());
    t
}

/// Reads the arguments of `cancel_sms` or `dlr` (without the program name).
pub fn parse_id_args(raw: &Vec<String>) -> (r: CliOutcome<IdArgs>)
    ensures
        r@ == id_args_spec(texts_view(raw@)),
{
    let table = id_flags();
    match scan(&table, raw) {
        Scan::Help => CliOutcome::Help,
        Scan::Fail(m) => CliOutcome::Fail(m),
        Scan::Tokens(tokens) => {
            let key = last_text_of(&tokens, 0);
            let ids = all_numbers_of(&tokens, 1);
            match key {
                None => fail("--key is required"),
                Some(key) => {
                    if ids.len() == 0 {
                        fail("At least one --id is required")
                    } else {
                        CliOutcome::Run(IdArgs { key, ids })
                    }
                },
            }
        },
    }
}

// ------------------------------------------------------------------
// balance
// ------------------------------------------------------------------

/// The arguments of `balance`: the key alone.
#[derive(Debug, Clone)]
pub struct KeyArgs {
    pub key: String,
}

impl View for KeyArgs {
    type V = Seq<char>;

    open spec fn view(&self) -> Seq<char> {
        self.key@
    }
}

/// The flags of `balance`.
pub open spec fn key_table() -> Seq<FlagView> {
    seq![
        ("--key"@, FlagKind::Text, "--key requires a value"@, ""@),
        ("--help"@, FlagKind::Help, ""@, ""@),
        ("-h"@, FlagKind::Help, ""@, ""@),
    ]
}

/// What `balance` makes of its arguments.
pub open spec fn key_args_spec(raw: Seq<Seq<char>>) -> CliOutcomeView<Seq<char>> {
    match scan_spec(key_table(), raw, 0) {
        ScanView::Help => CliOutcomeView::Help,
        ScanView::Fail(m) => CliOutcomeView::Fail(m),
        ScanView::Tokens(ts) => match last_text(ts, 0) {
            None => CliOutcomeView::Fail(key_required()),
            Some(key) => CliOutcomeView::Run(key),
        },
    }
}

fn key_flags() -> (r: Vec<FlagSpec>)
    ensures
        table_view(r@) == key_table(),
{
    let mut t: Vec<FlagSpec> = Vec::new();
    t.push(flag("--key", FlagKind::Text, "--key requires a value", ""));
    t.push(flag("--help", FlagKind::Help, "", ""));
    t.push(flag("-h", FlagKind::Help, "", ""));
    assert(table_view(t@) =~= key_table());
    t
}

/// Reads the arguments of `balance` (without the program name).
pub fn parse_key_args(raw: &Vec<String>) -> (r: CliOutcome<KeyArgs>)
    ensures
        r@ == key_args_spec(texts_view(raw@)),
{
    let table = key_flags();
    match scan(&table, raw) {
        Scan::Help => CliOutcome::Help,
        Scan::Fail(m) => CliOutcome::Fail(m),
        Scan::Tokens(tokens) => match last_text_of(&tokens, 0) {
            None => fail("--key is required"),
            Some(key) => CliOutcome::Run(KeyArgs { key }),
        },
    }
}

// ------------------------------------------------------------------
// inbox
// ------------------------------------------------------------------

/// The arguments of `inbox`.
#[derive(Debug, Clone)]
pub struct InboxArgs {
    pub key: String,
    pub all: bool,
    pub date_from: Option<String>,
    pub date_to: Option<String>,
    pub ids: Vec<u64>,
}

/// The arguments of `inbox`, as plain values.
pub struct InboxArgsView {
    pub key: Seq<char>,
    pub all: bool,
    pub date_from: Option<Seq<char>>,
    pub date_to: Option<Seq<char>>,
    pub ids: Seq<u64>,
}

impl View for InboxArgs {
    type V = InboxArgsView;

    open spec fn view(&self) -> InboxArgsView {
        InboxArgsView {
            key: self.key@,
            all: self.all,
            date_from: opt_view(self.date_from),
            date_to: opt_view(self.date_to),
            ids: self.ids@,
        }
    }
}

/// The flags of `inbox`.
pub open spec fn inbox_table() -> Seq<FlagView> {
    seq![
        ("--key"@, FlagKind::Text, "--key requires a value"@, ""@),
        ("--all"@, FlagKind::Switch, ""@, ""@),
        ("--from"@, FlagKind::Text, "--from requires a value"@, ""@),
        ("--to"@, FlagKind::Text, "--to requires a value"@, ""@),
        ("--id"@, FlagKind::Number, "--id requires a value"@, "--id must be numeric"@),
        ("--help"@, FlagKind::Help, ""@, ""@),
        ("-h"@, FlagKind::Help, ""@, ""@),
    ]
}

/// What `inbox` makes of its arguments.
pub open spec fn inbox_args_spec(raw: Seq<Seq<char>>) -> CliOutcomeView<InboxArgsView> {
    match scan_spec(inbox_table(), raw, 0) {
        ScanView::Help => CliOutcomeView::Help,
        ScanView::Fail(m) => CliOutcomeView::Fail(m),
        ScanView::Tokens(ts) => match last_text(ts, 0) {
            None => CliOutcomeView::Fail(key_required()),
            Some(key) => CliOutcomeView::Run(
                InboxArgsView {
                    key,
                    all: switched(ts, 1),
                    date_from: last_text(ts, 2),
                    date_to: last_text(ts, 3),
                    ids: all_numbers(ts, 4),
                },
            ),
        },
    }
}

/// `inbox` asks for all messages only when `--all` was given: without that
/// argument, whatever the dates and IDs, it asks for new messages only.
pub proof fn law_inbox_all_needs_flag(raw: Seq<Seq<char>>)
    ensures
        inbox_args_spec(raw) matches CliOutcomeView::Run(a) && a.all ==> raw.contains("--all"@),
{
    if inbox_args_spec(raw) matches CliOutcomeView::Run(a) && a.all {
        let ts = scan_spec(inbox_table(), raw, 0)->Tokens_0;
        lemma_switch_given(inbox_table(), raw, 0, 1);
        let j = choose|j: int| 0 <= j < raw.len() && raw[j] == inbox_table()[1].0;
        assert(raw[j] == "--all"@);
    }
}

/// Adding `--all` to arguments that `inbox` runs with makes it ask for all
/// messages, and changes nothing else: key, dates and IDs stay as they were.
pub proof fn law_inbox_all_flag_added(raw: Seq<Seq<char>>)
    ensures
        inbox_args_spec(raw) matches CliOutcomeView::Run(a) ==> inbox_args_spec(
            raw.push("--all"@),
        ) matches CliOutcomeView::Run(b) && b.all && b.key == a.key && b.date_from
            == a.date_from && b.date_to == a.date_to && b.ids == a.ids,
{
    if inbox_args_spec(raw) matches CliOutcomeView::Run(a) {
        let t = inbox_table();
        let x = "--all"@;
        let r2 = raw + seq![x];
        assert(raw.push(x) =~= r2);
        reveal_strlit("--all");
        reveal_strlit("--key");
        assert(t[0].0[2] != x[2]);
        assert(find_flag(t, x, 1) == Some(1nat));
        assert(find_flag(t, x, 0) == Some(1nat));
        lemma_scan_append(t, raw, seq![x], 0);
        assert(r2[raw.len() as int] == x);
        assert(scan_spec(t, r2, raw.len() + 1) == ScanView::Tokens(Seq::<TokenView>::empty()));
        assert(seq![TokenView::Switch(1)] + Seq::<TokenView>::empty() =~= seq![
            TokenView::Switch(1),
        ]);
        let ts = scan_spec(t, raw, 0)->Tokens_0;
        let ts2 = ts + seq![TokenView::Switch(1)];
        assert(scan_spec(t, r2, 0) == ScanView::Tokens(ts2));
        assert(ts2.drop_last() =~= ts);
        assert(ts2.last() == TokenView::Switch(1));
    }
}

/// Every value that `inbox` runs with was given on the command line: the key
/// follows a `--key`, each date follows its `--from` or `--to`, and each ID is
/// the number that follows an `--id`.
pub proof fn law_inbox_values_given(raw: Seq<Seq<char>>)
    ensures
        inbox_args_spec(raw) matches CliOutcomeView::Run(a) ==>
            (exists|j: int| 0 <= j && j + 1 < raw.len() && #[trigger] raw[j] == "--key"@ && raw[j + 1] == a.key)
            && (a.date_from is Some ==> exists|j: int|
                0 <= j && j + 1 < raw.len() && #[trigger] raw[j] == "--from"@ && raw[j + 1] == a.date_from->0)
            && (a.date_to is Some ==> exists|j: int|
                0 <= j && j + 1 < raw.len() && #[trigger] raw[j] == "--to"@ && raw[j + 1] == a.date_to->0),
{
    if inbox_args_spec(raw) is Run {
        let a = inbox_args_spec(raw)->Run_0;
        let t = inbox_table();
        lemma_last_text_given(t, raw, 0);
        assert(t[0].0 == "--key"@);
        if a.date_from is Some {
            lemma_last_text_given(t, raw, 2);
            assert(t[2].0 == "--from"@);
        }
        if a.date_to is Some {
            lemma_last_text_given(t, raw, 3);
            assert(t[3].0 == "--to"@);
        }
    }
}

/// Each ID that `inbox` filters on is the number that follows some `--id`
/// among its arguments.
pub proof fn law_inbox_ids_given(raw: Seq<Seq<char>>, q: int)
    ensures
        inbox_args_spec(raw) is Run && 0 <= q < inbox_args_spec(raw)->Run_0.ids.len() ==> exists|j: int|
            0 <= j && j + 1 < raw.len() && #[trigger] raw[j] == "--id"@ && parse_u64_spec(raw[j + 1])
                == Some(inbox_args_spec(raw)->Run_0.ids[q]),
{
    if inbox_args_spec(raw) is Run {
        let a = inbox_args_spec(raw)->Run_0;
        let t = inbox_table();
        if 0 <= q < a.ids.len() {
            lemma_all_numbers_given(t, raw, 4, q);
            assert(t[4].0 == "--id"@);
        }
    }
}

fn inbox_flags() -> (r: Vec<FlagSpec>)
    ensures
        table_view(r@) == inbox_table(),
{
    let mut t: Vec<FlagSpec> = Vec::new();
    t.push(flag("--key", FlagKind::Text, "--key requires a value", ""));
    t.push(flag("--all", FlagKind::Switch, "", ""));
    t.push(flag("--from", FlagKind::Text, "--from requires a value", ""));
    t.push(flag("--to", FlagKind::Text, "--to requires a value", ""));
    t.push(flag("--id", FlagKind::Number, "--id requires a value", "--id must be numeric"));
    t.push(flag("--help", FlagKind::Help, "", ""));
    t.push(flag("-h", FlagKind::Help, "", ""));
    assert(table_view(t@) =~= inbox_table());
    t
}

/// Reads the arguments of `inbox` (without the program name).
pub fn parse_inbox_args(raw: &Vec<String>) -> (r: CliOutcome<InboxArgs>)
    ensures
        r@ == inbox_args_spec(texts_view(raw@)),
{
    let table = inbox_flags();
    match scan(&table, raw) {
        Scan::Help => CliOutcome::Help,
        Scan::Fail(m) => CliOutcome::Fail(m),
        Scan::Tokens(tokens) => match last_text_of(&tokens, 0) {
            None => fail("--key is required"),
            Some(key) => {
                let all = switched_in(&tokens, 1);
                let date_from = last_text_of(&tokens, 2);
                let date_to = last_text_of(&tokens, 3);
                let ids = all_numbers_of(&tokens, 4);
                CliOutcome::Run(InboxArgs { key, all, date_from, date_to, ids })
            },
        },
    }
}

// ------------------------------------------------------------------
// report
// ------------------------------------------------------------------

/// The arguments of `report`.
#[derive(Debug, Clone)]
pub struct ReportArgs {
    pub key: String,
    pub date_from: Option<String>,
    pub date_to: Option<String>,
}

impl View for ReportArgs {
    type V = (Seq<char>, Option<Seq<char>>, Option<Seq<char>>);

    open spec fn view(&self) -> (Seq<char>, Option<Seq<char>>, Option<Seq<char>>) {
        (self.key@, opt_view(self.date_from), opt_view(self.date_to))
    }
}

/// The flags of `report`.
pub open spec fn report_table() -> Seq<FlagView> {
    seq![
        ("--key"@, FlagKind::Text, "--key requires a value"@, ""@),
        ("--from"@, FlagKind::Text, "--from requires a value (DD/MM/YYYY)"@, ""@),
        ("--to"@, FlagKind::Text, "--to requires a value (DD/MM/YYYY)"@, ""@),
        ("--help"@, FlagKind::Help, ""@, ""@),
        ("-h"@, FlagKind::Help, ""@, ""@),
    ]
}

/// What `report` makes of its arguments.
pub open spec fn report_args_spec(raw: Seq<Seq<char>>) -> CliOutcomeView<
    (Seq<char>, Option<Seq<char>>, Option<Seq<char>>),
> {
    match scan_spec(report_table(), raw, 0) {
        ScanView::Help => CliOutcomeView::Help,
        ScanView::Fail(m) => CliOutcomeView::Fail(m),
        ScanView::Tokens(ts) => match last_text(ts, 0) {
            None => CliOutcomeView::Fail(key_required()),
            Some(key) => CliOutcomeView::Run((key, last_text(ts, 1), last_text(ts, 2))),
        },
    }
}

fn report_flags() -> (r: Vec<FlagSpec>)
    ensures
        table_view(r@) == report_table(),
{
    let mut t: Vec<FlagSpec> = Vec::new();
    t.push(flag("--key", FlagKind::Text, "--key requires a value", ""));
    t.push(flag("--from", FlagKind::Text, "--from requires a value (DD/MM/YYYY)", ""));
    t.push(flag("--to", FlagKind::Text, "--to requires a value (DD/MM/YYYY)", ""));
    t.push(flag("--help", FlagKind::Help, "", ""));
    t.push(flag("-h", FlagKind::Help, "", ""));
    assert(table_view(t@) =~= report_table());
    t
}

/// Reads the arguments of `report` (without the program name).
pub fn parse_report_args(raw: &Vec<String>) -> (r: CliOutcome<ReportArgs>)
    ensures
        r@ == report_args_spec(texts_view(raw@)),
{
    let table = report_flags();
    match scan(&table, raw) {
        Scan::Help => CliOutcome::Help,
        Scan::Fail(m) => CliOutcome::Fail(m),
        Scan::Tokens(tokens) => match last_text_of(&tokens, 0) {
            None => fail("--key is required"),
            Some(key) => {
                let date_from = last_text_of(&tokens, 1);
                let date_to = last_text_of(&tokens, 2);
                CliOutcome::Run(ReportArgs { key, date_from, date_to })
            },
        },
    }
}

} // verus!
