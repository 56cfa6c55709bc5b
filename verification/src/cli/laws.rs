//! What giving one more flag does to each tool's arguments.
//!
//! Each law takes arguments that a tool runs with, appends a flag and its
//! value, and says what the tool then runs with: the appended value stands,
//! or joins its list, and nothing else changes.

use crate::cli::scan::{
    all_numbers, all_texts, last_text, find_flag, lemma_append_number_flag, lemma_append_text_flag, lemma_find_flag_at,
    lemma_push_token, scan_spec, FlagView, ScanView, TokenView,
};
use crate::cli::tools::{
    id_args_spec, id_table, inbox_args_spec, inbox_table, key_args_spec, key_table,
    report_args_spec, report_table, send_args_spec, send_table, CliOutcomeView,
};
use crate::text::decimal_spec;
use vstd::prelude::*;

verus! {

proof fn lemma_send_table_names()
    ensures
        find_flag(send_table(), "--key"@, 0) == Some(0nat),
        find_flag(send_table(), "--number"@, 0) == Some(1nat),
        find_flag(send_table(), "--msg"@, 0) == Some(2nat),
        find_flag(send_table(), "--refer"@, 0) == Some(3nat),
        find_flag(send_table(), "--date"@, 0) == Some(4nat),
        find_flag(send_table(), "--time"@, 0) == Some(5nat),
{
    let t = send_table();
    reveal_strlit("--key");
    reveal_strlit("--number");
    reveal_strlit("--msg");
    reveal_strlit("--refer");
    reveal_strlit("--date");
    reveal_strlit("--time");
    assert(t[0].0.len() == 5 && t[1].0.len() == 8 && t[2].0.len() == 5 && t[3].0.len() == 7
        && t[4].0.len() == 6 && t[5].0.len() == 6);
    assert(t[0].0[2] != t[2].0[2]);
    assert(t[4].0[2] != t[5].0[2]);
    lemma_find_flag_at(t, t[0].0, 0);
    lemma_find_flag_at(t, t[1].0, 1);
    assert forall|j: int| 0 <= j < 2 implies #[trigger] t[j].0 != t[2].0 by {}
    lemma_find_flag_at(t, t[2].0, 2);
    assert forall|j: int| 0 <= j < 3 implies #[trigger] t[j].0 != t[3].0 by {}
    lemma_find_flag_at(t, t[3].0, 3);
    assert forall|j: int| 0 <= j < 4 implies #[trigger] t[j].0 != t[4].0 by {}
    lemma_find_flag_at(t, t[4].0, 4);
    assert forall|j: int| 0 <= j < 5 implies #[trigger] t[j].0 != t[5].0 by {}
    lemma_find_flag_at(t, t[5].0, 5);
}

/// `send_sms`: a later `--key`, `--refer`, `--date` or `--time` replaces the
/// earlier value and changes nothing else.
pub proof fn law_send_later_option_stands(raw: Seq<Seq<char>>, v: Seq<char>)
    ensures
        send_args_spec(raw) matches CliOutcomeView::Run(a) ==> send_args_spec(raw + seq!["--key"@, v]) matches CliOutcomeView::Run(b) && b.key == v && b.numbers == a.numbers && b.messages == a.messages && b.refer == a.refer && b.date == a.date && b.time == a.time,
        send_args_spec(raw) matches CliOutcomeView::Run(a) ==> send_args_spec(raw + seq!["--refer"@, v]) matches CliOutcomeView::Run(b) && b.refer == Some(v) && b.key == a.key && b.numbers == a.numbers && b.messages == a.messages && b.date == a.date && b.time == a.time,
        send_args_spec(raw) matches CliOutcomeView::Run(a) ==> send_args_spec(raw + seq!["--date"@, v]) matches CliOutcomeView::Run(b) && b.date == Some(v) && b.key == a.key && b.numbers == a.numbers && b.messages == a.messages && b.refer == a.refer && b.time == a.time,
        send_args_spec(raw) matches CliOutcomeView::Run(a) ==> send_args_spec(raw + seq!["--time"@, v]) matches CliOutcomeView::Run(b) && b.time == Some(v) && b.key == a.key && b.numbers == a.numbers && b.messages == a.messages && b.refer == a.refer && b.date == a.date,
{
    if send_args_spec(raw) is Run {
        let t = send_table();
        let ts = scan_spec(t, raw, 0)->Tokens_0;
        lemma_send_table_names();
        {
            lemma_append_text_flag(t, raw, 0, v);
            assert(raw + seq![t[0].0, v] =~= raw + seq!["--key"@, v]);
            lemma_push_token(ts, TokenView::Text(0, v), 0);
            lemma_push_token(ts, TokenView::Text(0, v), 1);
            lemma_push_token(ts, TokenView::Text(0, v), 2);
            lemma_push_token(ts, TokenView::Text(0, v), 3);
            lemma_push_token(ts, TokenView::Text(0, v), 4);
            lemma_push_token(ts, TokenView::Text(0, v), 5);
            assert(scan_spec(t, (raw + seq!["--key"@, v]), 0) == ScanView::Tokens(ts.push(TokenView::Text(0, v))));
        }
        {
            lemma_append_text_flag(t, raw, 3, v);
            assert(raw + seq![t[3].0, v] =~= raw + seq!["--refer"@, v]);
            lemma_push_token(ts, TokenView::Text(3, v), 0);
            lemma_push_token(ts, TokenView::Text(3, v), 1);
            lemma_push_token(ts, TokenView::Text(3, v), 2);
            lemma_push_token(ts, TokenView::Text(3, v), 3);
            lemma_push_token(ts, TokenView::Text(3, v), 4);
            lemma_push_token(ts, TokenView::Text(3, v), 5);
            assert(scan_spec(t, (raw + seq!["--refer"@, v]), 0) == ScanView::Tokens(ts.push(TokenView::Text(3, v))));
        }
        {
            lemma_append_text_flag(t, raw, 4, v);
            assert(raw + seq![t[4].0, v] =~= raw + seq!["--date"@, v]);
            lemma_push_token(ts, TokenView::Text(4, v), 0);
            lemma_push_token(ts, TokenView::Text(4, v), 1);
            lemma_push_token(ts, TokenView::Text(4, v), 2);
            lemma_push_token(ts, TokenView::Text(4, v), 3);
            lemma_push_token(ts, TokenView::Text(4, v), 4);
            lemma_push_token(ts, TokenView::Text(4, v), 5);
            assert(scan_spec(t, (raw + seq!["--date"@, v]), 0) == ScanView::Tokens(ts.push(TokenView::Text(4, v))));
        }
        {
            lemma_append_text_flag(t, raw, 5, v);
            assert(raw + seq![t[5].0, v] =~= raw + seq!["--time"@, v]);
            lemma_push_token(ts, TokenView::Text(5, v), 0);
            lemma_push_token(ts, TokenView::Text(5, v), 1);
            lemma_push_token(ts, TokenView::Text(5, v), 2);
            lemma_push_token(ts, TokenView::Text(5, v), 3);
            lemma_push_token(ts, TokenView::Text(5, v), 4);
            lemma_push_token(ts, TokenView::Text(5, v), 5);
            assert(scan_spec(t, (raw + seq!["--time"@, v]), 0) == ScanView::Tokens(ts.push(TokenView::Text(5, v))));
        }
    }
}

/// `send_sms`: one more `--number`/`--msg` pair adds one more message, with
/// that number and text, after the others; nothing else changes.
pub proof fn law_send_pair_adds_message(raw: Seq<Seq<char>>, n: u64, v: Seq<char>)
    ensures
        send_args_spec(raw) matches CliOutcomeView::Run(a) ==> send_args_spec(raw + seq!["--number"@, decimal_spec(n as nat)] + seq!["--msg"@, v]) matches CliOutcomeView::Run(b) && b.numbers == a.numbers.push(n) && b.messages == a.messages.push(v) && b.key == a.key && b.refer == a.refer && b.date == a.date && b.time == a.time,
{
    if send_args_spec(raw) is Run {
        let t = send_table();
        let ts = scan_spec(t, raw, 0)->Tokens_0;
        lemma_send_table_names();
        {
            lemma_append_number_flag(t, raw, 1, n);
            assert(raw + seq![t[1].0, decimal_spec(n as nat)] =~= raw + seq!["--number"@, decimal_spec(n as nat)]);
            lemma_push_token(ts, TokenView::Number(1, n), 0);
            lemma_push_token(ts, TokenView::Number(1, n), 1);
            lemma_push_token(ts, TokenView::Number(1, n), 2);
            lemma_push_token(ts, TokenView::Number(1, n), 3);
            lemma_push_token(ts, TokenView::Number(1, n), 4);
            lemma_push_token(ts, TokenView::Number(1, n), 5);
            assert(scan_spec(t, (raw + seq!["--number"@, decimal_spec(n as nat)]), 0) == ScanView::Tokens(ts.push(TokenView::Number(1, n))));
            lemma_append_text_flag(t, (raw + seq!["--number"@, decimal_spec(n as nat)]), 2, v);
            assert((raw + seq!["--number"@, decimal_spec(n as nat)]) + seq![t[2].0, v] =~= (raw + seq!["--number"@, decimal_spec(n as nat)]) + seq!["--msg"@, v]);
            lemma_push_token(ts.push(TokenView::Number(1, n)), TokenView::Text(2, v), 0);
            lemma_push_token(ts.push(TokenView::Number(1, n)), TokenView::Text(2, v), 1);
            lemma_push_token(ts.push(TokenView::Number(1, n)), TokenView::Text(2, v), 2);
            lemma_push_token(ts.push(TokenView::Number(1, n)), TokenView::Text(2, v), 3);
            lemma_push_token(ts.push(TokenView::Number(1, n)), TokenView::Text(2, v), 4);
            lemma_push_token(ts.push(TokenView::Number(1, n)), TokenView::Text(2, v), 5);
            assert(scan_spec(t, ((raw + seq!["--number"@, decimal_spec(n as nat)]) + seq!["--msg"@, v]), 0) == ScanView::Tokens(ts.push(TokenView::Number(1, n)).push(TokenView::Text(2, v))));
        }
    }
}

proof fn lemma_id_table_names()
    ensures
        find_flag(id_table(), "--key"@, 0) == Some(0nat),
        find_flag(id_table(), "--id"@, 0) == Some(1nat),
{
    let t = id_table();
    reveal_strlit("--id");
    reveal_strlit("--key");
    assert(t[0].0.len() == 5 && t[1].0.len() == 4);
    lemma_find_flag_at(t, t[0].0, 0);
    assert forall|j: int| 0 <= j < 1 implies #[trigger] t[j].0 != t[1].0 by {}
    lemma_find_flag_at(t, t[1].0, 1);
}

proof fn lemma_key_table_names()
    ensures
        find_flag(key_table(), "--key"@, 0) == Some(0nat),
{
    let t = key_table();
    reveal_strlit("--key");
    lemma_find_flag_at(t, t[0].0, 0);
}

proof fn lemma_inbox_table_names()
    ensures
        find_flag(inbox_table(), "--key"@, 0) == Some(0nat),
        find_flag(inbox_table(), "--from"@, 0) == Some(2nat),
        find_flag(inbox_table(), "--to"@, 0) == Some(3nat),
        find_flag(inbox_table(), "--id"@, 0) == Some(4nat),
{
    let t = inbox_table();
    reveal_strlit("--from");
    reveal_strlit("--id");
    reveal_strlit("--key");
    reveal_strlit("--to");
    reveal_strlit("--all");
    assert(t[0].0.len() == 5 && t[1].0.len() == 5 && t[2].0.len() == 6 && t[3].0.len() == 4 && t[4].0.len() == 4);
    assert(t[0].0[2] != t[1].0[2]);
    assert(t[3].0[2] != t[4].0[2]);
    lemma_find_flag_at(t, t[0].0, 0);
    assert forall|j: int| 0 <= j < 2 implies #[trigger] t[j].0 != t[2].0 by {}
    lemma_find_flag_at(t, t[2].0, 2);
    assert forall|j: int| 0 <= j < 3 implies #[trigger] t[j].0 != t[3].0 by {}
    lemma_find_flag_at(t, t[3].0, 3);
    assert forall|j: int| 0 <= j < 4 implies #[trigger] t[j].0 != t[4].0 by {}
    lemma_find_flag_at(t, t[4].0, 4);
}

proof fn lemma_report_table_names()
    ensures
        find_flag(report_table(), "--key"@, 0) == Some(0nat),
        find_flag(report_table(), "--from"@, 0) == Some(1nat),
        find_flag(report_table(), "--to"@, 0) == Some(2nat),
{
    let t = report_table();
    reveal_strlit("--from");
    reveal_strlit("--key");
    reveal_strlit("--to");
    assert(t[0].0.len() == 5 && t[1].0.len() == 6 && t[2].0.len() == 4);
    lemma_find_flag_at(t, t[0].0, 0);
    assert forall|j: int| 0 <= j < 1 implies #[trigger] t[j].0 != t[1].0 by {}
    lemma_find_flag_at(t, t[1].0, 1);
    assert forall|j: int| 0 <= j < 2 implies #[trigger] t[j].0 != t[2].0 by {}
    lemma_find_flag_at(t, t[2].0, 2);
}

/// `cancel_sms` and `dlr`: a later `--key` replaces the key, and one more
/// `--id` adds that ID after the others; nothing else changes.
pub proof fn law_id_args_later_values(raw: Seq<Seq<char>>, v: Seq<char>, n: u64)
    ensures
        id_args_spec(raw) matches CliOutcomeView::Run(a) ==> id_args_spec(raw + seq!["--key"@, v]) matches CliOutcomeView::Run(b) && b.0 == v && b.1 == a.1,
        id_args_spec(raw) matches CliOutcomeView::Run(a) ==> id_args_spec(raw + seq!["--id"@, decimal_spec(n as nat)]) matches CliOutcomeView::Run(b) && b.0 == a.0 && b.1 == a.1.push(n),
{
    if id_args_spec(raw) is Run {
        let t = id_table();
        let ts = scan_spec(t, raw, 0)->Tokens_0;
        lemma_id_table_names();
        {
            lemma_append_text_flag(t, raw, 0, v);
            assert(raw + seq![t[0].0, v] =~= raw + seq!["--key"@, v]);
            lemma_push_token(ts, TokenView::Text(0, v), 0);
            lemma_push_token(ts, TokenView::Text(0, v), 1);
            assert(scan_spec(t, (raw + seq!["--key"@, v]), 0) == ScanView::Tokens(ts.push(TokenView::Text(0, v))));
        }
        {
            lemma_append_number_flag(t, raw, 1, n);
            assert(raw + seq![t[1].0, decimal_spec(n as nat)] =~= raw + seq!["--id"@, decimal_spec(n as nat)]);
            lemma_push_token(ts, TokenView::Number(1, n), 0);
            lemma_push_token(ts, TokenView::Number(1, n), 1);
            assert(scan_spec(t, (raw + seq!["--id"@, decimal_spec(n as nat)]), 0) == ScanView::Tokens(ts.push(TokenView::Number(1, n))));
        }
    }
}

/// `balance`: a later `--key` replaces the key.
pub proof fn law_key_args_later_key(raw: Seq<Seq<char>>, v: Seq<char>)
    ensures
        key_args_spec(raw) matches CliOutcomeView::Run(a) ==> key_args_spec(raw + seq!["--key"@, v]) matches CliOutcomeView::Run(b) && b == v,
{
    if key_args_spec(raw) is Run {
        let t = key_table();
        let ts = scan_spec(t, raw, 0)->Tokens_0;
        lemma_key_table_names();
        {
            lemma_append_text_flag(t, raw, 0, v);
            assert(raw + seq![t[0].0, v] =~= raw + seq!["--key"@, v]);
            lemma_push_token(ts, TokenView::Text(0, v), 0);
            assert(scan_spec(t, (raw + seq!["--key"@, v]), 0) == ScanView::Tokens(ts.push(TokenView::Text(0, v))));
        }
    }
}

/// `inbox`: a later `--key`, `--from` or `--to` replaces the earlier value,
/// and one more `--id` adds that ID after the others; nothing else changes,
/// in particular not whether all messages are asked for.
pub proof fn law_inbox_args_later_values(raw: Seq<Seq<char>>, v: Seq<char>, n: u64)
    ensures
        inbox_args_spec(raw) matches CliOutcomeView::Run(a) ==> inbox_args_spec(raw + seq!["--key"@, v]) matches CliOutcomeView::Run(b) && b.key == v && b.all == a.all && b.date_from == a.date_from && b.date_to == a.date_to && b.ids == a.ids,
        inbox_args_spec(raw) matches CliOutcomeView::Run(a) ==> inbox_args_spec(raw + seq!["--from"@, v]) matches CliOutcomeView::Run(b) && b.date_from == Some(v) && b.key == a.key && b.all == a.all && b.date_to == a.date_to && b.ids == a.ids,
        inbox_args_spec(raw) matches CliOutcomeView::Run(a) ==> inbox_args_spec(raw + seq!["--to"@, v]) matches CliOutcomeView::Run(b) && b.date_to == Some(v) && b.key == a.key && b.all == a.all && b.date_from == a.date_from && b.ids == a.ids,
        inbox_args_spec(raw) matches CliOutcomeView::Run(a) ==> inbox_args_spec(raw + seq!["--id"@, decimal_spec(n as nat)]) matches CliOutcomeView::Run(b) && b.ids == a.ids.push(n) && b.key == a.key && b.all == a.all && b.date_from == a.date_from && b.date_to == a.date_to,
{
    if inbox_args_spec(raw) is Run {
        let t = inbox_table();
        let ts = scan_spec(t, raw, 0)->Tokens_0;
        lemma_inbox_table_names();
        {
            lemma_append_text_flag(t, raw, 0, v);
            assert(raw + seq![t[0].0, v] =~= raw + seq!["--key"@, v]);
            lemma_push_token(ts, TokenView::Text(0, v), 0);
            lemma_push_token(ts, TokenView::Text(0, v), 1);
            lemma_push_token(ts, TokenView::Text(0, v), 2);
            lemma_push_token(ts, TokenView::Text(0, v), 3);
            lemma_push_token(ts, TokenView::Text(0, v), 4);
            assert(scan_spec(t, (raw + seq!["--key"@, v]), 0) == ScanView::Tokens(ts.push(TokenView::Text(0, v))));
        }
        {
            lemma_append_text_flag(t, raw, 2, v);
            assert(raw + seq![t[2].0, v] =~= raw + seq!["--from"@, v]);
            lemma_push_token(ts, TokenView::Text(2, v), 0);
            lemma_push_token(ts, TokenView::Text(2, v), 1);
            lemma_push_token(ts, TokenView::Text(2, v), 2);
            lemma_push_token(ts, TokenView::Text(2, v), 3);
            lemma_push_token(ts, TokenView::Text(2, v), 4);
            assert(scan_spec(t, (raw + seq!["--from"@, v]), 0) == ScanView::Tokens(ts.push(TokenView::Text(2, v))));
        }
        {
            lemma_append_text_flag(t, raw, 3, v);
            assert(raw + seq![t[3].0, v] =~= raw + seq!["--to"@, v]);
            lemma_push_token(ts, TokenView::Text(3, v), 0);
            lemma_push_token(ts, TokenView::Text(3, v), 1);
            lemma_push_token(ts, TokenView::Text(3, v), 2);
            lemma_push_token(ts, TokenView::Text(3, v), 3);
            lemma_push_token(ts, TokenView::Text(3, v), 4);
            assert(scan_spec(t, (raw + seq!["--to"@, v]), 0) == ScanView::Tokens(ts.push(TokenView::Text(3, v))));
        }
        {
            lemma_append_number_flag(t, raw, 4, n);
            assert(raw + seq![t[4].0, decimal_spec(n as nat)] =~= raw + seq!["--id"@, decimal_spec(n as nat)]);
            lemma_push_token(ts, TokenView::Number(4, n), 0);
            lemma_push_token(ts, TokenView::Number(4, n), 1);
            lemma_push_token(ts, TokenView::Number(4, n), 2);
            lemma_push_token(ts, TokenView::Number(4, n), 3);
            lemma_push_token(ts, TokenView::Number(4, n), 4);
            assert(scan_spec(t, (raw + seq!["--id"@, decimal_spec(n as nat)]), 0) == ScanView::Tokens(ts.push(TokenView::Number(4, n))));
        }
    }
}

/// `report`: a later `--key`, `--from` or `--to` replaces the earlier value;
/// each end of the range is set independently of the other.
pub proof fn law_report_args_later_values(raw: Seq<Seq<char>>, v: Seq<char>)
    ensures
        report_args_spec(raw) matches CliOutcomeView::Run(a) ==> report_args_spec(raw + seq!["--key"@, v]) matches CliOutcomeView::Run(b) && b.0 == v && b.1 == a.1 && b.2 == a.2,
        report_args_spec(raw) matches CliOutcomeView::Run(a) ==> report_args_spec(raw + seq!["--from"@, v]) matches CliOutcomeView::Run(b) && b.0 == a.0 && b.1 == Some(v) && b.2 == a.2,
        report_args_spec(raw) matches CliOutcomeView::Run(a) ==> report_args_spec(raw + seq!["--to"@, v]) matches CliOutcomeView::Run(b) && b.0 == a.0 && b.1 == a.1 && b.2 == Some(v),
{
    if report_args_spec(raw) is Run {
        let t = report_table();
        let ts = scan_spec(t, raw, 0)->Tokens_0;
        lemma_report_table_names();
        {
            lemma_append_text_flag(t, raw, 0, v);
            assert(raw + seq![t[0].0, v] =~= raw + seq!["--key"@, v]);
            lemma_push_token(ts, TokenView::Text(0, v), 0);
            lemma_push_token(ts, TokenView::Text(0, v), 1);
            lemma_push_token(ts, TokenView::Text(0, v), 2);
            assert(scan_spec(t, (raw + seq!["--key"@, v]), 0) == ScanView::Tokens(ts.push(TokenView::Text(0, v))));
        }
        {
            lemma_append_text_flag(t, raw, 1, v);
            assert(raw + seq![t[1].0, v] =~= raw + seq!["--from"@, v]);
            lemma_push_token(ts, TokenView::Text(1, v), 0);
            lemma_push_token(ts, TokenView::Text(1, v), 1);
            lemma_push_token(ts, TokenView::Text(1, v), 2);
            assert(scan_spec(t, (raw + seq!["--from"@, v]), 0) == ScanView::Tokens(ts.push(TokenView::Text(1, v))));
        }
        {
            lemma_append_text_flag(t, raw, 2, v);
            assert(raw + seq![t[2].0, v] =~= raw + seq!["--to"@, v]);
            lemma_push_token(ts, TokenView::Text(2, v), 0);
            lemma_push_token(ts, TokenView::Text(2, v), 1);
            lemma_push_token(ts, TokenView::Text(2, v), 2);
            assert(scan_spec(t, (raw + seq!["--to"@, v]), 0) == ScanView::Tokens(ts.push(TokenView::Text(2, v))));
        }
    }
}

} // verus!
