//! Reading command-line arguments against a table of flags.
//!
//! Arguments are read from left to right. A flag that takes a value consumes
//! the next argument; a numeric flag also reads that value as a number. The
//! first help flag, unknown argument, missing value or bad number ends the scan.

use crate::text::{decimal_spec, lemma_parse_decimal, opt_view, parse_u64, parse_u64_spec, text_eq};
use vstd::prelude::*;

verus! {

/// What a flag does with the argument after it.
#[derive(Debug, Clone, Copy, PartialEq, Eq, Structural)]
pub enum FlagKind {
    /// Takes the next argument as a text.
    Text,
    /// Takes the next argument as an unsigned number.
    Number,
    /// Takes no value.
    Switch,
    /// Asks for the usage text.
    Help,
}

/// A flag: its name, its kind, the message when its value is missing and the
/// message when its value is not a number.
#[derive(Debug, Clone)]
pub struct FlagSpec {
    pub name: String,
    pub kind: FlagKind,
    pub missing: String,
    pub invalid: String,
}

/// A flag, as plain values.
pub type FlagView = (Seq<char>, FlagKind, Seq<char>, Seq<char>);

impl View for FlagSpec {
    type V = FlagView;

    open spec fn view(&self) -> FlagView {
        (self.name@, self.kind, self.missing@, self.invalid@)
    }
}

/// The flags of a table, as plain values.
pub open spec fn table_view(t: Seq<FlagSpec>) -> Seq<FlagView> {
    t.map_values(|f: FlagSpec| f@)
}

/// A list of texts, as plain values.
pub open spec fn texts_view(v: Seq<String>) -> Seq<Seq<char>> {
    v.map_values(|s: String| s@)
}

/// Builds a flag.
pub fn flag(name: &str, kind: FlagKind, missing: &str, invalid: &str) -> (r: FlagSpec)
    ensures
        r@ == (name@, kind, missing@, invalid@),
{
    FlagSpec {
        name: String::from_str(name),
        kind,
        missing: String::from_str(missing),
        invalid: String::from_str(invalid),
    }
}

/// One flag met in the arguments, with the value it took; the number is the
/// flag's place in its table.
#[derive(Debug, Clone)]
pub enum Token {
    Text(usize, String),
    Number(usize, u64),
    Switch(usize),
}

/// A token, as plain values.
pub enum TokenView {
    Text(nat, Seq<char>),
    Number(nat, u64),
    Switch(nat),
}

impl View for Token {
    type V = TokenView;

    open spec fn view(&self) -> TokenView {
        match self {
            Token::Text(k, s) => TokenView::Text(*k as nat, s@),
            Token::Number(k, n) => TokenView::Number(*k as nat, *n),
            Token::Switch(k) => TokenView::Switch(*k as nat),
        }
    }
}

/// The tokens of a list, as plain values.
pub open spec fn tokens_view(v: Seq<Token>) -> Seq<TokenView> {
    v.map_values(|t: Token| t@)
}

/// How a scan ends.
#[derive(Debug, Clone)]
pub enum Scan {
    /// Every argument was read; these are the flags met, in order.
    Tokens(Vec<Token>),
    /// A help flag was met.
    Help,
    /// The arguments were refused, with this message.
    Fail(String),
}

/// How a scan ends, as plain values.
pub enum ScanView {
    Tokens(Seq<TokenView>),
    Help,
    Fail(Seq<char>),
}

impl View for Scan {
    type V = ScanView;

    open spec fn view(&self) -> ScanView {
        match self {
            Scan::Tokens(v) => ScanView::Tokens(tokens_view(v@)),
            Scan::Help => ScanView::Help,
            Scan::Fail(m) => ScanView::Fail(m@),
        }
    }
}

/// The place of the first flag named `a` in the table, from place `k` on.
pub open spec fn find_flag(table: Seq<FlagView>, a: Seq<char>, k: nat) -> Option<nat>
    decreases table.len() - k,
{
    if k >= table.len() {
        None
    } else if table[k as int].0 == a {
        Some(k)
    } else {
        find_flag(table, a, k + 1)
    }
}

/// A token in front of the rest of a scan.
pub open spec fn prepend(t: TokenView, rest: ScanView) -> ScanView {
    match rest {
        ScanView::Tokens(ts) => ScanView::Tokens(seq![t] + ts),
        other => other,
    }
}

/// Tokens in front of the rest of a scan.
pub open spec fn prepend_all(ts: Seq<TokenView>, rest: ScanView) -> ScanView {
    match rest {
        ScanView::Tokens(us) => ScanView::Tokens(ts + us),
        other => other,
    }
}

/// The message for an argument that no flag of the table has.
pub open spec fn unknown_message(a: Seq<char>) -> Seq<char> {
    "Unknown argument: "@ + a
}

/// The scan of the arguments from place `i` on.
pub open spec fn scan_spec(table: Seq<FlagView>, raw: Seq<Seq<char>>, i: nat) -> ScanView
    decreases raw.len() - i,
{
    if i >= raw.len() {
        ScanView::Tokens(seq![])
    } else {
        match find_flag(table, raw[i as int], 0) {
            None => ScanView::Fail(unknown_message(raw[i as int])),
            Some(k) => {
                let f = table[k as int];
                match f.1 {
                    FlagKind::Help => ScanView::Help,
                    FlagKind::Switch => prepend(TokenView::Switch(k), scan_spec(table, raw, i + 1)),
                    FlagKind::Text => if i + 1 < raw.len() {
                        prepend(
                            TokenView::Text(k, raw[i + 1 as int]),
                            scan_spec(table, raw, i + 2),
                        )
                    } else {
                        ScanView::Fail(f.2)
                    },
                    FlagKind::Number => if i + 1 < raw.len() {
                        match parse_u64_spec(raw[i + 1 as int]) {
                            Some(n) => prepend(
                                TokenView::Number(k, n),
                                scan_spec(table, raw, i + 2),
                            ),
                            None => ScanView::Fail(f.3),
                        }
                    } else {
                        ScanView::Fail(f.2)
                    },
                }
            },
        }
    }
}

fn find(table: &Vec<FlagSpec>, a: &str) -> (r: Option<usize>)
    ensures
        r matches Some(j) ==> j < table.len() && find_flag(table_view(table@), a@, 0) == Some(
            j as nat,
        ),
        r is None ==> find_flag(table_view(table@), a@, 0) is None,
{
    let ghost t = table_view(table@);
    let mut k: usize = 0;
    while k < table.len()
        invariant
            k <= table.len(),
            t == table_view(table@),
            find_flag(t, a@, 0) == find_flag(t, a@, k as nat),
        decreases table.len() - k,
    {
        assert(t[k as int] == table@[k as int]@);
        if text_eq(table[k].name.as_str(), a) {
            return Some(k);
        }
        k = k + 1;
    }
    None
}

proof fn lemma_prepend_all_push(ts: Seq<TokenView>, t: TokenView, rest: ScanView)
    ensures
        prepend_all(ts, prepend(t, rest)) == prepend_all(ts.push(t), rest),
{
    match rest {
        ScanView::Tokens(us) => {
            assert(ts + (seq![t] + us) =~= ts.push(t) + us);
        },
        _ => {},
    }
}

/// Reads the arguments against the table of flags.
pub fn scan(table: &Vec<FlagSpec>, raw: &Vec<String>) -> (r: Scan)
    ensures
        r@ == scan_spec(table_view(table@), texts_view(raw@), 0),
{
    let ghost t = table_view(table@);
    let ghost rv = texts_view(raw@);
    let mut acc: Vec<Token> = Vec::new();
    let mut i: usize = 0;
    assert(prepend_all(tokens_view(acc@), scan_spec(t, rv, 0)) == scan_spec(t, rv, 0)) by {
        assert(tokens_view(acc@) =~= Seq::<TokenView>::empty());
        match scan_spec(t, rv, 0) {
            ScanView::Tokens(us) => {
                assert(Seq::<TokenView>::empty() + us =~= us);
            },
            _ => {},
        }
    }
    while i < raw.len()
        invariant
            i <= raw.len(),
            t == table_view(table@),
            rv == texts_view(raw@),
            rv.len() == raw.len(),
            scan_spec(t, rv, 0) == prepend_all(tokens_view(acc@), scan_spec(t, rv, i as nat)),
        decreases raw.len() - i,
    {
        let ghost before = tokens_view(acc@);
        assert(rv[i as int] == raw@[i as int]@);
        match find(table, raw[i].as_str()) {
            None => {
                let mut msg = String::from_str("Unknown argument: ");
                msg.append(raw[i].as_str());
                return Scan::Fail(msg);
            },
            Some(k) => {
                assert(t[k as int] == table@[k as int]@);
                let kind = table[k].kind;
                assert(find_flag(t, rv[i as int], 0) == Some(k as nat));
                assert(t[k as int].1 == kind);
                if kind == FlagKind::Help {
                    assert(scan_spec(t, rv, i as nat) == ScanView::Help);
                    return Scan::Help;
                } else if kind == FlagKind::Switch {
                    acc.push(Token::Switch(k));
                    proof {
                        assert(tokens_view(acc@) =~= before.push(TokenView::Switch(k as nat)));
                        lemma_prepend_all_push(
                            before,
                            TokenView::Switch(k as nat),
                            scan_spec(t, rv, (i + 1) as nat),
                        );
                    }
                    i = i + 1;
                } else {
                    if i + 1 >= raw.len() {
                        return Scan::Fail(table[k].missing.clone());
                    }
                    assert(rv[i + 1] == raw@[i + 1]@);
                    if kind == FlagKind::Text {
                        let v = raw[i + 1].clone();
                        acc.push(Token::Text(k, v));
                        proof {
                            assert(tokens_view(acc@) =~= before.push(
                                TokenView::Text(k as nat, rv[i + 1]),
                            ));
                            lemma_prepend_all_push(
                                before,
                                TokenView::Text(k as nat, rv[i + 1]),
                                scan_spec(t, rv, (i + 2) as nat),
                            );
                        }
                    } else {
                        match parse_u64(raw[i + 1].as_str()) {
                            None => {
                                return Scan::Fail(table[k].invalid.clone());
                            },
                            Some(n) => {
                                acc.push(Token::Number(k, n));
                                proof {
                                    assert(tokens_view(acc@) =~= before.push(
                                        TokenView::Number(k as nat, n),
                                    ));
                                    lemma_prepend_all_push(
                                        before,
                                        TokenView::Number(k as nat, n),
                                        scan_spec(t, rv, (i + 2) as nat),
                                    );
                                }
                            },
                        }
                    }
                    i = i + 2;
                }
            },
        }
    }
    assert(prepend_all(tokens_view(acc@), scan_spec(t, rv, i as nat)) == ScanView::Tokens(
        tokens_view(acc@),
    )) by {
        assert(tokens_view(acc@) + Seq::<TokenView>::empty() =~= tokens_view(acc@));
    }
    Scan::Tokens(acc)
}


/// The value of the last text token of flag `k`: the value that stands when
/// a flag is given more than once.
pub open spec fn last_text(ts: Seq<TokenView>, k: nat) -> Option<Seq<char>>
    decreases ts.len(),
{
    if ts.len() == 0 {
        None
    } else {
        match ts.last() {
            TokenView::Text(j, v) => if j == k {
                Some(v)
            } else {
                last_text(ts.drop_last(), k)
            },
            _ => last_text(ts.drop_last(), k),
        }
    }
}

/// The values of all text tokens of flag `k`, in order.
pub open spec fn all_texts(ts: Seq<TokenView>, k: nat) -> Seq<Seq<char>>
    decreases ts.len(),
{
    if ts.len() == 0 {
        seq![]
    } else {
        let rest = all_texts(ts.drop_last(), k);
        match ts.last() {
            TokenView::Text(j, v) => if j == k {
                rest.push(v)
            } else {
                rest
            },
            _ => rest,
        }
    }
}

/// The values of all number tokens of flag `k`, in order.
pub open spec fn all_numbers(ts: Seq<TokenView>, k: nat) -> Seq<u64>
    decreases ts.len(),
{
    if ts.len() == 0 {
        seq![]
    } else {
        let rest = all_numbers(ts.drop_last(), k);
        match ts.last() {
            TokenView::Number(j, n) => if j == k {
                rest.push(n)
            } else {
                rest
            },
            _ => rest,
        }
    }
}

/// Whether switch `k` was given.
pub open spec fn switched(ts: Seq<TokenView>, k: nat) -> bool
    decreases ts.len(),
{
    if ts.len() == 0 {
        false
    } else {
        match ts.last() {
            TokenView::Switch(j) => j == k || switched(ts.drop_last(), k),
            _ => switched(ts.drop_last(), k),
        }
    }
}

/// The value of the last text token of flag `k`.
pub fn last_text_of(tokens: &Vec<Token>, k: usize) -> (r: Option<String>)
    ensures
        opt_view(r) == last_text(tokens_view(tokens@), k as nat),
{
    let ghost ts = tokens_view(tokens@);
    let mut r: Option<String> = None;
    let mut i: usize = 0;
    while i < tokens.len()
        invariant
            i <= tokens.len(),
            ts == tokens_view(tokens@),
            opt_view(r) == last_text(ts.take(i as int), k as nat),
        decreases tokens.len() - i,
    {
        assert(ts.take(i + 1).drop_last() =~= ts.take(i as int));
        assert(ts.take(i + 1).last() == tokens@[i as int]@);
        match &tokens[i] {
            Token::Text(j, v) => {
                if *j == k {
                    r = Some(v.clone());
                }
            },
            _ => {},
        }
        i = i + 1;
    }
    assert(ts.take(tokens.len() as int) =~= ts);
    r
}

/// The values of all text tokens of flag `k`, in order.
pub fn all_texts_of(tokens: &Vec<Token>, k: usize) -> (r: Vec<String>)
    ensures
        texts_view(r@) == all_texts(tokens_view(tokens@), k as nat),
{
    let ghost ts = tokens_view(tokens@);
    let mut r: Vec<String> = Vec::new();
    let mut i: usize = 0;
    assert(texts_view(r@) =~= all_texts(ts.take(0), k as nat));
    while i < tokens.len()
        invariant
            i <= tokens.len(),
            ts == tokens_view(tokens@),
            texts_view(r@) == all_texts(ts.take(i as int), k as nat),
        decreases tokens.len() - i,
    {
        assert(ts.take(i + 1).drop_last() =~= ts.take(i as int));
        assert(ts.take(i + 1).last() == tokens@[i as int]@);
        let ghost before = texts_view(r@);
        match &tokens[i] {
            Token::Text(j, v) => {
                if *j == k {
                    r.push(v.clone());
                    assert(texts_view(r@) =~= before.push(v@));
                }
            },
            _ => {},
        }
        i = i + 1;
    }
    assert(ts.take(tokens.len() as int) =~= ts);
    r
}

/// The values of all number tokens of flag `k`, in order.
pub fn all_numbers_of(tokens: &Vec<Token>, k: usize) -> (r: Vec<u64>)
    ensures
        r@ == all_numbers(tokens_view(tokens@), k as nat),
{
    let ghost ts = tokens_view(tokens@);
    let mut r: Vec<u64> = Vec::new();
    let mut i: usize = 0;
    assert(r@ =~= all_numbers(ts.take(0), k as nat));
    while i < tokens.len()
        invariant
            i <= tokens.len(),
            ts == tokens_view(tokens@),
            r@ == all_numbers(ts.take(i as int), k as nat),
        decreases tokens.len() - i,
    {
        assert(ts.take(i + 1).drop_last() =~= ts.take(i as int));
        assert(ts.take(i + 1).last() == tokens@[i as int]@);
        match &tokens[i] {
            Token::Number(j, n) => {
                if *j == k {
                    r.push(*n);
                }
            },
            _ => {},
        }
        i = i + 1;
    }
    assert(ts.take(tokens.len() as int) =~= ts);
    r
}

/// Whether switch `k` was given.
pub fn switched_in(tokens: &Vec<Token>, k: usize) -> (r: bool)
    ensures
        r == switched(tokens_view(tokens@), k as nat),
{
    let ghost ts = tokens_view(tokens@);
    let mut r = false;
    let mut i: usize = 0;
    while i < tokens.len()
        invariant
            i <= tokens.len(),
            ts == tokens_view(tokens@),
            r == switched(ts.take(i as int), k as nat),
        decreases tokens.len() - i,
    {
        assert(ts.take(i + 1).drop_last() =~= ts.take(i as int));
        assert(ts.take(i + 1).last() == tokens@[i as int]@);
        match &tokens[i] {
            Token::Switch(j) => {
                if *j == k {
                    r = true;
                }
            },
            _ => {},
        }
        i = i + 1;
    }
    assert(ts.take(tokens.len() as int) =~= ts);
    r
}


/// The flag found for a name is a flag of the table with that very name.
pub proof fn lemma_find_flag_name(table: Seq<FlagView>, a: Seq<char>, k: nat)
    ensures
        find_flag(table, a, k) matches Some(j) ==> j < table.len() && table[j as int].0 == a,
    decreases table.len() - k,
{
    if k < table.len() && table[k as int].0 != a {
        lemma_find_flag_name(table, a, k + 1);
    }
}

/// A switch is met in a token in front of others exactly when it is that
/// token or it is met among the others.
pub proof fn lemma_switched_prepend(x: TokenView, ts: Seq<TokenView>, k: nat)
    ensures
        switched(seq![x] + ts, k) == ((x == TokenView::Switch(k)) || switched(ts, k)),
    decreases ts.len(),
{
    if ts.len() == 0 {
        assert(seq![x] + ts =~= seq![x]);
        assert(seq![x].drop_last() =~= Seq::<TokenView>::empty());
        assert(seq![x].last() == x);
        assert(!switched(Seq::<TokenView>::empty(), k));
    } else {
        assert((seq![x] + ts).drop_last() =~= seq![x] + ts.drop_last());
        assert((seq![x] + ts).last() == ts.last());
        lemma_switched_prepend(x, ts.drop_last(), k);
    }
}

/// A switch met by the scan was given in the arguments: some argument from
/// the scan's start on is the switch's name.
pub proof fn lemma_switch_given(table: Seq<FlagView>, raw: Seq<Seq<char>>, i: nat, k: nat)
    requires
        scan_spec(table, raw, i) matches ScanView::Tokens(ts) && switched(ts, k),
    ensures
        k < table.len(),
        exists|j: int| i <= j < raw.len() && raw[j] == table[k as int].0,
    decreases raw.len() - i,
{
    if i >= raw.len() {
        assert(!switched(Seq::<TokenView>::empty(), k));
    } else {
        lemma_find_flag_name(table, raw[i as int], 0);
        let kk = find_flag(table, raw[i as int], 0)->0;
        let f = table[kk as int];
        match f.1 {
            FlagKind::Switch => {
                let rest = scan_spec(table, raw, i + 1);
                let us = rest->Tokens_0;
                lemma_switched_prepend(TokenView::Switch(kk), us, k);
                if kk != k {
                    lemma_switch_given(table, raw, i + 1, k);
                    let j = choose|j: int| i + 1 <= j < raw.len() && raw[j] == table[k as int].0;
                    assert(i <= j);
                } else {
                    assert(raw[i as int] == table[k as int].0);
                }
            },
            FlagKind::Text => {
                let us = scan_spec(table, raw, i + 2)->Tokens_0;
                lemma_switched_prepend(TokenView::Text(kk, raw[i + 1 as int]), us, k);
                lemma_switch_given(table, raw, i + 2, k);
            },
            FlagKind::Number => {
                let n = parse_u64_spec(raw[i + 1 as int])->0;
                let us = scan_spec(table, raw, i + 2)->Tokens_0;
                lemma_switched_prepend(TokenView::Number(kk, n), us, k);
                lemma_switch_given(table, raw, i + 2, k);
            },
            FlagKind::Help => {},
        }
    }
}

proof fn lemma_prepend_prepend_all(t: TokenView, us: Seq<TokenView>, rest: ScanView)
    ensures
        prepend(t, prepend_all(us, rest)) == prepend_all(seq![t] + us, rest),
{
    match rest {
        ScanView::Tokens(vs) => {
            assert(seq![t] + (us + vs) =~= (seq![t] + us) + vs);
        },
        _ => {},
    }
}

/// Scanning arguments that were read to their end, followed by more
/// arguments, gives the same tokens, then whatever the scan of the rest gives.
pub proof fn lemma_scan_append(
    table: Seq<FlagView>,
    raw: Seq<Seq<char>>,
    extra: Seq<Seq<char>>,
    i: nat,
)
    requires
        i <= raw.len(),
        scan_spec(table, raw, i) is Tokens,
    ensures
        scan_spec(table, raw + extra, i) == prepend_all(
            scan_spec(table, raw, i)->Tokens_0,
            scan_spec(table, raw + extra, raw.len()),
        ),
    decreases raw.len() - i,
{
    let r2 = raw + extra;
    if i == raw.len() {
        match scan_spec(table, r2, raw.len()) {
            ScanView::Tokens(us) => {
                assert(Seq::<TokenView>::empty() + us =~= us);
            },
            _ => {},
        }
    } else {
        assert(r2[i as int] == raw[i as int]);
        let kk = find_flag(table, raw[i as int], 0)->0;
        let f = table[kk as int];
        match f.1 {
            FlagKind::Switch => {
                lemma_scan_append(table, raw, extra, i + 1);
                lemma_prepend_prepend_all(
                    TokenView::Switch(kk),
                    scan_spec(table, raw, i + 1)->Tokens_0,
                    scan_spec(table, r2, raw.len()),
                );
            },
            FlagKind::Text => {
                assert(r2[i + 1 as int] == raw[i + 1 as int]);
                lemma_scan_append(table, raw, extra, i + 2);
                lemma_prepend_prepend_all(
                    TokenView::Text(kk, raw[i + 1 as int]),
                    scan_spec(table, raw, i + 2)->Tokens_0,
                    scan_spec(table, r2, raw.len()),
                );
            },
            FlagKind::Number => {
                assert(r2[i + 1 as int] == raw[i + 1 as int]);
                lemma_scan_append(table, raw, extra, i + 2);
                lemma_prepend_prepend_all(
                    TokenView::Number(kk, parse_u64_spec(raw[i + 1 as int])->0),
                    scan_spec(table, raw, i + 2)->Tokens_0,
                    scan_spec(table, r2, raw.len()),
                );
            },
            FlagKind::Help => {},
        }
    }
}

/// The flag at place `k` is the one found for its name when no earlier flag
/// has that name.
pub proof fn lemma_find_flag_at(table: Seq<FlagView>, a: Seq<char>, k: nat)
    requires
        k < table.len(),
        table[k as int].0 == a,
        forall|j: int| 0 <= j < k ==> #[trigger] table[j].0 != a,
    ensures
        find_flag(table, a, 0) == Some(k),
{
    lemma_find_flag_from(table, a, 0, k);
}

proof fn lemma_find_flag_from(table: Seq<FlagView>, a: Seq<char>, i: nat, k: nat)
    requires
        i <= k < table.len(),
        table[k as int].0 == a,
        forall|j: int| 0 <= j < k ==> #[trigger] table[j].0 != a,
    ensures
        find_flag(table, a, i) == Some(k),
    decreases k - i,
{
    if i < k {
        assert(table[i as int].0 != a);
        lemma_find_flag_from(table, a, i + 1, k);
    }
}

/// Arguments read to their end, followed by a text flag and its value, give
/// the same tokens and then that flag with that value.
pub proof fn lemma_append_text_flag(
    table: Seq<FlagView>,
    raw: Seq<Seq<char>>,
    k: nat,
    v: Seq<char>,
)
    requires
        scan_spec(table, raw, 0) is Tokens,
        k < table.len(),
        table[k as int].1 == FlagKind::Text,
        find_flag(table, table[k as int].0, 0) == Some(k),
    ensures
        scan_spec(table, raw + seq![table[k as int].0, v], 0) == ScanView::Tokens(
            scan_spec(table, raw, 0)->Tokens_0.push(TokenView::Text(k, v)),
        ),
{
    let extra = seq![table[k as int].0, v];
    let r2 = raw + extra;
    lemma_scan_append(table, raw, extra, 0);
    assert(r2[raw.len() as int] == table[k as int].0);
    assert(r2[raw.len() + 1int] == v);
    assert(scan_spec(table, r2, raw.len() + 2) == ScanView::Tokens(Seq::<TokenView>::empty()));
    assert(seq![TokenView::Text(k, v)] + Seq::<TokenView>::empty() =~= seq![
        TokenView::Text(k, v),
    ]);
    let ts = scan_spec(table, raw, 0)->Tokens_0;
    assert(ts + seq![TokenView::Text(k, v)] =~= ts.push(TokenView::Text(k, v)));
}

/// Arguments read to their end, followed by a numeric flag and the decimal
/// rendering of a number, give the same tokens and then that flag with that number.
pub proof fn lemma_append_number_flag(
    table: Seq<FlagView>,
    raw: Seq<Seq<char>>,
    k: nat,
    n: u64,
)
    requires
        scan_spec(table, raw, 0) is Tokens,
        k < table.len(),
        table[k as int].1 == FlagKind::Number,
        find_flag(table, table[k as int].0, 0) == Some(k),
    ensures
        scan_spec(table, raw + seq![table[k as int].0, decimal_spec(n as nat)], 0)
            == ScanView::Tokens(scan_spec(table, raw, 0)->Tokens_0.push(TokenView::Number(k, n))),
{
    let extra = seq![table[k as int].0, decimal_spec(n as nat)];
    let r2 = raw + extra;
    lemma_parse_decimal(n);
    lemma_scan_append(table, raw, extra, 0);
    assert(r2[raw.len() as int] == table[k as int].0);
    assert(r2[raw.len() + 1int] == decimal_spec(n as nat));
    assert(scan_spec(table, r2, raw.len() + 2) == ScanView::Tokens(Seq::<TokenView>::empty()));
    assert(seq![TokenView::Number(k, n)] + Seq::<TokenView>::empty() =~= seq![
        TokenView::Number(k, n),
    ]);
    let ts = scan_spec(table, raw, 0)->Tokens_0;
    assert(ts + seq![TokenView::Number(k, n)] =~= ts.push(TokenView::Number(k, n)));
}

/// What one more token changes in the summaries of the tokens: only the
/// values of its own flag.
pub proof fn lemma_push_token(ts: Seq<TokenView>, t: TokenView, j: nat)
    ensures
        last_text(ts.push(t), j) == (match t {
            TokenView::Text(k, v) => if k == j {
                Some(v)
            } else {
                last_text(ts, j)
            },
            _ => last_text(ts, j),
        }),
        all_texts(ts.push(t), j) == (match t {
            TokenView::Text(k, v) => if k == j {
                all_texts(ts, j).push(v)
            } else {
                all_texts(ts, j)
            },
            _ => all_texts(ts, j),
        }),
        all_numbers(ts.push(t), j) == (match t {
            TokenView::Number(k, n) => if k == j {
                all_numbers(ts, j).push(n)
            } else {
                all_numbers(ts, j)
            },
            _ => all_numbers(ts, j),
        }),
        switched(ts.push(t), j) == (match t {
            TokenView::Switch(k) => k == j || switched(ts, j),
            _ => switched(ts, j),
        }),
{
    assert(ts.push(t).drop_last() =~= ts);
    assert(ts.push(t).last() == t);
}

/// A token came from the arguments: its flag's name stands at some place, and
/// for a value-taking flag the value is the argument after it.
pub open spec fn token_given(table: Seq<FlagView>, raw: Seq<Seq<char>>, x: TokenView) -> bool {
    match x {
        TokenView::Text(k, v) => exists|j: int|
            0 <= j && j + 1 < raw.len() && #[trigger] raw[j] == table[k as int].0 && raw[j + 1]
                == v,
        TokenView::Number(k, n) => exists|j: int|
            0 <= j && j + 1 < raw.len() && #[trigger] raw[j] == table[k as int].0
                && parse_u64_spec(raw[j + 1]) == Some(n),
        TokenView::Switch(k) => exists|j: int| 0 <= j < raw.len() && #[trigger] raw[j] == table[k as int].0,
    }
}

/// Every token that the scan yields came from the arguments.
pub proof fn lemma_tokens_given(table: Seq<FlagView>, raw: Seq<Seq<char>>, i: nat)
    requires
        scan_spec(table, raw, i) is Tokens,
    ensures
        forall|m: int|
            0 <= m < scan_spec(table, raw, i)->Tokens_0.len() ==> token_given(
                table,
                raw,
                #[trigger] scan_spec(table, raw, i)->Tokens_0[m],
            ),
    decreases raw.len() - i,
{
    if i < raw.len() {
        lemma_find_flag_name(table, raw[i as int], 0);
        let kk = find_flag(table, raw[i as int], 0)->0;
        let f = table[kk as int];
        let ts = scan_spec(table, raw, i)->Tokens_0;
        match f.1 {
            FlagKind::Switch => {
                lemma_tokens_given(table, raw, i + 1);
                let us = scan_spec(table, raw, i + 1)->Tokens_0;
                assert(ts == seq![TokenView::Switch(kk)] + us);
                assert forall|m: int| 0 <= m < ts.len() implies token_given(
                    table,
                    raw,
                    #[trigger] ts[m],
                ) by {
                    if m == 0 {
                        assert(raw[i as int] == table[kk as int].0);
                    } else {
                        assert(ts[m] == us[m - 1]);
                    }
                }
            },
            FlagKind::Text => {
                lemma_tokens_given(table, raw, i + 2);
                let us = scan_spec(table, raw, i + 2)->Tokens_0;
                let x = TokenView::Text(kk, raw[i + 1 as int]);
                assert(ts == seq![x] + us);
                assert forall|m: int| 0 <= m < ts.len() implies token_given(
                    table,
                    raw,
                    #[trigger] ts[m],
                ) by {
                    if m == 0 {
                        assert(raw[i as int] == table[kk as int].0);
                    } else {
                        assert(ts[m] == us[m - 1]);
                    }
                }
            },
            FlagKind::Number => {
                lemma_tokens_given(table, raw, i + 2);
                let us = scan_spec(table, raw, i + 2)->Tokens_0;
                let x = TokenView::Number(kk, parse_u64_spec(raw[i + 1 as int])->0);
                assert(ts == seq![x] + us);
                assert forall|m: int| 0 <= m < ts.len() implies token_given(
                    table,
                    raw,
                    #[trigger] ts[m],
                ) by {
                    if m == 0 {
                        assert(raw[i as int] == table[kk as int].0);
                    } else {
                        assert(ts[m] == us[m - 1]);
                    }
                }
            },
            FlagKind::Help => {},
        }
    }
}

/// The value that stands for a text flag is the value of one of its tokens.
pub proof fn lemma_last_text_member(ts: Seq<TokenView>, k: nat)
    ensures
        last_text(ts, k) is Some ==> exists|m: int|
            0 <= m < ts.len() && #[trigger] ts[m] == TokenView::Text(k, last_text(ts, k)->0),
    decreases ts.len(),
{
    if ts.len() > 0 {
        lemma_last_text_member(ts.drop_last(), k);
        if last_text(ts, k) is Some {
            let d = last_text(ts, k)->0;
            if ts.last() != TokenView::Text(k, d) {
                let p = ts.drop_last();
                let m = choose|m: int| 0 <= m < p.len() && #[trigger] p[m] == TokenView::Text(k, d);
                assert(ts[m] == p[m]);
            } else {
                assert(ts[ts.len() - 1] == ts.last());
            }
        }
    }
}

/// Each value of a list flag is the value of one of its tokens.
pub proof fn lemma_all_members(ts: Seq<TokenView>, k: nat)
    ensures
        forall|q: int|
            0 <= q < all_numbers(ts, k).len() ==> exists|m: int|
                0 <= m < ts.len() && ts[m] == TokenView::Number(k, #[trigger] all_numbers(ts, k)[q]),
        forall|q: int|
            0 <= q < all_texts(ts, k).len() ==> exists|m: int|
                0 <= m < ts.len() && ts[m] == TokenView::Text(k, #[trigger] all_texts(ts, k)[q]),
    decreases ts.len(),
{
    if ts.len() > 0 {
        let p = ts.drop_last();
        lemma_all_members(p, k);
        assert forall|q: int| 0 <= q < all_numbers(ts, k).len() implies exists|m: int|
            0 <= m < ts.len() && ts[m] == TokenView::Number(k, #[trigger] all_numbers(ts, k)[q]) by {
            if q < all_numbers(p, k).len() {
                assert(all_numbers(ts, k)[q] == all_numbers(p, k)[q]);
                let m = choose|m: int|
                    0 <= m < p.len() && p[m] == TokenView::Number(k, #[trigger] all_numbers(p, k)[q]);
                assert(ts[m] == p[m]);
            } else {
                assert(ts[ts.len() - 1] == ts.last());
            }
        }
        assert forall|q: int| 0 <= q < all_texts(ts, k).len() implies exists|m: int|
            0 <= m < ts.len() && ts[m] == TokenView::Text(k, #[trigger] all_texts(ts, k)[q]) by {
            if q < all_texts(p, k).len() {
                assert(all_texts(ts, k)[q] == all_texts(p, k)[q]);
                let m = choose|m: int|
                    0 <= m < p.len() && p[m] == TokenView::Text(k, #[trigger] all_texts(p, k)[q]);
                assert(ts[m] == p[m]);
            } else {
                assert(ts[ts.len() - 1] == ts.last());
            }
        }
    }
}

/// The value that a scan keeps for a text flag is the argument that follows
/// some occurrence of that flag's name.
pub proof fn lemma_last_text_given(table: Seq<FlagView>, raw: Seq<Seq<char>>, k: nat)
    requires
        scan_spec(table, raw, 0) is Tokens,
        last_text(scan_spec(table, raw, 0)->Tokens_0, k) is Some,
    ensures
        exists|j: int|
            0 <= j && j + 1 < raw.len() && #[trigger] raw[j] == table[k as int].0 && raw[j + 1]
                == last_text(scan_spec(table, raw, 0)->Tokens_0, k)->0,
{
    let ts = scan_spec(table, raw, 0)->Tokens_0;
    lemma_tokens_given(table, raw, 0);
    lemma_last_text_member(ts, k);
    let m = choose|m: int| 0 <= m < ts.len() && #[trigger] ts[m] == TokenView::Text(k, last_text(ts, k)->0);
    assert(token_given(table, raw, ts[m]));
}

/// Each number that a scan collects for a list flag is the parsed argument
/// that follows some occurrence of that flag's name.
pub proof fn lemma_all_numbers_given(table: Seq<FlagView>, raw: Seq<Seq<char>>, k: nat, q: int)
    requires
        scan_spec(table, raw, 0) is Tokens,
        0 <= q < all_numbers(scan_spec(table, raw, 0)->Tokens_0, k).len(),
    ensures
        exists|j: int|
            0 <= j && j + 1 < raw.len() && #[trigger] raw[j] == table[k as int].0 && parse_u64_spec(
                raw[j + 1],
            ) == Some(all_numbers(scan_spec(table, raw, 0)->Tokens_0, k)[q]),
{
    let ts = scan_spec(table, raw, 0)->Tokens_0;
    lemma_tokens_given(table, raw, 0);
    lemma_all_members(ts, k);
    let m = choose|m: int| 0 <= m < ts.len() && ts[m] == TokenView::Number(k, #[trigger] all_numbers(ts, k)[q]);
    assert(token_given(table, raw, ts[m]));
}

/// A help flag ends the scan at once, whatever follows it.
pub proof fn law_help_stops_scan(table: Seq<FlagView>, a: Seq<char>, rest: Seq<Seq<char>>)
    requires
        find_flag(table, a, 0) matches Some(k) && k < table.len() && table[k as int].1
            == FlagKind::Help,
    ensures
        scan_spec(table, seq![a] + rest, 0) == ScanView::Help,
{
    assert((seq![a] + rest)[0] == a);
}

/// An argument that no flag has ends the scan with the message that names it.
pub proof fn law_unknown_argument(table: Seq<FlagView>, a: Seq<char>, rest: Seq<Seq<char>>)
    requires
        find_flag(table, a, 0) is None,
    ensures
        scan_spec(table, seq![a] + rest, 0) == ScanView::Fail(unknown_message(a)),
{
    assert((seq![a] + rest)[0] == a);
}

/// A numeric flag followed by the decimal rendering of a number reads back
/// that very number.
pub proof fn law_number_flag_reads_decimal(table: Seq<FlagView>, a: Seq<char>, n: u64)
    requires
        find_flag(table, a, 0) matches Some(k) && k < table.len() && table[k as int].1
            == FlagKind::Number,
    ensures
        scan_spec(table, seq![a, decimal_spec(n as nat)], 0) == ScanView::Tokens(
            seq![TokenView::Number(find_flag(table, a, 0)->0, n)],
        ),
{
    let raw = seq![a, decimal_spec(n as nat)];
    lemma_parse_decimal(n);
    let k = find_flag(table, a, 0)->0;
    assert(scan_spec(table, raw, 2) == ScanView::Tokens(Seq::<TokenView>::empty()));
    assert(seq![TokenView::Number(k, n)] + Seq::<TokenView>::empty() =~= seq![
        TokenView::Number(k, n),
    ]);
}

/// When a text flag is given more than once, the last value stands.
pub proof fn law_last_value_stands(ts: Seq<TokenView>, k: nat, v: Seq<char>)
    ensures
        last_text(ts.push(TokenView::Text(k, v)), k) == Some(v),
{
}

/// Values of a repeated flag are all kept, in the order given.
pub proof fn law_values_accumulate(ts: Seq<TokenView>, k: nat, n: u64, v: Seq<char>)
    ensures
        all_numbers(ts.push(TokenView::Number(k, n)), k) == all_numbers(ts, k).push(n),
        all_texts(ts.push(TokenView::Text(k, v)), k) == all_texts(ts, k).push(v),
{
    assert(ts.push(TokenView::Number(k, n)).drop_last() =~= ts);
    assert(ts.push(TokenView::Text(k, v)).drop_last() =~= ts);
}

} // verus!
