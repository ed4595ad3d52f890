//! The messages that a run sends back while it executes checks, their text
//! form, and what the runner sends for each check it runs.

use std::collections::HashSet;

use vstd::prelude::*;

use crate::checks::{Check, CheckView};
use crate::text::{
    all_digits, chars_of, decimal, digit_char, digit_value, digits_value, is_digit, parse_u64, parse_unsigned,
    parse_usize, string_of, strip_prefix_chars, sub_chars, u64_to_decimal, unsigned_digits,
    usize_to_decimal,
};

verus! {

broadcast use vstd::std_specs::hash::group_hash_axioms;

/// One message of a run.
#[derive(Debug)]
pub enum RunMessage {
    /// A line for the shared output pane.
    Out { line: String },
    /// A line of the log of check `idx`.
    Log { idx: usize, line: String },
    /// The new status of check `idx`, by name.
    Status { idx: usize, value: String },
    /// How long check `idx` ran, in milliseconds.
    Elapsed { idx: usize, ms: u64 },
    /// Check `idx` waits for a manual verdict.
    Manual { idx: usize },
    /// Audited check `idx` passed.
    AuditedPass { idx: usize },
    /// The run is over.
    Done,
}

/// A run message as mathematical values.
pub enum RunMessageView {
    Out { line: Seq<char> },
    Log { idx: usize, line: Seq<char> },
    Status { idx: usize, value: Seq<char> },
    Elapsed { idx: usize, ms: u64 },
    Manual { idx: usize },
    AuditedPass { idx: usize },
    Done,
}

impl View for RunMessage {
    type V = RunMessageView;

    open spec fn view(&self) -> RunMessageView {
        match self {
            RunMessage::Out { line } => RunMessageView::Out { line: line@ },
            RunMessage::Log { idx, line } => RunMessageView::Log { idx: *idx, line: line@ },
            RunMessage::Status { idx, value } => RunMessageView::Status { idx: *idx, value: value@ },
            RunMessage::Elapsed { idx, ms } => RunMessageView::Elapsed { idx: *idx, ms: *ms },
            RunMessage::Manual { idx } => RunMessageView::Manual { idx: *idx },
            RunMessage::AuditedPass { idx } => RunMessageView::AuditedPass { idx: *idx },
            RunMessage::Done => RunMessageView::Done,
        }
    }
}

impl DeepView for RunMessage {
    type V = RunMessageView;

    open spec fn deep_view(&self) -> RunMessageView {
        self@
    }
}

/// The text of a message: a tag, a colon, then its fields separated by
/// colons; numbers in decimal.
pub open spec fn encode_message(m: RunMessageView) -> Seq<char> {
    match m {
        RunMessageView::Out { line } => "OUT:"@ + line,
        RunMessageView::Log { idx, line } => "LOG:"@ + decimal(idx as nat) + ":"@ + line,
        RunMessageView::Status { idx, value } => "STATUS:"@ + decimal(idx as nat) + ":"@ + value,
        RunMessageView::Elapsed { idx, ms } => "ELAPSED:"@ + decimal(idx as nat) + ":"@ + decimal(
            ms as nat,
        ),
        RunMessageView::Manual { idx } => "MANUAL:"@ + decimal(idx as nat) + ":prompt"@,
        RunMessageView::AuditedPass { idx } => "AUDITED_PASS:"@ + decimal(idx as nat),
        RunMessageView::Done => "DONE:"@,
    }
}

/// `s` split at its first colon (what `splitn(2, ':')` yields): the part
/// before it, and the part after it when there is a colon.
pub open spec fn split_colon(s: Seq<char>) -> (Seq<char>, Option<Seq<char>>)
    decreases s.len(),
{
    if s.len() == 0 {
        (s, None)
    } else if s[0] == ':' {
        (Seq::empty(), Some(s.drop_first()))
    } else {
        let (a, b) = split_colon(s.drop_first());
        (seq![s[0]] + a, b)
    }
}

/// A check index written in decimal.
pub open spec fn read_index(s: Seq<char>) -> Option<usize> {
    match parse_unsigned(s, usize::MAX as nat) {
        Some(n) => Some(n as usize),
        None => None,
    }
}

/// The message that a text stands for, read as the run's receiver reads it:
/// by its tag, the first colon after the tag separating the index from the
/// rest; `None` for a text that the receiver ignores.
pub open spec fn decode_message(s: Seq<char>) -> Option<RunMessageView> {
    if "OUT:"@.is_prefix_of(s) {
        Some(RunMessageView::Out { line: s.skip(4) })
    } else if "LOG:"@.is_prefix_of(s) {
        let (a, b) = split_colon(s.skip(4));
        match (read_index(a), b) {
            (Some(idx), Some(line)) => Some(RunMessageView::Log { idx, line }),
            _ => None,
        }
    } else if "STATUS:"@.is_prefix_of(s) {
        let (a, b) = split_colon(s.skip(7));
        match (read_index(a), b) {
            (Some(idx), Some(value)) => Some(RunMessageView::Status { idx, value }),
            _ => None,
        }
    } else if "ELAPSED:"@.is_prefix_of(s) {
        let (a, b) = split_colon(s.skip(8));
        match b {
            Some(t) => match (read_index(a), parse_unsigned(t, u64::MAX as nat)) {
                (Some(idx), Some(ms)) => Some(RunMessageView::Elapsed { idx, ms: ms as u64 }),
                _ => None,
            },
            None => None,
        }
    } else if "MANUAL:"@.is_prefix_of(s) {
        let (a, b) = split_colon(s.skip(7));
        match read_index(a) {
            Some(idx) => Some(RunMessageView::Manual { idx }),
            None => None,
        }
    } else if "AUDITED_PASS:"@.is_prefix_of(s) {
        match read_index(s.skip(13)) {
            Some(idx) => Some(RunMessageView::AuditedPass { idx }),
            None => None,
        }
    } else if "DONE:"@.is_prefix_of(s) {
        Some(RunMessageView::Done)
    } else {
        None
    }
}

/// The position of the first colon of `s`, or its length when it has none.
fn colon_position(s: &Vec<char>) -> (k: usize)
    ensures
        k <= s@.len(),
        forall|i: int| 0 <= i < k ==> s@[i] != ':',
        k < s@.len() ==> s@[k as int] == ':',
{
    let mut k: usize = 0;
    while k < s.len() && s[k] != ':'
        invariant
            k <= s@.len(),
            forall|i: int| 0 <= i < k ==> s@[i] != ':',
        decreases s@.len() - k,
    {
        k += 1;
    }
    k
}

proof fn lemma_split_colon(s: Seq<char>, k: int)
    requires
        0 <= k <= s.len(),
        forall|i: int| 0 <= i < k ==> s[i] != ':',
        k < s.len() ==> s[k] == ':',
    ensures
        split_colon(s) == if k < s.len() {
            (s.take(k), Some(s.skip(k + 1)))
        } else {
            (s, None::<Seq<char>>)
        },
    decreases k,
{
    if k == 0 {
        if s.len() > 0 {
            assert(s.take(0) =~= Seq::<char>::empty());
            assert(s.drop_first() =~= s.skip(1));
        }
    } else {
        let t = s.drop_first();
        assert forall|i: int| 0 <= i < k - 1 implies t[i] != ':' by {
            assert(t[i] == s[i + 1]);
        }
        if k < s.len() {
            assert(t[k - 1] == s[k]);
        }
        lemma_split_colon(t, k - 1);
        if k < s.len() {
            assert(seq![s[0]] + t.take(k - 1) =~= s.take(k));
            assert(t.skip(k) =~= s.skip(k + 1));
        } else {
            assert(seq![s[0]] + t =~= s);
        }
    }
}

/// `s` split at its first colon.
fn split_first_colon(s: &Vec<char>) -> (out: (Vec<char>, Option<Vec<char>>))
    ensures
        split_colon(s@) == (out.0@, match out.1 {
            Some(b) => Some(b@),
            None => None::<Seq<char>>,
        }),
{
    let k = colon_position(s);
    proof {
        lemma_split_colon(s@, k as int);
    }
    if k < s.len() {
        (sub_chars(s, 0, k), Some(sub_chars(s, k + 1, s.len())))
    } else {
        proof {
            assert(s@.subrange(0, s@.len() as int) =~= s@);
        }
        (sub_chars(s, 0, s.len()), None)
    }
}

impl RunMessage {
    /// The text of the message.
    pub fn encode(&self) -> (out: String)
        ensures
            out@ == encode_message(self@),
    {
        match self {
            RunMessage::Out { line } => {
                let mut s = String::from_str("OUT:");
                s.append(line.as_str());
                s
            },
            RunMessage::Log { idx, line } => {
                let mut s = String::from_str("LOG:");
                s.append(usize_to_decimal(*idx).as_str());
                s.append(":");
                s.append(line.as_str());
                s
            },
            RunMessage::Status { idx, value } => {
                let mut s = String::from_str("STATUS:");
                s.append(usize_to_decimal(*idx).as_str());
                s.append(":");
                s.append(value.as_str());
                s
            },
            RunMessage::Elapsed { idx, ms } => {
                let mut s = String::from_str("ELAPSED:");
                s.append(usize_to_decimal(*idx).as_str());
                s.append(":");
                s.append(u64_to_decimal(*ms).as_str());
                s
            },
            RunMessage::Manual { idx } => {
                let mut s = String::from_str("MANUAL:");
                s.append(usize_to_decimal(*idx).as_str());
                s.append(":prompt");
                s
            },
            RunMessage::AuditedPass { idx } => {
                let mut s = String::from_str("AUDITED_PASS:");
                s.append(usize_to_decimal(*idx).as_str());
                s
            },
            RunMessage::Done => String::from_str("DONE:"),
        }
    }

    /// The message that a text stands for; `None` for a text that the
    /// receiver ignores.
    pub fn decode(m: &str) -> (out: Option<RunMessage>)
        ensures
            match out {
                Some(msg) => decode_message(m@) == Some(msg@),
                None => decode_message(m@) is None,
            },
    {
        proof {
            reveal_strlit("OUT:");
            reveal_strlit("LOG:");
            reveal_strlit("STATUS:");
            reveal_strlit("ELAPSED:");
            reveal_strlit("MANUAL:");
            reveal_strlit("AUDITED_PASS:");
            reveal_strlit("DONE:");
        }
        let cs = chars_of(m);
        if let Some(rest) = strip_prefix_chars(&cs, &chars_of("OUT:")) {
            return Some(RunMessage::Out { line: string_of(&rest) });
        }
        if let Some(rest) = strip_prefix_chars(&cs, &chars_of("LOG:")) {
            let (a, b) = split_first_colon(&rest);
            return match (parse_usize(string_of(&a).as_str()), b) {
                (Some(idx), Some(line)) => Some(RunMessage::Log { idx, line: string_of(&line) }),
                _ => None,
            };
        }
        if let Some(rest) = strip_prefix_chars(&cs, &chars_of("STATUS:")) {
            let (a, b) = split_first_colon(&rest);
            return match (parse_usize(string_of(&a).as_str()), b) {
                (Some(idx), Some(value)) => Some(
                    RunMessage::Status { idx, value: string_of(&value) },
                ),
                _ => None,
            };
        }
        if let Some(rest) = strip_prefix_chars(&cs, &chars_of("ELAPSED:")) {
            let (a, b) = split_first_colon(&rest);
            return match b {
                Some(t) => match (parse_usize(string_of(&a).as_str()), parse_u64(string_of(&t).as_str())) {
                    (Some(idx), Some(ms)) => Some(RunMessage::Elapsed { idx, ms }),
                    _ => None,
                },
                None => None,
            };
        }
        if let Some(rest) = strip_prefix_chars(&cs, &chars_of("MANUAL:")) {
            let (a, _b) = split_first_colon(&rest);
            return match parse_usize(string_of(&a).as_str()) {
                Some(idx) => Some(RunMessage::Manual { idx }),
                None => None,
            };
        }
        if let Some(rest) = strip_prefix_chars(&cs, &chars_of("AUDITED_PASS:")) {
            return match parse_usize(string_of(&rest).as_str()) {
                Some(idx) => Some(RunMessage::AuditedPass { idx }),
                None => None,
            };
        }
        if let Some(_rest) = strip_prefix_chars(&cs, &chars_of("DONE:")) {
            return Some(RunMessage::Done);
        }
        None
    }
}


// ── Runner ─────────────────────────────────────────────────────────────────

/// Whether a run executes check `idx`: it is selected, and it is not an
/// audited check that has passed before.
pub open spec fn runs_check(check: CheckView, selected: bool, audited_passed: Set<usize>, idx: usize) -> bool {
    selected && !(check.audited && audited_passed.contains(idx))
}

/// Whether a run executes check `idx`.
pub fn should_run(check: &Check, selected: bool, audited_passed: &HashSet<usize>, idx: usize) -> (r: bool)
    ensures
        r == runs_check(check@, selected, audited_passed@, idx),
{
    selected && !(check.audited && audited_passed.contains(&idx))
}

/// The first check from `from` on that a run executes: checks run one after
/// the other in their order, skipping those it does not execute.
pub open spec fn first_to_run(
    checks: Seq<CheckView>,
    selected: Seq<bool>,
    audited_passed: Set<usize>,
    from: int,
) -> Option<usize>
    decreases checks.len() - from,
{
    if from < 0 || from >= checks.len() {
        None
    } else if runs_check(checks[from], selected[from], audited_passed, from as usize) {
        Some(from as usize)
    } else {
        first_to_run(checks, selected, audited_passed, from + 1)
    }
}

/// The check that a run executes next, looking from `from` on.
pub fn next_to_run(checks: &Vec<Check>, selected: &Vec<bool>, audited_passed: &HashSet<usize>, from: usize) -> (r:
    Option<usize>)
    requires
        selected@.len() == checks@.len(),
    ensures
        r == first_to_run(checks.deep_view(), selected@, audited_passed@, from as int),
{
    let mut i = from;
    while i < checks.len()
        invariant
            from <= i,
            selected@.len() == checks@.len(),
            first_to_run(checks.deep_view(), selected@, audited_passed@, from as int) == first_to_run(
                checks.deep_view(),
                selected@,
                audited_passed@,
                i as int,
            ),
        decreases checks.len() - i,
    {
        proof {
            assert(checks.deep_view()[i as int] == checks@[i as int]@);
        }
        if should_run(&checks[i], selected[i], audited_passed, i) {
            return Some(i);
        }
        i += 1;
    }
    None
}

/// The messages that announce the start of check `idx`.
pub open spec fn start_messages_of(idx: usize, check: CheckView) -> Seq<RunMessageView> {
    seq![
        RunMessageView::Status { idx, value: "Running"@ },
        RunMessageView::Log { idx, line: "▶ "@ + check.name },
    ]
}

/// The messages that announce the start of check `idx`.
pub fn start_messages(idx: usize, check: &Check) -> (out: Vec<RunMessage>)
    ensures
        out.deep_view() == start_messages_of(idx, check@),
{
    let mut out: Vec<RunMessage> = Vec::new();
    out.push(RunMessage::Status { idx, value: String::from_str("Running") });
    let mut line = String::from_str("▶ ");
    line.append(check.name.as_str());
    out.push(RunMessage::Log { idx, line });
    proof {
        assert(out.deep_view() =~= start_messages_of(idx, check@));
    }
    out
}

/// Each output line of check `idx`, for its log and for the output pane.
pub open spec fn line_messages(idx: usize, lines: Seq<Seq<char>>) -> Seq<RunMessageView>
    decreases lines.len(),
{
    if lines.len() == 0 {
        Seq::empty()
    } else {
        line_messages(idx, lines.drop_last()) + seq![
            RunMessageView::Log { idx, line: lines.last() },
            RunMessageView::Out { line: lines.last() },
        ]
    }
}

/// What running a check gave: its output lines and whether it exited with
/// success, or the reason it could not run.
pub open spec fn outcome_view(o: Result<(Vec<String>, bool), String>) -> Result<(Seq<Seq<char>>, bool), Seq<char>> {
    match o {
        Ok((lines, ok)) => Ok((lines.deep_view(), ok)),
        Err(e) => Err(e@),
    }
}

/// The messages that follow the run of check `idx`, and whether the run stops
/// there to wait for a manual verdict. The output lines go to the log and to
/// the pane (an error as one `Error: ` line); a manual check whose command
/// ran to its end, whatever its exit status, asks for a verdict (first
/// announcing it by status when `announce_await`); any other check reports
/// `Passed` or `Failed`, and an audited check that succeeded reports its pass.
pub open spec fn result_messages_of(
    idx: usize,
    check: CheckView,
    outcome: Result<(Seq<Seq<char>>, bool), Seq<char>>,
    announce_await: bool,
) -> (Seq<RunMessageView>, bool) {
    let (body, ok) = match outcome {
        Ok((lines, ok)) => (line_messages(idx, lines), ok),
        Err(e) => (
            seq![
                RunMessageView::Log { idx, line: "Error: "@ + e },
                RunMessageView::Out { line: "Error: "@ + e },
            ],
            false,
        ),
    };
    if check.manual && outcome is Ok {
        let ask = if announce_await {
            seq![RunMessageView::Status { idx, value: "AwaitManual"@ }]
        } else {
            Seq::empty()
        };
        (body + ask + seq![RunMessageView::Manual { idx }], true)
    } else {
        let status = RunMessageView::Status {
            idx,
            value: if ok {
                "Passed"@
            } else {
                "Failed"@
            },
        };
        let audit = if check.audited && ok {
            seq![RunMessageView::AuditedPass { idx }]
        } else {
            Seq::empty()
        };
        (body + seq![status] + audit, false)
    }
}

/// The messages that follow the run of check `idx`, and whether the run stops
/// to wait for a manual verdict.
pub fn result_messages(
    idx: usize,
    check: &Check,
    outcome: &Result<(Vec<String>, bool), String>,
    announce_await: bool,
) -> (out: (Vec<RunMessage>, bool))
    ensures
        (out.0.deep_view(), out.1) == result_messages_of(idx, check@, outcome_view(*outcome), announce_await),
{
    let mut msgs: Vec<RunMessage> = Vec::new();
    let ok = match outcome {
        Ok((lines, ok)) => {
            let mut i: usize = 0;
            while i < lines.len()
                invariant
                    i <= lines@.len(),
                    msgs.deep_view() == line_messages(idx, lines.deep_view().take(i as int)),
                decreases lines@.len() - i,
            {
                let ghost before = msgs.deep_view();
                msgs.push(RunMessage::Log { idx, line: lines[i].clone() });
                msgs.push(RunMessage::Out { line: lines[i].clone() });
                proof {
                    let t = lines.deep_view().take(i + 1);
                    assert(t.drop_last() =~= lines.deep_view().take(i as int));
                    assert(t.last() == lines@[i as int]@);
                    assert(msgs.deep_view() =~= before + seq![
                        RunMessageView::Log { idx, line: t.last() },
                        RunMessageView::Out { line: t.last() },
                    ]);
                }
                i += 1;
            }
            proof {
                assert(lines.deep_view().take(lines@.len() as int) =~= lines.deep_view());
            }
            *ok
        },
        Err(e) => {
            let mut msg = String::from_str("Error: ");
            msg.append(e.as_str());
            let copy = msg.clone();
            msgs.push(RunMessage::Log { idx, line: msg });
            msgs.push(RunMessage::Out { line: copy });
            proof {
                assert(msgs.deep_view() =~= seq![
                    RunMessageView::Log { idx, line: "Error: "@ + e@ },
                    RunMessageView::Out { line: "Error: "@ + e@ },
                ]);
            }
            false
        },
    };
    let ghost body = msgs.deep_view();
    let ran = match outcome {
        Ok(_) => true,
        Err(_) => false,
    };
    if check.manual && ran {
        if announce_await {
            msgs.push(RunMessage::Status { idx, value: String::from_str("AwaitManual") });
        }
        msgs.push(RunMessage::Manual { idx });
        proof {
            let ask = if announce_await {
                seq![RunMessageView::Status { idx, value: "AwaitManual"@ }]
            } else {
                Seq::empty()
            };
            assert(msgs.deep_view() =~= body + ask + seq![RunMessageView::Manual { idx }]);
        }
        (msgs, true)
    } else {
        let value = if ok {
            String::from_str("Passed")
        } else {
            String::from_str("Failed")
        };
        msgs.push(RunMessage::Status { idx, value });
        if check.audited && ok {
            msgs.push(RunMessage::AuditedPass { idx });
        }
        proof {
            let status = RunMessageView::Status {
                idx,
                value: if ok {
                    "Passed"@
                } else {
                    "Failed"@
                },
            };
            let audit = if check.audited && ok {
                seq![RunMessageView::AuditedPass { idx }]
            } else {
                Seq::empty()
            };
            assert(msgs.deep_view() =~= body + seq![status] + audit);
        }
        (msgs, false)
    }
}

// ── Round trip ─────────────────────────────────────────────────────────────

pub(crate) proof fn lemma_decimal(n: nat)
    ensures
        all_digits(decimal(n)),
        digits_value(decimal(n)) == n,
        forall|i: int| 0 <= i < decimal(n).len() ==> #[trigger] decimal(n)[i] != ':',
        decimal(n)[0] != '+',
    decreases n,
{
    if n < 10 {
        lemma_digit_char(n);
        assert(decimal(n) == seq![digit_char(n)]);
        assert(decimal(n).drop_last() =~= Seq::<char>::empty());
        assert(digits_value(Seq::<char>::empty()) == 0);
        assert(digits_value(decimal(n)) == digits_value(decimal(n).drop_last()) * 10 + digit_value(
            decimal(n).last(),
        ));
    } else {
        lemma_digit_char(n % 10);
        lemma_decimal(n / 10);
        let d = decimal(n / 10);
        assert(decimal(n) == d.push(digit_char(n % 10)));
        assert(decimal(n).drop_last() =~= d);
        assert forall|i: int| 0 <= i < decimal(n).len() implies is_digit(#[trigger] decimal(n)[i]) by {
            if i < d.len() {
                assert(decimal(n)[i] == d[i]);
            }
        }
        assert forall|i: int| 0 <= i < decimal(n).len() implies #[trigger] decimal(n)[i] != ':' by {
            if i < d.len() {
                assert(decimal(n)[i] == d[i]);
            }
        }
        assert(decimal(n)[0] == d[0]);
        assert(decimal(n).last() == digit_char(n % 10));
        assert(n == (n / 10) * 10 + n % 10);
        assert(digits_value(decimal(n)) == digits_value(d) * 10 + digit_value(digit_char(n % 10)));
    }
}

proof fn lemma_digit_char(d: nat)
    requires
        d < 10,
    ensures
        is_digit(digit_char(d)),
        digit_value(digit_char(d)) == d,
        digit_char(d) != ':',
        digit_char(d) != '+',
{
}

pub(crate) proof fn lemma_read_decimal(n: nat, max: nat)
    requires
        n <= max,
    ensures
        parse_unsigned(decimal(n), max) == Some(n),
{
    lemma_decimal(n);
    assert(unsigned_digits(decimal(n)) == decimal(n));
}

proof fn lemma_split_decimal(n: nat, rest: Seq<char>)
    ensures
        split_colon(decimal(n) + ":"@ + rest) == (decimal(n), Some(rest)),
{
    reveal_strlit(":");
    lemma_decimal(n);
    let d = decimal(n);
    let s = d + ":"@ + rest;
    assert forall|i: int| 0 <= i < d.len() implies s[i] != ':' by {
        assert(s[i] == d[i]);
    }
    assert(s[d.len() as int] == ':');
    lemma_split_colon(s, d.len() as int);
    assert(s.take(d.len() as int) =~= d);
    assert(s.skip(d.len() as int + 1) =~= rest);
}

proof fn lemma_not_prefix(p: Seq<char>, s: Seq<char>)
    requires
        p.len() > 0,
        s.len() > 0,
        p[0] != s[0],
    ensures
        !p.is_prefix_of(s),
{
    if p.is_prefix_of(s) {
        assert(s.subrange(0, p.len() as int)[0] == s[0]);
    }
}

/// Reading the text of any message gives back that message.
pub proof fn lemma_message_round_trip(m: RunMessageView)
    ensures
        decode_message(encode_message(m)) == Some(m),
{
    reveal_strlit("OUT:");
    reveal_strlit("LOG:");
    reveal_strlit("STATUS:");
    reveal_strlit("ELAPSED:");
    reveal_strlit("MANUAL:");
    reveal_strlit("AUDITED_PASS:");
    reveal_strlit("DONE:");
    reveal_strlit(":prompt");
    let s = encode_message(m);
    match m {
        RunMessageView::Out { line } => {
            assert("OUT:"@.is_prefix_of(s));
            assert(s.skip(4) =~= line);
        },
        RunMessageView::Log { idx, line } => {
            assert(s[0] == 'L');
            lemma_not_prefix("OUT:"@, s);
            assert("LOG:"@.is_prefix_of(s));
            assert(s.skip(4) =~= decimal(idx as nat) + ":"@ + line);
            lemma_split_decimal(idx as nat, line);
            lemma_read_decimal(idx as nat, usize::MAX as nat);
        },
        RunMessageView::Status { idx, value } => {
            assert(s[0] == 'S');
            lemma_not_prefix("OUT:"@, s);
            lemma_not_prefix("LOG:"@, s);
            assert("STATUS:"@.is_prefix_of(s));
            assert(s.skip(7) =~= decimal(idx as nat) + ":"@ + value);
            lemma_split_decimal(idx as nat, value);
            lemma_read_decimal(idx as nat, usize::MAX as nat);
        },
        RunMessageView::Elapsed { idx, ms } => {
            assert(s[0] == 'E');
            lemma_not_prefix("OUT:"@, s);
            lemma_not_prefix("LOG:"@, s);
            lemma_not_prefix("STATUS:"@, s);
            assert("ELAPSED:"@.is_prefix_of(s));
            assert(s.skip(8) =~= decimal(idx as nat) + ":"@ + decimal(ms as nat));
            lemma_split_decimal(idx as nat, decimal(ms as nat));
            lemma_read_decimal(idx as nat, usize::MAX as nat);
            lemma_read_decimal(ms as nat, u64::MAX as nat);
        },
        RunMessageView::Manual { idx } => {
            assert(s[0] == 'M');
            lemma_not_prefix("OUT:"@, s);
            lemma_not_prefix("LOG:"@, s);
            lemma_not_prefix("STATUS:"@, s);
            lemma_not_prefix("ELAPSED:"@, s);
            assert("MANUAL:"@.is_prefix_of(s));
            reveal_strlit(":");
            assert(":prompt"@ =~= ":"@ + "prompt"@) by {
                reveal_strlit("prompt");
            }
            assert(s.skip(7) =~= decimal(idx as nat) + ":"@ + "prompt"@);
            lemma_split_decimal(idx as nat, "prompt"@);
            lemma_read_decimal(idx as nat, usize::MAX as nat);
        },
        RunMessageView::AuditedPass { idx } => {
            assert(s[0] == 'A');
            lemma_not_prefix("OUT:"@, s);
            lemma_not_prefix("LOG:"@, s);
            lemma_not_prefix("STATUS:"@, s);
            lemma_not_prefix("ELAPSED:"@, s);
            lemma_not_prefix("MANUAL:"@, s);
            assert("AUDITED_PASS:"@.is_prefix_of(s));
            assert(s.skip(13) =~= decimal(idx as nat));
            lemma_read_decimal(idx as nat, usize::MAX as nat);
        },
        RunMessageView::Done => {
            assert(s[0] == 'D');
            lemma_not_prefix("OUT:"@, s);
            lemma_not_prefix("LOG:"@, s);
            lemma_not_prefix("STATUS:"@, s);
            lemma_not_prefix("ELAPSED:"@, s);
            lemma_not_prefix("MANUAL:"@, s);
            lemma_not_prefix("AUDITED_PASS:"@, s);
            assert("DONE:"@.is_prefix_of(s));
        },
    }
}

} // verus!
