use autocheck::checks::{Check, Cmd};
use autocheck::protocol::{next_to_run, result_messages, should_run, start_messages, RunMessage};
use std::collections::HashSet;

fn encode_all(v: &[RunMessage]) -> Vec<String> {
    v.iter().map(|m| m.encode()).collect()
}

#[test]
fn encodings() {
    assert_eq!(RunMessage::Out { line: "x:y".into() }.encode(), "OUT:x:y");
    assert_eq!(RunMessage::Log { idx: 12, line: "a:b".into() }.encode(), "LOG:12:a:b");
    assert_eq!(RunMessage::Status { idx: 0, value: "Passed".into() }.encode(), "STATUS:0:Passed");
    assert_eq!(RunMessage::Elapsed { idx: 3, ms: 1500 }.encode(), "ELAPSED:3:1500");
    assert_eq!(RunMessage::Manual { idx: 7 }.encode(), "MANUAL:7:prompt");
    assert_eq!(RunMessage::AuditedPass { idx: 9 }.encode(), "AUDITED_PASS:9");
    assert_eq!(RunMessage::Done.encode(), "DONE:");
}

#[test]
fn decode_round_trip() {
    let msgs = vec![
        RunMessage::Out { line: "hello: world".into() },
        RunMessage::Log { idx: 4, line: "x:y:z".into() },
        RunMessage::Status { idx: usize::MAX, value: "AwaitManual".into() },
        RunMessage::Elapsed { idx: 2, ms: 18446744073709551615 },
        RunMessage::Manual { idx: 5 },
        RunMessage::AuditedPass { idx: 0 },
        RunMessage::Done,
    ];
    for m in &msgs {
        let back = RunMessage::decode(&m.encode()).unwrap();
        assert_eq!(back.encode(), m.encode());
    }
}

#[test]
fn decode_rejects_and_accepts() {
    assert!(RunMessage::decode("LOG:abc:x").is_none());
    assert!(RunMessage::decode("LOG:5").is_none());
    assert!(RunMessage::decode("ELAPSED:1:-3").is_none());
    assert!(RunMessage::decode("ELAPSED:1:18446744073709551616").is_none());
    assert!(RunMessage::decode("AUDITED_PASS:").is_none());
    assert!(RunMessage::decode("hello").is_none());
    assert!(matches!(RunMessage::decode("MANUAL:+3"), Some(RunMessage::Manual { idx: 3 })));
    assert!(matches!(RunMessage::decode("DONE:anything"), Some(RunMessage::Done)));
    assert!(matches!(
        RunMessage::decode("STATUS:007:Passed"),
        Some(RunMessage::Status { idx: 7, .. })
    ));
}

fn check(manual: bool, audited: bool) -> Check {
    Check { name: "c".into(), description: "d".into(), cmd: Cmd::String("true".into()), manual, audited }
}

#[test]
fn runner_messages() {
    assert_eq!(encode_all(&start_messages(1, &check(false, false))), vec!["STATUS:1:Running", "LOG:1:▶ c"]);
    let ok: Result<(Vec<String>, bool), String> = Ok((vec!["l1".into(), "l2".into()], true));
    let (m, stop) = result_messages(1, &check(false, true), &ok, true);
    assert!(!stop);
    assert_eq!(
        encode_all(&m),
        vec!["LOG:1:l1", "OUT:l1", "LOG:1:l2", "OUT:l2", "STATUS:1:Passed", "AUDITED_PASS:1"]
    );
    let (m, stop) = result_messages(2, &check(true, false), &ok, true);
    assert!(stop);
    assert_eq!(
        encode_all(&m),
        vec!["LOG:2:l1", "OUT:l1", "LOG:2:l2", "OUT:l2", "STATUS:2:AwaitManual", "MANUAL:2:prompt"]
    );
    let (m, _) = result_messages(2, &check(true, false), &ok, false);
    assert_eq!(m.len(), 5);
    let failed: Result<(Vec<String>, bool), String> = Ok((vec![], false));
    let (m, stop) = result_messages(0, &check(true, true), &failed, true);
    assert!(stop);
    assert_eq!(encode_all(&m), vec!["STATUS:0:AwaitManual", "MANUAL:0:prompt"]);
    let (m, stop) = result_messages(0, &check(false, true), &failed, true);
    assert!(!stop);
    assert_eq!(encode_all(&m), vec!["STATUS:0:Failed"]);
    let not_run: Result<(Vec<String>, bool), String> = Err("Failed to spawn: x".into());
    let (m, stop) = result_messages(0, &check(true, false), &not_run, true);
    assert!(!stop);
    assert_eq!(
        encode_all(&m),
        vec!["LOG:0:Error: Failed to spawn: x", "OUT:Error: Failed to spawn: x", "STATUS:0:Failed"]
    );
    let err: Result<(Vec<String>, bool), String> = Err("Cancelled".into());
    let (m, _) = result_messages(0, &check(false, false), &err, true);
    assert_eq!(encode_all(&m), vec!["LOG:0:Error: Cancelled", "OUT:Error: Cancelled", "STATUS:0:Failed"]);
}

#[test]
fn which_checks_run() {
    let mut passed = HashSet::new();
    passed.insert(0usize);
    assert!(!should_run(&check(false, true), true, &passed, 0));
    assert!(should_run(&check(false, false), true, &passed, 0));
    assert!(!should_run(&check(false, false), false, &passed, 1));
    assert!(should_run(&check(false, true), true, &passed, 1));
}

#[test]
fn worker_order() {
    let checks = vec![check(false, false), check(false, true), check(false, false), check(true, false)];
    let selected = vec![true, true, false, true];
    let mut passed = HashSet::new();
    passed.insert(1usize);
    assert_eq!(next_to_run(&checks, &selected, &passed, 0), Some(0));
    assert_eq!(next_to_run(&checks, &selected, &passed, 1), Some(3));
    assert_eq!(next_to_run(&checks, &selected, &passed, 4), None);
    assert_eq!(next_to_run(&checks, &selected, &passed, 9), None);
}
