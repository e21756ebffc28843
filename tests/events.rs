use afl::events::{
    AflError, BrokerEventResult, Corpus, Event, EventManager, InMemoryCorpus, LogRecord,
    LoggerEventManager,
};

fn all_variants() -> Vec<Event> {
    vec![
        Event::LoadInitial { sender_id: 1 },
        Event::NewTestcase { sender_id: 2, input: vec![1, 2, 3], observers: vec![9] },
        Event::UpdateStats { sender_id: 3, executions: 10, execs_over_sec: 5 },
        Event::Crash { sender_id: 4, input: vec![0xff] },
        Event::Timeout { sender_id: 5, input: vec![] },
        Event::Log { sender_id: 6, severity_level: 1, message: String::from("hi") },
        Event::Heartbeat,
    ]
}

#[test]
fn names_of_each_kind() {
    let names: Vec<&str> = all_variants().iter().map(|e| e.name()).collect();
    assert_eq!(
        names,
        vec!["Initial", "New Testcase", "Stats", "Crash", "Timeout", "Log", "None"]
    );
}

#[test]
fn log_constructor_is_self_originated() {
    let e = Event::log(3, String::from("disk full"));
    assert_eq!(
        e,
        Event::Log { sender_id: 0, severity_level: 3, message: String::from("disk full") }
    );
}

#[test]
fn update_stats_constructor_is_self_originated() {
    let e = Event::update_stats(1000, 42);
    assert_eq!(e, Event::UpdateStats { sender_id: 0, executions: 1000, execs_over_sec: 42 });
}

#[test]
fn broker_forwards_only_new_testcases() {
    let m = LoggerEventManager::new();
    let mut state = ();
    let mut corpus = InMemoryCorpus::new();
    for e in all_variants() {
        let r = m.handle_in_broker(&e, &mut state, &mut corpus);
        let expected = match e {
            Event::NewTestcase { .. } => BrokerEventResult::Forward,
            _ => BrokerEventResult::Handled,
        };
        assert_eq!(r, Ok(expected));
    }
    assert_eq!(corpus.count(), 0);
}

#[test]
fn classifying_twice_gives_the_same_result() {
    let m = LoggerEventManager::new();
    let mut state = ();
    let mut corpus = InMemoryCorpus::new();
    for e in all_variants() {
        let a = m.handle_in_broker(&e, &mut state, &mut corpus);
        let b = m.handle_in_broker(&e, &mut state, &mut corpus);
        assert_eq!(a, b);
    }
}

#[test]
fn client_rejects_every_other_kind() {
    let m = LoggerEventManager::new();
    let mut state = ();
    let mut corpus = InMemoryCorpus::new();
    corpus.add(vec![7]).unwrap();
    for e in all_variants() {
        if let Event::NewTestcase { .. } = e {
            continue;
        }
        let r = m.handle_in_client(e, &mut state, &mut corpus);
        assert_eq!(r, Err(AflError::IllegalMessage));
    }
    assert_eq!(corpus.count(), 1);
}

#[test]
fn client_adds_a_new_testcase_to_the_corpus() {
    let m = LoggerEventManager::new();
    let mut state = ();
    let mut corpus = InMemoryCorpus::new();
    let e = Event::NewTestcase { sender_id: 3, input: vec![4, 5, 6], observers: vec![1] };
    assert_eq!(m.handle_in_client(e, &mut state, &mut corpus), Ok(()));
    assert_eq!(corpus.count(), 1);
    assert_eq!(corpus.get(0), &vec![4u8, 5, 6]);
}

#[test]
fn on_recv_does_nothing() {
    let m = LoggerEventManager::new();
    let mut state = 5u32;
    let mut corpus = InMemoryCorpus::new();
    assert_eq!(m.on_recv(&mut state, &mut corpus), Ok(()));
    assert_eq!(state, 5);
    assert_eq!(corpus.count(), 0);
}

#[test]
fn logger_is_enabled() {
    let m = LoggerEventManager::new();
    assert!(m.enabled());
}

#[test]
fn process_counts_handled_fires_then_resets() {
    let mut m = LoggerEventManager::new();
    let mut state = ();
    let mut corpus = InMemoryCorpus::new();
    for e in all_variants() {
        assert_eq!(m.fire(e, &mut state, &mut corpus), Ok(()));
    }
    assert_eq!(m.process(&mut state, &mut corpus), Ok(6));
    assert_eq!(m.process(&mut state, &mut corpus), Ok(0));
}

#[test]
fn process_on_a_fresh_manager_is_zero() {
    let mut m = LoggerEventManager::new();
    let mut state = ();
    let mut corpus = InMemoryCorpus::new();
    assert_eq!(m.process(&mut state, &mut corpus), Ok(0));
}

#[test]
fn firing_a_new_testcase_adds_nothing_to_the_corpus() {
    let mut m = LoggerEventManager::new();
    let mut state = ();
    let mut corpus = InMemoryCorpus::new();
    let e = Event::NewTestcase { sender_id: 1, input: vec![1, 2], observers: vec![] };
    assert_eq!(m.fire(e, &mut state, &mut corpus), Ok(()));
    assert_eq!(corpus.count(), 0);
    assert_eq!(m.process(&mut state, &mut corpus), Ok(0));
    assert!(m.records().is_empty());
}

#[test]
fn firing_a_log_event_writes_one_record() {
    let mut m = LoggerEventManager::new();
    let mut state = ();
    let mut corpus = InMemoryCorpus::new();
    let e = Event::log(3, String::from("disk full"));
    let mut c2 = InMemoryCorpus::new();
    assert_eq!(m.handle_in_broker(&e, &mut state, &mut c2), Ok(BrokerEventResult::Handled));
    assert_eq!(m.fire(e, &mut state, &mut corpus), Ok(()));
    assert_eq!(
        m.records(),
        &[LogRecord { sender_id: 0, severity_level: 3, message: String::from("disk full") }][..]
    );
    assert_eq!(m.records()[0].line(), b"0[3]: disk full".to_vec());
}

#[test]
fn two_stats_updates_are_counted() {
    let mut m = LoggerEventManager::new();
    let mut state = ();
    let mut corpus = InMemoryCorpus::new();
    assert_eq!(m.fire(Event::update_stats(1000, 42), &mut state, &mut corpus), Ok(()));
    assert_eq!(m.fire(Event::update_stats(1000, 42), &mut state, &mut corpus), Ok(()));
    assert_eq!(m.process(&mut state, &mut corpus), Ok(2));
}

#[test]
fn a_crash_is_handled_and_never_reaches_the_corpus() {
    let mut m = LoggerEventManager::new();
    let mut state = ();
    let mut corpus = InMemoryCorpus::new();
    let e = Event::Crash { sender_id: 7, input: vec![0xde, 0xad] };
    assert_eq!(m.handle_in_broker(&e, &mut state, &mut corpus), Ok(BrokerEventResult::Handled));
    assert_eq!(m.fire(e, &mut state, &mut corpus), Ok(()));
    assert_eq!(corpus.count(), 0);
    assert_eq!(m.process(&mut state, &mut corpus), Ok(1));
}

#[test]
fn take_records_empties_the_sink() {
    let mut m = LoggerEventManager::new();
    let mut state = ();
    let mut corpus = InMemoryCorpus::new();
    m.fire(Event::log(1, String::from("a")), &mut state, &mut corpus).unwrap();
    m.fire(Event::Log { sender_id: 4, severity_level: 2, message: String::from("b") }, &mut state, &mut corpus)
        .unwrap();
    let taken = m.take_records();
    assert_eq!(taken.len(), 2);
    assert_eq!(taken[1], LogRecord { sender_id: 4, severity_level: 2, message: String::from("b") });
    assert!(m.records().is_empty());
    assert_eq!(m.process(&mut state, &mut corpus), Ok(2));
}

#[test]
fn corpus_keeps_insertion_order() {
    let mut corpus = InMemoryCorpus::new();
    corpus.add(vec![1]).unwrap();
    corpus.add(vec![2, 2]).unwrap();
    assert_eq!(corpus.count(), 2);
    assert_eq!(corpus.get(0), &vec![1u8]);
    assert_eq!(corpus.get(1), &vec![2u8, 2]);
}

#[test]
fn record_lines_show_sender_severity_and_message() {
    let r = LogRecord { sender_id: 1207, severity_level: 255, message: String::from("x é") };
    assert_eq!(String::from_utf8(r.line()).unwrap(), "1207[255]: x é");
    let r = LogRecord { sender_id: u64::MAX, severity_level: 0, message: String::new() };
    assert_eq!(String::from_utf8(r.line()).unwrap(), "18446744073709551615[0]: ");
}

#[test]
fn rejected_event_leaves_the_corpus_alone() {
    let m = LoggerEventManager::new();
    let mut state = 3u8;
    let mut corpus = InMemoryCorpus::new();
    corpus.add(vec![1, 2]).unwrap();
    let r = m.handle_in_client(Event::Timeout { sender_id: 2, input: vec![9] }, &mut state, &mut corpus);
    assert_eq!(r, Err(AflError::IllegalMessage));
    assert_eq!(state, 3);
    assert_eq!(corpus.count(), 1);
    assert_eq!(corpus.get(0), &vec![1u8, 2]);
}
