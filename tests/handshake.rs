use matrix_send::answer::{answer_of, Answer};
use matrix_send::verification::{Action, Coordinator, Event, Phase};

fn s(x: &str) -> String {
    x.to_string()
}

fn request(user: &str, id: &str) -> Event {
    Event::Request { user: s(user), device: s("PHONE"), id: s(id), known: true }
}

fn started(user: &str, id: &str) -> Event {
    Event::Started { user: s(user), device: s("PHONE"), id: s(id), sas: true }
}

fn key(user: &str, id: &str) -> Event {
    Event::Key { user: s(user), id: s(id), sas: true }
}

fn done(user: &str, id: &str) -> Event {
    Event::Done { user: s(user), id: s(id), finished: true }
}

fn answered(user: &str, id: &str, line: &str) -> Event {
    Event::Answered { user: s(user), id: s(id), confirmed: answer_of(line) == Answer::Confirmed }
}

const BOB: &str = "@bob:example.org";

#[test]
fn confirmed_handshake_reports_success() {
    let mut c = Coordinator::new();
    assert_eq!(c.handle(request(BOB, "T")), vec![Action::AcceptRequest { user: s(BOB), id: s("T") }]);
    assert_eq!(c.phase_of(&s(BOB), &s("T")), Some(Phase::Requested));
    assert_eq!(
        c.handle(started(BOB, "T")),
        vec![Action::AcceptSas { user: s(BOB), device: s("PHONE"), id: s("T") }]
    );
    assert_eq!(c.handle(key(BOB, "T")), vec![Action::Prompt { user: s(BOB), id: s("T") }]);
    assert_eq!(c.phase_of(&s(BOB), &s("T")), Some(Phase::AwaitingHumanConfirmation));
    assert_eq!(c.handle(answered(BOB, "T", "Y")), vec![Action::Confirm { user: s(BOB), id: s("T") }]);
    assert_eq!(c.phase_of(&s(BOB), &s("T")), Some(Phase::Confirmed));
    assert_eq!(
        c.handle(done(BOB, "T")),
        vec![Action::ReportSuccess { user: s(BOB), device: s("PHONE"), id: s("T") }]
    );
    assert_eq!(c.len(), 0);
    // a late duplicate of the done event is ignored
    assert_eq!(c.handle(done(BOB, "T")), vec![]);
}

#[test]
fn cancelled_handshake_reports_nothing() {
    let mut c = Coordinator::new();
    c.handle(request(BOB, "T"));
    c.handle(started(BOB, "T"));
    c.handle(key(BOB, "T"));
    assert_eq!(c.handle(answered(BOB, "T", "no")), vec![Action::Cancel { user: s(BOB), id: s("T") }]);
    assert_eq!(c.phase_of(&s(BOB), &s("T")), None);
    assert_eq!(c.handle(done(BOB, "T")), vec![]);
    assert_eq!(c.len(), 0);
}

#[test]
fn success_reported_once_when_confirm_finishes_first() {
    let mut c = Coordinator::new();
    c.handle(request(BOB, "T"));
    c.handle(started(BOB, "T"));
    c.handle(key(BOB, "T"));
    c.handle(answered(BOB, "T", "ok"));
    let sent = Event::ConfirmSent { user: s(BOB), id: s("T"), finished: true };
    assert_eq!(
        c.handle(sent),
        vec![Action::ReportSuccess { user: s(BOB), device: s("PHONE"), id: s("T") }]
    );
    assert_eq!(c.handle(done(BOB, "T")), vec![]);
}

#[test]
fn done_before_protocol_finishes_waits() {
    let mut c = Coordinator::new();
    c.handle(request(BOB, "T"));
    c.handle(started(BOB, "T"));
    c.handle(key(BOB, "T"));
    c.handle(answered(BOB, "T", "yes"));
    let sent = Event::ConfirmSent { user: s(BOB), id: s("T"), finished: false };
    assert_eq!(c.handle(sent), vec![]);
    assert_eq!(c.phase_of(&s(BOB), &s("T")), Some(Phase::Confirmed));
    assert_eq!(c.handle(done(BOB, "T")).len(), 1);
}

#[test]
fn unknown_transaction_is_ignored() {
    let mut c = Coordinator::new();
    c.handle(request(BOB, "T"));
    for e in [
        key(BOB, "other"),
        done(BOB, "other"),
        answered(BOB, "other", "yes"),
        Event::ConfirmSent { user: s(BOB), id: s("other"), finished: true },
        key("@eve:example.org", "T"),
        Event::Request { user: s(BOB), device: s("X"), id: s("U"), known: false },
        Event::Started { user: s(BOB), device: s("X"), id: s("U"), sas: false },
    ] {
        assert_eq!(c.handle(e), vec![]);
        assert_eq!(c.len(), 1);
        assert_eq!(c.phase_of(&s(BOB), &s("T")), Some(Phase::Requested));
    }
}

#[test]
fn start_without_request_is_accepted() {
    let mut c = Coordinator::new();
    assert_eq!(c.handle(started(BOB, "T")).len(), 1);
    assert_eq!(c.phase_of(&s(BOB), &s("T")), Some(Phase::Started));
}

#[test]
fn duplicate_events_do_not_repeat_actions() {
    let mut c = Coordinator::new();
    c.handle(request(BOB, "T"));
    assert_eq!(c.handle(request(BOB, "T")), vec![]);
    c.handle(started(BOB, "T"));
    assert_eq!(c.handle(started(BOB, "T")), vec![]);
    assert_eq!(c.handle(key(BOB, "T")).len(), 1);
    assert_eq!(c.handle(key(BOB, "T")), vec![]);
}

#[test]
fn key_before_start_is_ignored() {
    let mut c = Coordinator::new();
    c.handle(request(BOB, "T"));
    assert_eq!(c.handle(key(BOB, "T")), vec![]);
    assert_eq!(c.phase_of(&s(BOB), &s("T")), Some(Phase::Requested));
}

#[test]
fn prompts_are_serialized() {
    let carol = "@carol:example.org";
    let mut c = Coordinator::new();
    for (u, id) in [(BOB, "T1"), (carol, "T2")] {
        c.handle(request(u, id));
        c.handle(started(u, id));
    }
    assert_eq!(c.handle(key(BOB, "T1")), vec![Action::Prompt { user: s(BOB), id: s("T1") }]);
    assert_eq!(c.handle(key(carol, "T2")), vec![]);
    assert_eq!(c.phase_of(&s(carol), &s("T2")), Some(Phase::KeysExchanged));
    // an answer for the waiting transaction is not taken before its prompt
    assert_eq!(c.handle(answered(carol, "T2", "yes")), vec![]);
    assert_eq!(
        c.handle(answered(BOB, "T1", "no")),
        vec![
            Action::Cancel { user: s(BOB), id: s("T1") },
            Action::Prompt { user: s(carol), id: s("T2") }
        ]
    );
    assert_eq!(c.phase_of(&s(carol), &s("T2")), Some(Phase::AwaitingHumanConfirmation));
    assert_eq!(c.handle(answered(carol, "T2", "y")), vec![Action::Confirm { user: s(carol), id: s("T2") }]);
}
