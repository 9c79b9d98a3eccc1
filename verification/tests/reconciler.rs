use interjections::reconciler::{ContextReconciler, TurnStatus, TurnType};

fn said(reconciler: &mut ContextReconciler, turn_type: TurnType, text: &str) {
    reconciler.add_turn_at(turn_type, text.to_string(), None, 7);
}

#[test]
fn user_turns_in_a_row_merge() {
    let mut reconciler = ContextReconciler::new();
    let first = reconciler.add_turn_at(TurnType::User, "open the".to_string(), None, 10);
    let second = reconciler.add_turn_at(TurnType::User, "lexer".to_string(), None, 25);
    assert_eq!(first.id, "turn_0001");
    assert_eq!(second.id, "turn_0001");
    assert_eq!(second.text, "open the lexer");
    assert_eq!((second.start_time, second.end_time), (10, 25));
    assert_eq!(reconciler.turns().len(), 1);
    assert_eq!(reconciler.reconcile(), "open the lexer");
}

#[test]
fn merged_turns_still_count() {
    let mut reconciler = ContextReconciler::new();
    said(&mut reconciler, TurnType::User, "a");
    said(&mut reconciler, TurnType::User, "b");
    let third = reconciler.add_turn_at(TurnType::Model, "c".to_string(), None, 0);
    assert_eq!(third.id, "turn_0003");
}

#[test]
fn backchannels_are_left_out() {
    let mut reconciler = ContextReconciler::new();
    said(&mut reconciler, TurnType::User, "run the tests");
    said(&mut reconciler, TurnType::Backchannel, "uh-huh");
    assert_eq!(reconciler.turns()[1].status, TurnStatus::Filtered);
    assert_eq!(reconciler.reconcile(), "run the tests");
}

#[test]
fn a_correction_supersedes_what_stood() {
    let mut reconciler = ContextReconciler::new();
    said(&mut reconciler, TurnType::User, "delete it");
    said(&mut reconciler, TurnType::Append, "and the docs");
    said(&mut reconciler, TurnType::User, "all of it");
    let correction = reconciler.add_turn_at(
        TurnType::Correction,
        "no wait".to_string(),
        Some("Correction".to_string()),
        9,
    );
    assert_eq!(correction.status, TurnStatus::Signal);
    assert_eq!(correction.signal.as_deref(), Some("Correction"));
    let turns = reconciler.turns();
    assert_eq!(turns[0].status, TurnStatus::Superseded);
    assert_eq!(turns[0].corrected_by, vec!["turn_0004"]);
    assert_eq!(turns[1].status, TurnStatus::Active);
    assert!(turns[1].corrected_by.is_empty());
    assert_eq!(turns[2].status, TurnStatus::Superseded);
    assert_eq!(reconciler.reconcile(), "and the docs");
    said(&mut reconciler, TurnType::User, "keep it");
    assert_eq!(reconciler.turns().len(), 5);
    assert_eq!(reconciler.reconcile(), "and the docs keep it");
}

#[test]
fn interjections_signal() {
    let mut reconciler = ContextReconciler::new();
    said(&mut reconciler, TurnType::User, "  one ");
    said(&mut reconciler, TurnType::Interjection, "wait");
    said(&mut reconciler, TurnType::User, "two");
    assert_eq!(reconciler.turns()[1].status, TurnStatus::Signal);
    assert_eq!(reconciler.reconcile(), "one two");
}

#[test]
fn signals_are_stripped() {
    let mut reconciler = ContextReconciler::new();
    reconciler.add_turn(TurnType::User, "fix the bug".to_string(), None);
    reconciler.add_turn(TurnType::Interjection, "wait".to_string(), None);
    assert_eq!(reconciler.reconcile(), "fix the bug");
    let mut email = ContextReconciler::new();
    said(&mut email, TurnType::User, "write an email");
    said(&mut email, TurnType::Correction, "actually no");
    assert_eq!(email.reconcile(), "");
    said(&mut email, TurnType::User, "make it a memo");
    said(&mut email, TurnType::User, "cc Sarah");
    assert_eq!(email.reconcile(), "make it a memo cc Sarah");
}

#[test]
fn blank_turns_leave_no_gap() {
    let mut reconciler = ContextReconciler::new();
    said(&mut reconciler, TurnType::Append, " \t");
    said(&mut reconciler, TurnType::Append, "\u{3000}");
    assert_eq!(reconciler.reconcile(), "");
    said(&mut reconciler, TurnType::Append, "x");
    assert_eq!(reconciler.reconcile(), "x");
}

#[test]
fn names_have_four_digits_or_more() {
    let mut reconciler = ContextReconciler::new();
    let mut last = String::new();
    for _ in 0..10001 {
        last = reconciler.add_turn_at(TurnType::Append, String::new(), None, 0).id;
    }
    assert_eq!(last, "turn_10001");
    assert_eq!(reconciler.turns()[9].id, "turn_0010");
    assert_eq!(reconciler.turns()[99].id, "turn_0100");
    assert_eq!(reconciler.turns()[998].id, "turn_0999");
    assert_eq!(reconciler.turns()[999].id, "turn_1000");
}

#[test]
fn history_holds_both_sides() {
    let mut reconciler = ContextReconciler::new();
    said(&mut reconciler, TurnType::User, "hello");
    said(&mut reconciler, TurnType::Model, "hi there");
    said(&mut reconciler, TurnType::Backchannel, "mhm");
    said(&mut reconciler, TurnType::Interjection, "wait");
    let history = reconciler.conversation_history();
    assert_eq!(history.len(), 2);
    assert_eq!(history[0]["role"], "user");
    assert_eq!(history[0]["content"], "hello");
    assert_eq!(history[1]["role"], "assistant");
    assert_eq!(history[1]["content"], "hi there");
}

#[test]
fn a_superseded_turn_stays_in_the_history() {
    let mut reconciler = ContextReconciler::new();
    said(&mut reconciler, TurnType::User, "first");
    said(&mut reconciler, TurnType::Correction, "second");
    let history = reconciler.conversation_history();
    assert_eq!(history.len(), 1);
    assert_eq!(history[0]["content"], "first");
}

#[test]
fn reset_starts_over() {
    let mut reconciler = ContextReconciler::new();
    said(&mut reconciler, TurnType::User, "x");
    reconciler.reset();
    assert!(reconciler.turns().is_empty());
    assert_eq!(reconciler.reconcile(), "");
    assert!(reconciler.has_room());
    assert_eq!(reconciler.add_turn_at(TurnType::User, "y".to_string(), None, 0).id, "turn_0001");
}

#[test]
fn turns_carry_the_time_of_day() {
    let before = std::time::SystemTime::now()
        .duration_since(std::time::UNIX_EPOCH)
        .unwrap()
        .as_nanos();
    let mut reconciler = ContextReconciler::new();
    let turn = reconciler.add_turn(TurnType::User, "now".to_string(), None);
    let after = std::time::SystemTime::now()
        .duration_since(std::time::UNIX_EPOCH)
        .unwrap()
        .as_nanos();
    assert!(before <= turn.start_time && turn.start_time <= after);
    assert_eq!(turn.start_time, turn.end_time);
    assert_eq!(turn.clone().text, "now");
}
