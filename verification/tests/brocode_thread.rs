use brocode_core_logic::brocode_thread::{BrocodeThread, ElicitationCount, PauseChange, ThreadError};

#[test]
fn first_elicitation_pauses_and_last_resumes() {
    let mut thread = BrocodeThread::new(None);
    assert_eq!(
        thread.increment_out_of_band_elicitation_count(),
        Ok(ElicitationCount { count: 1, pause_change: PauseChange::Pause })
    );
    assert_eq!(
        thread.increment_out_of_band_elicitation_count(),
        Ok(ElicitationCount { count: 2, pause_change: PauseChange::Unchanged })
    );
    assert_eq!(
        thread.decrement_out_of_band_elicitation_count(),
        Ok(ElicitationCount { count: 1, pause_change: PauseChange::Unchanged })
    );
    assert_eq!(
        thread.decrement_out_of_band_elicitation_count(),
        Ok(ElicitationCount { count: 0, pause_change: PauseChange::Resume })
    );
    assert_eq!(thread.out_of_band_elicitation_count(), 0);
}

#[test]
fn decrement_at_zero_is_refused() {
    let mut thread = BrocodeThread::new(None);
    assert_eq!(
        thread.decrement_out_of_band_elicitation_count(),
        Err(ThreadError::InvalidRequest(
            "out-of-band elicitation count is already zero".to_string()
        ))
    );
    assert_eq!(thread.out_of_band_elicitation_count(), 0);
}

#[test]
fn increment_then_decrement_restores_count() {
    let mut thread = BrocodeThread::new(None);
    for _ in 0..5 {
        thread.increment_out_of_band_elicitation_count().expect("increment");
    }
    let up = thread.increment_out_of_band_elicitation_count().expect("increment");
    assert_eq!(up.count, 6);
    let down = thread.decrement_out_of_band_elicitation_count().expect("decrement");
    assert_eq!(down.count, 5);
    assert_eq!(thread.out_of_band_elicitation_count(), 5);
}

#[test]
fn rollout_path_is_kept() {
    let thread = BrocodeThread::new(Some("/sessions/rollout.jsonl".to_string()));
    assert_eq!(thread.rollout_path(), Some("/sessions/rollout.jsonl".to_string()));
    assert_eq!(BrocodeThread::new(None).rollout_path(), None);
}

use brocode_core_logic::brocode_thread::{
    after_append_inject, after_inject_user_message, begin_inject_user_message,
    pending_message_input_item, AppendAction, ContentItem, InjectAction, ResponseInputItem,
    ResponseItem,
};

#[test]
fn pause_and_resume_requests_alternate_over_a_run() {
    let mut thread = BrocodeThread::new(None);
    let ops = [true, true, false, false, false, true, false, true, true];
    let mut requests = Vec::new();
    let mut starts = 0u64;
    let mut ends = 0u64;
    for start in ops {
        let outcome = if start {
            thread.increment_out_of_band_elicitation_count()
        } else {
            thread.decrement_out_of_band_elicitation_count()
        };
        if let Ok(change) = outcome {
            if start {
                starts += 1;
            } else {
                ends += 1;
            }
            if change.pause_change != PauseChange::Unchanged {
                requests.push(change.pause_change);
            }
        }
    }
    assert_eq!(
        requests,
        vec![PauseChange::Pause, PauseChange::Resume, PauseChange::Pause, PauseChange::Resume, PauseChange::Pause]
    );
    assert_eq!(thread.out_of_band_elicitation_count(), starts - ends);
    assert_eq!(thread.out_of_band_elicitation_count(), 2);
}

#[test]
fn consecutive_starts_report_each_count_once() {
    let mut thread = BrocodeThread::new(None);
    let counts: Vec<u64> = (0..4)
        .map(|_| thread.increment_out_of_band_elicitation_count().expect("increment").count)
        .collect();
    assert_eq!(counts, vec![1, 2, 3, 4]);
}

#[test]
fn pending_input_keeps_role_and_content() {
    let message = ResponseItem::Message {
        id: Some("m1".to_string()),
        role: "assistant".to_string(),
        content: vec![
            ContentItem::OutputText { text: "hi".to_string() },
            ContentItem::InputImage { image_url: "data:x".to_string() },
        ],
        end_turn: Some(true),
    };
    assert_eq!(
        pending_message_input_item(&message),
        Ok(ResponseInputItem::Message {
            role: "assistant".to_string(),
            content: vec![
                ContentItem::OutputText { text: "hi".to_string() },
                ContentItem::InputImage { image_url: "data:x".to_string() },
            ],
        })
    );
}

#[test]
fn pending_input_refuses_other_items() {
    assert_eq!(
        pending_message_input_item(&ResponseItem::NonMessage),
        Err(ThreadError::InvalidRequest(
            "append_message only supports ResponseItem::Message".to_string()
        ))
    );
}

#[test]
fn injected_user_message_falls_back_to_a_new_turn() {
    let (message, action) = begin_inject_user_message("prefix".to_string());
    let expected = ResponseItem::Message {
        id: None,
        role: "user".to_string(),
        content: vec![ContentItem::InputText { text: "prefix".to_string() }],
        end_turn: None,
    };
    assert_eq!(message, expected);
    assert_eq!(
        action,
        InjectAction::InjectPending(ResponseInputItem::Message {
            role: "user".to_string(),
            content: vec![ContentItem::InputText { text: "prefix".to_string() }],
        })
    );
    let (message, _) = begin_inject_user_message("prefix".to_string());
    assert_eq!(after_inject_user_message(message, true), InjectAction::Done);
    let (message, _) = begin_inject_user_message("prefix".to_string());
    assert_eq!(after_inject_user_message(message, false), InjectAction::RecordInNewTurn(expected));
}

#[test]
fn appended_message_handed_back_is_queued() {
    assert_eq!(after_append_inject(Ok(())), AppendAction::Done);
    let items = vec![ResponseInputItem::Message {
        role: "developer".to_string(),
        content: vec![ContentItem::InputText { text: "note".to_string() }],
    }];
    let queued = vec![ResponseInputItem::Message {
        role: "developer".to_string(),
        content: vec![ContentItem::InputText { text: "note".to_string() }],
    }];
    assert_eq!(after_append_inject(Err(items)), AppendAction::QueueForNextTurnAndStartTask(queued));
}
