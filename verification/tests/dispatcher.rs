use exo_attention::attention::dispatcher::{decide, Action, ConversationState};
use exo_attention::attention::types::{
    Attention, InboxItem, ItemId, NativeContext, ProducerKind, ProducerRef,
};
use exo_attention::ids::Uuid7;
use serde_json::Value;

fn item(bits: u128, dedupe_key: &str, attention: Attention, appended_at_ms: u64) -> InboxItem {
    InboxItem {
        item_id: Uuid7 { bits },
        conversation_id: "conversation".to_string(),
        producer: ProducerRef {
            kind: ProducerKind::Agent,
            id: "test-producer".to_string(),
        },
        dedupe_key: dedupe_key.to_string(),
        attention,
        native: NativeContext::Opaque(Value::Null),
        prompt: format!("prompt for {dedupe_key}"),
        artifacts: Vec::new(),
        appended_at_ms,
    }
}

fn ids(items: &[InboxItem]) -> Vec<ItemId> {
    items.iter().map(|item| item.item_id).collect()
}

#[test]
fn an_empty_inbox_asks_for_nothing_in_every_state() {
    for state in [
        ConversationState::TurnRunning,
        ConversationState::AtRoundBoundary,
        ConversationState::Quiescent,
    ] {
        assert_eq!(decide(state, &[], 1_000), Action::Nothing);
    }
}

#[test]
fn a_running_turn_mid_round_admits_nothing() {
    let pending = vec![
        item(1, "interrupt", Attention::Interrupt, 10),
        item(2, "wake", Attention::Wake, 20),
        item(3, "overdue-batch", Attention::Batch { max_wait_ms: 5 }, 30),
    ];
    assert_eq!(
        decide(ConversationState::TurnRunning, &pending, 10_000),
        Action::Nothing
    );
}

#[test]
fn a_round_boundary_offers_interrupts_and_only_interrupts() {
    let pending = vec![
        item(1, "wake", Attention::Wake, 10),
        item(2, "interrupt-late", Attention::Interrupt, 30),
        item(3, "batch", Attention::Batch { max_wait_ms: 1 }, 15),
        item(4, "interrupt-early", Attention::Interrupt, 20),
    ];
    let expected = vec![pending[3].item_id, pending[1].item_id];
    assert_eq!(
        decide(ConversationState::AtRoundBoundary, &pending, 10_000),
        Action::OfferInterrupt { items: expected }
    );
}

#[test]
fn a_round_boundary_with_no_interrupt_waits_for_the_turn_to_end() {
    // The batch bound below is long past, and it still cannot open a turn:
    // one is already running.
    let pending = vec![
        item(1, "wake", Attention::Wake, 10),
        item(2, "batch", Attention::Batch { max_wait_ms: 5 }, 20),
    ];
    assert_eq!(
        decide(ConversationState::AtRoundBoundary, &pending, 10_000),
        Action::Nothing
    );
}

#[test]
fn quiescent_with_a_wake_opens_a_turn() {
    let pending = vec![item(1, "wake", Attention::Wake, 10)];
    assert_eq!(
        decide(ConversationState::Quiescent, &pending, 1_000),
        Action::OpenTurn {
            drain: ids(&pending)
        }
    );
}

#[test]
fn quiescent_with_an_interrupt_opens_a_turn_rather_than_waiting_for_a_boundary() {
    let pending = vec![item(1, "interrupt", Attention::Interrupt, 10)];
    assert_eq!(
        decide(ConversationState::Quiescent, &pending, 1_000),
        Action::OpenTurn {
            drain: ids(&pending)
        }
    );
}

#[test]
fn one_wake_drains_every_pending_item_into_one_turn() {
    // A fire, a human message and three held batch items produce one turn
    // with five results, not five turns.
    let held = Attention::Batch {
        max_wait_ms: 600_000,
    };
    let pending = vec![
        item(1, "fire", Attention::Wake, 10),
        item(2, "message", Attention::Wake, 20),
        item(3, "scrape-a", held, 30),
        item(4, "scrape-b", held, 40),
        item(5, "scrape-c", held, 50),
    ];
    let action = decide(ConversationState::Quiescent, &pending, 1_000);
    assert_eq!(
        action,
        Action::OpenTurn {
            drain: ids(&pending)
        }
    );
}

#[test]
fn drain_order_is_append_order_whatever_order_the_backend_hands_over() {
    let first = item(1, "first", Attention::Wake, 10);
    let second = item(2, "second", Attention::Wake, 20);
    let third = item(3, "third", Attention::Wake, 30);
    let shuffled = vec![third.clone(), first.clone(), second.clone()];
    assert_eq!(
        decide(ConversationState::Quiescent, &shuffled, 1_000),
        Action::OpenTurn {
            drain: vec![first.item_id, second.item_id, third.item_id]
        }
    );
}

#[test]
fn items_of_one_millisecond_keep_the_order_they_were_given_in() {
    let pending = vec![
        item(9, "late", Attention::Wake, 20),
        item(7, "tie-first", Attention::Wake, 10),
        item(3, "tie-second", Attention::Wake, 10),
        item(5, "tie-third", Attention::Wake, 10),
    ];
    assert_eq!(
        decide(ConversationState::Quiescent, &pending, 1_000),
        Action::OpenTurn {
            drain: vec![
                Uuid7 { bits: 7 },
                Uuid7 { bits: 3 },
                Uuid7 { bits: 5 },
                Uuid7 { bits: 9 }
            ]
        }
    );
}

#[test]
fn held_batch_items_wait_until_the_earliest_bound_expires() {
    let pending = vec![
        item(1, "far", Attention::Batch { max_wait_ms: 5_000 }, 1_000),
        item(2, "near", Attention::Batch { max_wait_ms: 500 }, 1_000),
    ];
    assert_eq!(
        decide(ConversationState::Quiescent, &pending, 1_200),
        Action::Wait { until_ms: 1_500 }
    );
}

#[test]
fn a_batch_bound_flushes_on_the_millisecond_it_expires() {
    let pending = vec![item(1, "batch", Attention::Batch { max_wait_ms: 500 }, 1_000)];
    assert_eq!(
        decide(ConversationState::Quiescent, &pending, 1_499),
        Action::Wait { until_ms: 1_500 }
    );
    assert_eq!(
        decide(ConversationState::Quiescent, &pending, 1_500),
        Action::FlushBatch {
            drain: ids(&pending)
        }
    );
}

#[test]
fn an_expired_bound_flushes_every_held_item_not_just_the_expired_one() {
    let pending = vec![
        item(1, "expired", Attention::Batch { max_wait_ms: 500 }, 1_000),
        item(
            2,
            "still-held",
            Attention::Batch {
                max_wait_ms: 900_000,
            },
            1_100,
        ),
    ];
    assert_eq!(
        decide(ConversationState::Quiescent, &pending, 2_000),
        Action::FlushBatch {
            drain: ids(&pending)
        }
    );
}

#[test]
fn a_bound_too_large_to_represent_reads_as_never_rather_than_as_overdue() {
    let pending = vec![item(
        1,
        "batch",
        Attention::Batch {
            max_wait_ms: u64::MAX,
        },
        10,
    )];
    assert_eq!(
        decide(ConversationState::Quiescent, &pending, 1_000),
        Action::Wait { until_ms: u64::MAX }
    );
}

#[test]
fn a_wait_ends_in_a_flush_of_everything_held() {
    let pending = vec![
        item(1, "far", Attention::Batch { max_wait_ms: 5_000 }, 1_000),
        item(2, "near", Attention::Batch { max_wait_ms: 500 }, 1_000),
    ];
    let until_ms = match decide(ConversationState::Quiescent, &pending, 1_200) {
        Action::Wait { until_ms } => until_ms,
        other => panic!("unexpected action {other:?}"),
    };
    assert_eq!(
        decide(ConversationState::Quiescent, &pending, until_ms),
        Action::FlushBatch {
            drain: ids(&pending)
        }
    );
}
