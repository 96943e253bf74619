use exo_attention::clock::{age_since, DateTimeUtc, Duration};
use exo_attention::ids::Uuid7;
use exo_attention::input_requests::{
    match_pending_adapter_request, pending_input_requests, read_requested, read_resolved,
    resolve_pending_adapter_input_request, ConversationEvent, EventData, InputRequestKind,
    InputRequestedPayload, InputResolution, InputResolvedPayload, PendingInputRequest,
    PendingScan, INPUT_REQUESTED_EVENT, INPUT_RESOLVED_EVENT,
};
use exo_attention::nudge_run::{NudgeEffect, NudgeEvent, NudgeRun};
use exo_attention::nudges::{
    conversation_has_aged_request, nudge_due, nudge_text, request_age, AttentionOptions,
    NudgeScan, EXO_INPUT_REQUEST_NUDGED_EVENT,
};
use serde_json::Value;

fn at(secs: i64) -> DateTimeUtc {
    DateTimeUtc::new(secs, 0).expect("instant")
}

fn text(value: &str) -> Value {
    Value::String(value.to_string())
}

fn object(entries: &[(&str, Value)]) -> Value {
    let mut map = serde_json::Map::new();
    for (key, value) in entries {
        map.insert(key.to_string(), value.clone());
    }
    Value::Object(map)
}

/// A conversation's log.
#[derive(Default)]
struct Log {
    events: Vec<ConversationEvent>,
}

impl Log {
    fn record_host_event(&mut self, event_type: &str, payload: Value) {
        let bits = self.events.len() as u128 + 1;
        self.events.push(ConversationEvent {
            id: Uuid7 { bits },
            created_at: at(1_000 + bits as i64),
            data: EventData::Custom { event_type: event_type.to_string(), payload },
        });
    }

    fn record_request(&mut self, request_id: &str, adapter_id: Option<&str>, target: Option<&str>) {
        let mut entries = vec![
            ("request_id", text(request_id)),
            ("kind", text("question")),
            ("prompt", text(&format!("prompt for {request_id}"))),
        ];
        if let Some(adapter_id) = adapter_id {
            entries.push(("adapter_id", text(adapter_id)));
        }
        if let Some(target) = target {
            entries.push(("target", text(target)));
        }
        self.record_host_event(INPUT_REQUESTED_EVENT, object(&entries));
    }

    fn record_input_resolved(&mut self, resolved: &InputResolvedPayload) {
        let mut entries = vec![
            ("request_id", text(&resolved.request_id)),
            ("resolution", text(resolved.resolution.as_str())),
        ];
        if let Some(answer) = &resolved.answer {
            entries.push(("answer", answer.clone()));
        }
        if let Some(resolved_by) = &resolved.resolved_by {
            entries.push(("resolved_by", text(resolved_by)));
        }
        self.record_host_event(INPUT_RESOLVED_EVENT, object(&entries));
    }
}

#[test]
fn pending_set_tracks_requests_until_resolved() {
    let mut conversation = Log::default();

    conversation.record_request("req-1", None, None);
    conversation.record_request("req-2", None, None);
    let pending = pending_input_requests(&conversation.events);
    assert_eq!(pending.len(), 2);
    assert_eq!(pending[0].payload.request_id, "req-1");

    conversation.record_input_resolved(&InputResolvedPayload {
        request_id: "req-1".to_string(),
        resolution: InputResolution::Answered,
        answer: Some(text("yes")),
        resolved_by: Some("martin".to_string()),
    });
    let pending = pending_input_requests(&conversation.events);
    assert_eq!(pending.len(), 1);
    assert_eq!(pending[0].payload.request_id, "req-2");
}

#[test]
fn a_resolution_matches_by_id_wherever_it_stands() {
    let resolved = InputResolvedPayload {
        request_id: "req-1".to_string(),
        resolution: InputResolution::Answered,
        answer: None,
        resolved_by: None,
    };
    let mut conversation = Log::default();
    conversation.record_input_resolved(&resolved);
    conversation.record_request("req-1", None, None);
    assert!(pending_input_requests(&conversation.events).is_empty());

    // A request that was settled does not come back by being asked again.
    conversation.record_request("req-2", None, None);
    conversation.record_request("req-1", None, None);
    conversation.record_request("req-2", None, None);
    let pending = pending_input_requests(&conversation.events);
    assert_eq!(pending.len(), 1);
    assert_eq!(pending[0].payload.request_id, "req-2");
    assert_eq!(pending[0].event_id, Uuid7 { bits: 3 });

    // Nor where the resolution stands on an earlier page.
    let mut scan = PendingScan::new();
    let mut first = Log::default();
    first.record_input_resolved(&resolved);
    assert!(scan.take_page(&first.events, true));
    let mut second = Log::default();
    second.record_request("req-1", None, None);
    assert!(!scan.take_page(&second.events, false));
    assert!(scan.finish().is_empty());
}

#[test]
fn numbers_are_read_back_as_they_were_recorded() {
    let read = read_requested(&object(&[
        ("request_id", text("req-1")),
        ("kind", text("question")),
        ("prompt", text("?")),
        ("answer_schema", object(&[("maximum", Value::from(17))])),
    ]))
    .expect("request");
    assert_eq!(read.answer_schema, Some(object(&[("maximum", Value::from(17))])));
    let read = read_resolved(&object(&[
        ("request_id", text("req-1")),
        ("resolution", text("answered")),
        ("answer", Value::from(-3)),
    ]))
    .expect("resolution");
    assert_eq!(read.answer, Some(Value::from(-3)));
}

#[test]
fn ignores_malformed_payloads_and_unmatched_resolutions() {
    let mut conversation = Log::default();

    conversation.record_host_event(INPUT_REQUESTED_EVENT, object(&[("not", text("a request"))]));
    conversation.record_host_event(
        INPUT_RESOLVED_EVENT,
        object(&[("request_id", text("req-unknown")), ("resolution", text("answered"))]),
    );
    conversation.record_request("req-1", None, None);

    let pending = pending_input_requests(&conversation.events);
    assert_eq!(pending.len(), 1);
    assert_eq!(pending[0].payload.request_id, "req-1");
}

#[test]
fn adapter_reply_resolves_only_matching_relayed_requests() {
    let mut conversation = Log::default();

    // Not relayed: an adapter reply must never claim it.
    conversation.record_request("req-local", None, None);
    // Relayed through another channel of the same adapter.
    conversation.record_request("req-other-channel", Some("adapter-1"), Some("channel-2"));
    // Relayed through the replying channel.
    conversation.record_request("req-match", Some("adapter-1"), Some("channel-1"));

    let (resolved, resolution) = resolve_pending_adapter_input_request(
        &pending_input_requests(&conversation.events),
        "adapter-1",
        "channel-1",
        Some("martin"),
        "the answer",
    )
    .expect("reply should resolve the matching request");
    assert_eq!(resolved.payload.request_id, "req-match");
    assert_eq!(resolution.answer, Some(text("the answer")));
    assert_eq!(resolution.resolved_by.as_deref(), Some("martin"));
    assert_eq!(resolution.resolution, InputResolution::Answered);
    conversation.record_input_resolved(&resolution);

    let pending = pending_input_requests(&conversation.events);
    let pending_ids: Vec<&str> = pending
        .iter()
        .map(|request| request.payload.request_id.as_str())
        .collect();
    assert_eq!(pending_ids, vec!["req-local", "req-other-channel"]);

    // No matching pending request left for this channel.
    let unresolved = resolve_pending_adapter_input_request(
        &pending,
        "adapter-1",
        "channel-1",
        None,
        "another reply",
    );
    assert!(unresolved.is_none());
}

fn request(id: &str, adapter: Option<&str>, target: Option<&str>) -> PendingInputRequest {
    PendingInputRequest {
        event_id: Uuid7 { bits: 1 },
        requested_at: at(1_000),
        payload: InputRequestedPayload {
            request_id: id.to_string(),
            kind: InputRequestKind::Question,
            prompt: "?".to_string(),
            answer_schema: None,
            tool_call_id: None,
            adapter_id: adapter.map(ToOwned::to_owned),
            target: target.map(ToOwned::to_owned),
        },
    }
}

#[test]
fn matches_oldest_pending_request_and_untargeted_relays() {
    let pending = vec![
        request("req-local", None, None),
        request("req-untargeted", Some("adapter-1"), None),
        request("req-targeted", Some("adapter-1"), Some("channel-1")),
    ];

    // An untargeted relay accepts a reply from any of the adapter's
    // targets; it is older, so it wins over the targeted one.
    let matched = match_pending_adapter_request(&pending, "adapter-1", "channel-1").unwrap();
    assert_eq!(matched.payload.request_id, "req-untargeted");
    assert!(match_pending_adapter_request(&pending, "adapter-2", "channel-1").is_none());
}

#[test]
fn requests_are_read_with_every_field() {
    let schema = object(&[("type", text("string"))]);
    let read = read_requested(&object(&[
        ("request_id", text("req-1")),
        ("kind", text("tool_confirmation")),
        ("prompt", text("go on?")),
        ("answer_schema", schema.clone()),
        ("tool_call_id", text("call-1")),
        ("adapter_id", Value::Null),
        ("unknown", Value::Bool(true)),
    ]))
    .expect("request");
    assert_eq!(read.kind, InputRequestKind::ToolConfirmation);
    assert_eq!(read.prompt, "go on?");
    assert_eq!(read.answer_schema, Some(schema));
    assert_eq!(read.tool_call_id.as_deref(), Some("call-1"));
    assert!(read.adapter_id.is_none() && read.target.is_none());
    for kind in [
        InputRequestKind::Question,
        InputRequestKind::ToolConfirmation,
        InputRequestKind::Feedback,
        InputRequestKind::Auth,
    ] {
        let read = read_requested(&object(&[
            ("request_id", text("r")),
            ("kind", text(kind.as_str())),
            ("prompt", text("")),
        ]));
        assert_eq!(read.expect("kind").kind, kind);
    }
}

#[test]
fn requests_are_read_from_their_array_form() {
    let read = read_requested(&Value::Array(vec![
        text("req-1"),
        text("auth"),
        text("log in"),
        Value::Null,
        Value::Null,
        text("adapter-1"),
        Value::Null,
    ]))
    .expect("request");
    assert_eq!(read.request_id, "req-1");
    assert_eq!(read.kind, InputRequestKind::Auth);
    assert_eq!(read.adapter_id.as_deref(), Some("adapter-1"));

    // A unit variant may also be written as an object of one null.
    let read = read_requested(&object(&[
        ("request_id", text("req-2")),
        ("kind", object(&[("feedback", Value::Null)])),
        ("prompt", text("?")),
    ]))
    .expect("request");
    assert_eq!(read.kind, InputRequestKind::Feedback);
}

#[test]
fn malformed_requests_are_not_read() {
    assert!(read_requested(&Value::Null).is_none());
    assert!(read_requested(&text("req-1")).is_none());
    assert!(read_requested(&Value::Array(vec![text("req-1")])).is_none());
    assert!(read_requested(&object(&[
        ("request_id", text("req-1")),
        ("kind", text("guess")),
        ("prompt", text("?")),
    ]))
    .is_none());
    assert!(read_requested(&object(&[
        ("request_id", text("req-1")),
        ("kind", text("question")),
        ("prompt", text("?")),
        ("target", Value::Bool(true)),
    ]))
    .is_none());
    assert!(read_resolved(&object(&[("request_id", text("req-1"))])).is_none());
}

#[test]
fn resolutions_are_read_back_as_they_were_recorded() {
    for resolution in
        [InputResolution::Answered, InputResolution::Cancelled, InputResolution::Expired]
    {
        let read = read_resolved(&object(&[
            ("request_id", text("req-1")),
            ("resolution", text(resolution.as_str())),
            ("answer", Value::Bool(false)),
        ]))
        .expect("resolution");
        assert_eq!(read.resolution, resolution);
        assert_eq!(read.answer, Some(Value::Bool(false)));
        assert!(read.resolved_by.is_none());
    }
}

#[test]
fn pages_of_a_log_add_up_to_the_log() {
    let mut conversation = Log::default();
    conversation.record_request("req-1", None, None);
    conversation.record_request("req-2", None, None);
    let mut scan = PendingScan::new();
    assert!(scan.take_page(&conversation.events, true));
    let mut second = Log::default();
    second.record_input_resolved(&InputResolvedPayload {
        request_id: "req-1".to_string(),
        resolution: InputResolution::Cancelled,
        answer: None,
        resolved_by: None,
    });
    // A later resolution of the same request changes nothing.
    second.record_input_resolved(&InputResolvedPayload {
        request_id: "req-1".to_string(),
        resolution: InputResolution::Answered,
        answer: None,
        resolved_by: None,
    });
    assert!(!scan.take_page(&second.events, false));
    let pending = scan.finish();
    assert_eq!(pending.len(), 1);
    assert_eq!(pending[0].payload.request_id, "req-2");
    assert!(!PendingScan::new().take_page(&Vec::new(), true));
}

#[test]
fn instants_are_apart_by_their_nanoseconds() {
    let early = DateTimeUtc::new(100, 900_000_000).expect("instant");
    let late = DateTimeUtc::new(102, 100_000_000).expect("instant");
    assert_eq!(age_since(early, late), Some(Duration { nanos: 1_200_000_000 }));
    assert_eq!(age_since(late, early), None);
    assert_eq!(Duration::from_secs(2).as_secs(), 2);
    assert!(DateTimeUtc::new(0, 2_000_000_000).is_none());
    assert!(DateTimeUtc::new(i64::MAX, 0).is_none());
}

#[test]
fn ages_add_up_as_the_clock_goes_on() {
    let (asked, now, later) = (at(1_000), at(1_060), at(1_100));
    let nanos = |from, to| age_since(from, to).expect("an age").nanos;
    assert_eq!(nanos(asked, later), nanos(asked, now) + nanos(now, later));
}

#[test]
fn the_latest_reminder_of_a_request_counts() {
    let mut first = Log::default();
    first.record_host_event(
        EXO_INPUT_REQUEST_NUDGED_EVENT,
        object(&[("request_id", text("req-1"))]),
    );
    let mut second = Log::default();
    second.record_host_event(EXO_INPUT_REQUEST_NUDGED_EVENT, Value::Null);
    second.record_host_event(
        EXO_INPUT_REQUEST_NUDGED_EVENT,
        object(&[("request_id", text("req-1"))]),
    );
    let mut scan = NudgeScan::new();
    assert!(scan.take_page(&first.events, true));
    assert_eq!(scan.last_nudge("req-1"), Some(at(1_001)));
    assert!(!scan.take_page(&second.events, false));
    assert_eq!(scan.last_nudge("req-1"), Some(at(1_002)));
}

#[test]
fn reminders_wait_for_age_and_keep_their_spacing() {
    let options = AttentionOptions::default();
    assert_eq!(options.nudge_after.as_secs(), 300);
    assert_eq!(options.nudge_interval.as_secs(), 300);
    let asked = request("req-1", Some("adapter-1"), None);

    assert_eq!(request_age(&asked, at(1_010)).map(|age| age.as_secs()), Some(10));
    assert!(nudge_due(&asked, None, &options, at(1_299)).is_none());
    assert_eq!(
        nudge_due(&asked, None, &options, at(1_300)).map(|age| age.as_secs()),
        Some(300)
    );
    assert!(nudge_due(&asked, Some(at(1_301)), &options, at(1_600)).is_none());
    assert!(nudge_due(&asked, Some(at(1_301)), &options, at(1_601)).is_some());

    let pending = vec![asked];
    assert!(!conversation_has_aged_request(&pending, options.nudge_after, at(1_299)));
    assert!(conversation_has_aged_request(&pending, options.nudge_after, at(1_300)));
    assert!(nudge_text(&pending[0]).contains("?"));
}

#[test]
fn a_due_request_is_sent_and_recorded_once() {
    let options = AttentionOptions::default();
    let pending = vec![
        request("req-local", None, None),
        request("req-1", Some("adapter-1"), Some("channel-1")),
    ];
    let (mut run, first) =
        NudgeRun::start("agent".to_string(), "conversation".to_string(), options, pending);
    assert!(matches!(first, NudgeEffect::ScanNudges));

    let mut log = Log::default();
    log.record_host_event(
        EXO_INPUT_REQUEST_NUDGED_EVENT,
        object(&[("request_id", text("req-other"))]),
    );
    let mut times = NudgeScan::new();
    assert!(!times.take_page(&log.events, false));
    assert_eq!(times.last_nudge("req-other"), Some(at(1_001)));
    assert_eq!(times.last_nudge("req-1"), None);

    let now = at(2_000);
    let effect = run.advance(NudgeEvent::Scanned { times }, now);
    assert!(matches!(effect, NudgeEffect::FindAdapter { ref adapter_id } if adapter_id == "adapter-1"));
    let effect = run.advance(NudgeEvent::Found { enabled: Some(true) }, now);
    assert!(
        matches!(effect, NudgeEffect::Send { target: Some(ref target), .. } if target == "channel-1")
    );
    let effect = run.advance(NudgeEvent::Sent, now);
    assert!(matches!(effect, NudgeEffect::Record { ref request_id } if request_id == "req-1"));
    assert!(matches!(run.advance(NudgeEvent::Recorded, now), NudgeEffect::Finish));
    let nudges = run.finish();
    assert_eq!(nudges.len(), 1);
    assert_eq!(nudges[0].request_id, "req-1");
    assert_eq!(nudges[0].age_seconds, 1_000);
}
