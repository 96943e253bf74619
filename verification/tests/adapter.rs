use exo_attention::adapter::conversation::{
    short_slug_part, target_conversation_slug, uses_target_conversation_scope, ResolveEffect,
    ResolveEvent, ResolveRun,
};
use exo_attention::adapter::inbound::{
    attachment_kind_label, compose_inbound_wakeup_prompt, download_failure_summary, encoded_image,
    image_part, inbound_event_summary, inbound_image_candidates, MAX_INBOUND_IMAGES,
    MAX_INBOUND_IMAGE_BYTES,
};
use exo_attention::adapter::message_run::{
    InboundMessage, MessageEffect, MessageEvent, MessageRun, WakeupContent,
};
use exo_attention::adapter::outbound::AdapterEventType;
use exo_attention::adapter::reboot::{
    adapter_conversations, claimed_notice, judge_notice, reboot_announcements, NoticeClaim,
    RebootNotice,
    REBOOT_NOTICE_MAX_AGE_SECS,
};
use exo_attention::adapter::secrets::{
    resolve_secret_id, secret_env_entry, Secret, SecretError, SecretRecord,
};
use exo_attention::adapter::supervisor::{
    adapters_to_start, should_stop, AdapterRunOptions, SuperviseEffect, SuperviseEvent, Supervisor,
};
use exo_attention::adapter::types::{
    AdapterAttachment, AdapterAttachmentKind, AdapterConfig, AdapterRecord, AdapterSecretEnv,
};
use exo_attention::adapter::worker_events::{handle_worker_event, WorkerEvent, WorkerStep};
use exo_attention::attention::file_backend::fnv16hex;
use exo_attention::clock::Duration;
use exo_attention::ids::Uuid7;
use serde_json::Value;

fn object(entries: &[(&str, Value)]) -> Value {
    let mut map = serde_json::Map::new();
    for (key, value) in entries {
        map.insert(key.to_string(), value.clone());
    }
    Value::Object(map)
}

fn text(value: &str) -> Value {
    Value::String(value.to_string())
}

fn config_with_scope(scope: Option<&str>) -> AdapterConfig {
    let initialization = match scope {
        Some(scope) => object(&[("conversationScope", text(scope))]),
        None => object(&[]),
    };
    AdapterConfig {
        adapter_type: "discord".to_string(),
        worker_command: vec!["true".to_string()],
        initialization,
        state_dir: None,
        secret_env: Vec::new(),
    }
}

fn test_attachment(kind: AdapterAttachmentKind, url: Option<&str>) -> AdapterAttachment {
    AdapterAttachment {
        kind,
        path: None,
        url: url.map(|url| url.to_string()),
        data: None,
        sandbox_path: None,
        mime_type: Some("image/png".to_string()),
        file_name: Some("photo.png".to_string()),
    }
}

fn test_adapter_record() -> AdapterRecord {
    AdapterRecord {
        id: "adapter-1".to_string(),
        agent_id: "agent-1".to_string(),
        conversation_id: "conversation-1".to_string(),
        name: "discord-dev".to_string(),
        enabled: true,
        config: test_adapter_config(),
    }
}

fn test_adapter_config() -> AdapterConfig {
    config_with_scope(None)
}

#[test]
fn target_scope_only_when_explicitly_set() {
    assert!(uses_target_conversation_scope(&config_with_scope(Some(
        "target"
    ))));
    // Default and explicit "adapter" both stay on the root conversation.
    assert!(!uses_target_conversation_scope(&config_with_scope(None)));
    assert!(!uses_target_conversation_scope(&config_with_scope(Some(
        "adapter"
    ))));
}

#[test]
fn target_conversation_slug_is_deterministic_and_target_specific() {
    let mut adapter = test_adapter_record();
    adapter.config = config_with_scope(Some("target"));
    let key_a = fnv16hex("channel-A");
    let key_b = fnv16hex("channel-B");

    let a1 = target_conversation_slug(&adapter, &key_a);
    let a2 = target_conversation_slug(&adapter, &key_a);
    let b = target_conversation_slug(&adapter, &key_b);
    assert_eq!(a1, a2, "same target must yield the same slug");
    assert_ne!(a1, b, "different targets must yield different slugs");
    assert!(a1.starts_with("adapter-"));
    // Slug must agree with the store's filename key for that target.
    assert!(a1.ends_with(&key_a));
    assert_eq!(a1, format!("adapter-adapter1-{key_a}"));
}

#[test]
fn slug_parts_keep_the_first_twelve_plain_characters() {
    assert_eq!(short_slug_part("01890a5d-ac96-774b"), "01890a5dac96");
    assert_eq!(short_slug_part("a-b_c"), "abc");
    assert_eq!(short_slug_part("--"), "");
}

#[test]
fn image_candidates_filter_kind_url_and_cap() {
    let attachments = vec![
        test_attachment(AdapterAttachmentKind::Image, Some("https://a/1.png")),
        test_attachment(AdapterAttachmentKind::Document, Some("https://a/doc.pdf")),
        test_attachment(AdapterAttachmentKind::Image, None),
        test_attachment(AdapterAttachmentKind::Image, Some("https://a/2.png")),
        test_attachment(AdapterAttachmentKind::Image, Some("https://a/3.png")),
        test_attachment(AdapterAttachmentKind::Image, Some("https://a/4.png")),
        test_attachment(AdapterAttachmentKind::Image, Some("https://a/5.png")),
    ];
    let candidates = inbound_image_candidates(&attachments);
    assert_eq!(candidates.len(), MAX_INBOUND_IMAGES);
    assert_eq!(candidates[0].url.as_deref(), Some("https://a/1.png"));
    assert_eq!(candidates[3].url.as_deref(), Some("https://a/4.png"));
}

#[test]
fn wakeup_prompt_without_attachments_matches_plain_format() {
    let prompt = compose_inbound_wakeup_prompt(
        &test_adapter_config(),
        &test_adapter_record(),
        "channel-9",
        Some("martin"),
        "hello",
        &object(&[]),
        &[],
        0,
    );
    assert!(prompt.starts_with(
        "discord message received at target `channel-9` from martin via adapter `discord-dev`:\n\nhello"
    ));
    assert!(!prompt.contains("attachments"));
    assert!(prompt.contains("send_adapter_message using adapterId `adapter-1`"));
}

#[test]
fn wakeup_prompt_lists_attachments_and_attached_images() {
    let attachments = vec![
        test_attachment(AdapterAttachmentKind::Image, Some("https://a/1.png")),
        test_attachment(AdapterAttachmentKind::Document, Some("https://a/doc.pdf")),
    ];
    let prompt = compose_inbound_wakeup_prompt(
        &test_adapter_config(),
        &test_adapter_record(),
        "channel-9",
        None,
        "look at this",
        &object(&[]),
        &attachments,
        1,
    );
    assert!(prompt.contains("from unknown"));
    assert!(prompt.contains("The message includes these attachments:"));
    assert!(prompt.contains("- image `photo.png` (image/png) — https://a/1.png"));
    assert!(prompt.contains("- document `photo.png` (image/png) — https://a/doc.pdf"));
    assert!(prompt.contains("1 image(s) are attached to this message"));
    assert!(prompt.contains("Attachment URLs may expire quickly"));
}

fn slack_prompt(is_active_thread: Value) -> String {
    let mut adapter = test_adapter_record();
    adapter.config.adapter_type = "slack".to_string();
    adapter.name = "slack-dev".to_string();
    compose_inbound_wakeup_prompt(
        &adapter.config,
        &adapter,
        "C123:1700000000.000000",
        Some("U123"),
        "hello",
        &object(&[
            ("dmTarget", text("dm:U123")),
            ("isActiveThread", is_active_thread),
        ]),
        &[],
        0,
    )
}

#[test]
fn wakeup_prompt_includes_slack_dm_target() {
    let prompt = slack_prompt(Value::Bool(true));
    assert!(prompt.contains("Slack sender DM target: `dm:U123`"));
    assert!(prompt.contains("do not use DM to bypass safety policy"));
    assert!(prompt.contains("Only call send_adapter_message"));
    assert!(prompt.contains("If no response is needed, do nothing"));
}

#[test]
fn only_a_true_active_thread_changes_the_prompt() {
    let active = slack_prompt(Value::Bool(true));
    let quiet = slack_prompt(Value::Bool(false));
    assert_ne!(active, quiet);
    assert_eq!(quiet, slack_prompt(text("true")));
    assert!(!quiet.contains("If no response is needed, do nothing"));
}

#[test]
fn images_are_forwarded_in_base64_up_to_the_size_limit() {
    let attachment = test_attachment(AdapterAttachmentKind::Image, Some("https://a/1.png"));
    let part = image_part(&b"exo!".to_vec(), &attachment).expect("small images are forwarded");
    assert_eq!(part.data, "ZXhvIQ==");
    assert_eq!(part.media_type.as_deref(), Some("image/png"));
    let again = encoded_image("ZXhvIQ==".to_string(), &attachment);
    assert_eq!(again.data, part.data);
    assert_eq!(again.media_type, part.media_type);

    let largest = vec![0u8; MAX_INBOUND_IMAGE_BYTES];
    assert!(image_part(&largest, &attachment).is_some());
    let too_large = vec![0u8; MAX_INBOUND_IMAGE_BYTES + 1];
    assert!(image_part(&too_large, &attachment).is_none());
}

#[test]
fn inbound_summaries_name_what_arrived() {
    assert_eq!(attachment_kind_label(AdapterAttachmentKind::Image), "image");
    assert_eq!(attachment_kind_label(AdapterAttachmentKind::Video), "video");
    assert_eq!(attachment_kind_label(AdapterAttachmentKind::Audio), "audio");
    assert_eq!(attachment_kind_label(AdapterAttachmentKind::Document), "document");
    let plain = inbound_event_summary(
        &test_adapter_config(),
        &Some("martin".to_string()),
        "channel-9",
        0,
    );
    let with_files = inbound_event_summary(&test_adapter_config(), &None, "channel-9", 2);
    assert!(plain.contains("martin") && plain.contains("channel-9"));
    assert!(with_files.contains("2"));
    assert!(download_failure_summary("timed out").contains("timed out"));
}

fn message(message_id: Option<&str>) -> InboundMessage {
    InboundMessage {
        target: "channel-9".to_string(),
        sender: Some("martin".to_string()),
        text: "hello".to_string(),
        message_id: message_id.map(|id| id.to_string()),
        metadata: object(&[]),
        attachments: Vec::new(),
    }
}

#[test]
fn a_redelivered_message_wakes_nobody_twice() {
    let config = test_adapter_config();
    let adapter = test_adapter_record();
    let (mut run, first) = MessageRun::start(&config, message(Some("m-1")));
    assert!(matches!(first, MessageEffect::RecordOnce { ref message_id } if message_id == "m-1"));
    let effect = run.advance(&config, &adapter, MessageEvent::Once { fresh: false });
    assert!(matches!(effect, MessageEffect::Finish { failed: false }));
}

#[test]
fn a_failed_turn_is_recorded_and_keeps_the_worker_up() {
    let config = test_adapter_config();
    let adapter = test_adapter_record();
    let (mut run, first) = MessageRun::start(&config, message(None));
    assert!(matches!(
        first,
        MessageEffect::RecordEvent { event_type: AdapterEventType::Inbound, .. }
    ));
    let effect = run.advance(&config, &adapter, MessageEvent::Recorded);
    assert!(matches!(effect, MessageEffect::Download));
    assert_eq!(run.attachments().len(), 0);
    let effect = run.advance(&config, &adapter, MessageEvent::Downloaded { images: Vec::new() });
    let prompt = match effect {
        MessageEffect::Wake { content: WakeupContent::Text { prompt } } => prompt,
        other => panic!("a message without images wakes with text: {other:?}"),
    };
    assert!(prompt.contains("hello"));
    let effect = run.advance(
        &config,
        &adapter,
        MessageEvent::WakeFailed { error: "boom".to_string() },
    );
    assert!(matches!(effect, MessageEffect::MarkError { ref words } if words.contains("boom")));
    let effect = run.advance(&config, &adapter, MessageEvent::Marked);
    assert!(matches!(
        effect,
        MessageEffect::RecordEvent { event_type: AdapterEventType::Error, .. }
    ));
    let effect = run.advance(&config, &adapter, MessageEvent::Recorded);
    assert!(matches!(effect, MessageEffect::Finish { failed: false }));
}

#[test]
fn a_target_without_a_conversation_gets_one() {
    let mut adapter = test_adapter_record();
    adapter.config = config_with_scope(Some("target"));
    let key = fnv16hex("channel-A");
    let (mut run, first) = ResolveRun::start(&adapter.config, &adapter, "channel-A", &key);
    assert!(matches!(first, ResolveEffect::GetMapping));
    let effect = run.advance(ResolveEvent::Mapped { conversation_id: None });
    let slug = match effect {
        ResolveEffect::Create { slug, .. } => slug,
        other => panic!("an unmapped target gets a conversation: {other:?}"),
    };
    assert_eq!(slug, target_conversation_slug(&adapter, &key));
    let effect = run.advance(ResolveEvent::Created { created: true });
    assert!(matches!(effect, ResolveEffect::PutMapping));
    assert!(matches!(run.advance(ResolveEvent::Put), ResolveEffect::Finish));
}

#[test]
fn a_mapped_target_keeps_its_conversation() {
    let mut adapter = test_adapter_record();
    adapter.config = config_with_scope(Some("target"));
    let key = fnv16hex("channel-A");
    let (mut run, _) = ResolveRun::start(&adapter.config, &adapter, "channel-A", &key);
    let effect = run.advance(ResolveEvent::Mapped { conversation_id: Some("c-7".to_string()) });
    assert!(
        matches!(effect, ResolveEffect::LookUp { ref conversation_id } if conversation_id == "c-7")
    );
    assert!(matches!(
        run.advance(ResolveEvent::LookedUp { found: true }),
        ResolveEffect::Finish
    ));
}

#[test]
fn a_slug_collision_falls_back_to_the_conversation_of_that_slug() {
    let mut adapter = test_adapter_record();
    adapter.config = config_with_scope(Some("target"));
    let key = fnv16hex("channel-A");
    let (mut run, _) = ResolveRun::start(&adapter.config, &adapter, "channel-A", &key);
    run.advance(ResolveEvent::Mapped { conversation_id: None });
    let effect = run.advance(ResolveEvent::Created { created: false });
    assert!(matches!(effect, ResolveEffect::LookUpSlug { .. }));
    let effect = run.advance(ResolveEvent::LookedUpSlug { found: false });
    assert!(matches!(effect, ResolveEffect::FinishFailed { .. }));
}

#[test]
fn root_scope_stays_on_the_adapters_conversation() {
    let adapter = test_adapter_record();
    let (_, first) = ResolveRun::start(&adapter.config, &adapter, "channel-A", "key");
    assert!(matches!(first, ResolveEffect::FinishRoot));
}

#[test]
fn secrets_are_found_by_id_then_by_name() {
    let id = Uuid7 { bits: 7 };
    let secrets = vec![SecretRecord { id, name: "token".to_string() }];
    assert_eq!(resolve_secret_id(Some(Uuid7 { bits: 9 }), &secrets, "token").unwrap().bits, 9);
    assert_eq!(resolve_secret_id(None, &secrets, "token").unwrap().bits, 7);
    assert!(matches!(
        resolve_secret_id(None, &secrets, "other"),
        Err(SecretError::NotFound { reference }) if reference == "other"
    ));

    let entry = AdapterSecretEnv { env: "TOKEN".to_string(), secret_id: "token".to_string() };
    let variable = secret_env_entry(&entry, Some(Secret::Key { value: "v".to_string() }));
    assert_eq!(variable.unwrap(), ("TOKEN".to_string(), "v".to_string()));
    assert!(matches!(
        secret_env_entry(&entry, Some(Secret::Oauth)),
        Err(SecretError::NotAKey)
    ));
    assert!(matches!(
        secret_env_entry(&entry, None),
        Err(SecretError::NotFound { reference }) if reference == "token"
    ));
}

fn notice() -> RebootNotice {
    RebootNotice {
        requested_at: Some("2026-06-09T19:39:02Z".to_string()),
        reason: Some("restart-all".to_string()),
    }
}

#[test]
fn only_a_fresh_notice_that_could_be_removed_is_claimed() {
    let limit = Duration::from_secs(REBOOT_NOTICE_MAX_AGE_SECS);
    let stale = Duration { nanos: limit.nanos + 1 };
    let claimed = claimed_notice(true, Some(limit), Some(notice())).expect("fresh notice");
    assert_eq!(claimed.reason.as_deref(), Some("restart-all"));
    assert_eq!(claimed.requested_at.as_deref(), Some("2026-06-09T19:39:02Z"));
    assert!(claimed_notice(true, Some(stale), Some(notice())).is_none());
    assert!(claimed_notice(false, Some(limit), Some(notice())).is_none());
    assert!(claimed_notice(true, Some(limit), None).is_none());
    assert_eq!(judge_notice(true, Some(limit)), NoticeClaim::Fresh);
    assert_eq!(judge_notice(true, Some(stale)), NoticeClaim::Stale);
    assert_eq!(judge_notice(true, None), NoticeClaim::Stale);
    assert_eq!(judge_notice(false, Some(limit)), NoticeClaim::Lost);
}

#[test]
fn every_adapter_conversation_is_told_of_a_reboot_once() {
    let mut other = test_adapter_record();
    other.id = "adapter-2".to_string();
    other.conversation_id = "conversation-2".to_string();
    let adapters = vec![test_adapter_record(), test_adapter_record(), other];
    let keys = adapter_conversations(&adapters);
    let announcements = reboot_announcements(&adapters, &notice());
    assert_eq!(keys.len(), 2);
    assert_eq!(announcements.len(), 2);
    for (key, announcement) in keys.iter().zip(&announcements) {
        assert_eq!(key.agent_id, announcement.key.agent_id);
        assert_eq!(key.conversation_id, announcement.key.conversation_id);
        assert!(announcement.prompt.contains("restart-all"));
    }
}

#[test]
fn waits_double_until_a_healthy_run_starts_them_over() {
    let options = AdapterRunOptions::default();
    assert!(options.drain_marker.is_none() && options.reboot_notice.is_none());

    let mut supervisor = Supervisor::start();
    let mut waits = Vec::new();
    for ran_for in [1u64, 1, 1, 1, 1, 1, 1, 1, 60] {
        supervisor.advance(SuperviseEvent::DrainChecked { draining: false });
        let effect = supervisor.advance(SuperviseEvent::Found { enabled: Some(true) });
        assert!(matches!(effect, SuperviseEffect::Run));
        let effect = supervisor.advance(SuperviseEvent::RunFailed {
            ran_for: Duration::from_secs(ran_for),
        });
        match effect {
            SuperviseEffect::FailAndSleep { secs } => waits.push(secs),
            other => panic!("a failed worker is restarted after a wait: {other:?}"),
        }
        supervisor.advance(SuperviseEvent::Slept);
    }
    assert_eq!(waits, vec![5, 10, 20, 40, 80, 160, 300, 300, 5]);
}

#[test]
fn draining_and_disabling_stop_a_worker() {
    assert!(should_stop(true, Some(true)));
    assert!(should_stop(false, Some(false)));
    assert!(!should_stop(false, Some(true)));

    let mut supervisor = Supervisor::start();
    assert!(matches!(
        supervisor.advance(SuperviseEvent::DrainChecked { draining: true }),
        SuperviseEffect::Finish
    ));
}

#[test]
fn running_adapters_are_not_started_again() {
    let mut second = test_adapter_record();
    second.id = "adapter-2".to_string();
    let mut third = test_adapter_record();
    third.id = "adapter-3".to_string();
    let enabled = vec![test_adapter_record(), second, third];
    assert_eq!(adapters_to_start(&enabled, 10, &vec!["adapter-2".to_string()]), vec![0, 2]);
    assert_eq!(adapters_to_start(&enabled, 1, &Vec::new()), vec![0]);
}

#[test]
fn lifecycle_events_carry_their_payload_as_json() {
    let steps = handle_worker_event(
        &test_adapter_config(),
        WorkerEvent::Lifecycle {
            name: "reconnecting".to_string(),
            metadata: object(&[("attempt", text("2"))]),
        },
    );
    assert!(steps.iter().any(|step| matches!(
        step,
        WorkerStep::RecordEvent { summary, .. } if summary.contains("{\"attempt\":\"2\"}")
    )));
}

#[test]
fn worker_events_become_their_steps() {
    let config = test_adapter_config();
    let steps = handle_worker_event(
        &config,
        WorkerEvent::Connected { subject: Some("bot".to_string()), metadata: Value::Bool(true) },
    );
    assert!(matches!(steps[0], WorkerStep::MarkConnected));
    assert!(matches!(
        &steps[1],
        WorkerStep::RecordEvent { event_type: AdapterEventType::Connected, summary }
            if summary.ends_with(" worker connected: {\"metadata\":true,\"subject\":\"bot\"}")
    ));
    let steps = handle_worker_event(
        &config,
        WorkerEvent::Connected { subject: None, metadata: Value::from(7) },
    );
    assert!(matches!(
        &steps[1],
        WorkerStep::RecordEvent { summary, .. }
            if summary.ends_with(": {\"metadata\":7,\"subject\":null}")
    ));
    let steps = handle_worker_event(&config, WorkerEvent::Error { message: "boom".to_string() });
    assert!(matches!(&steps[0], WorkerStep::MarkError { words } if words == "boom"));
    let steps = handle_worker_event(
        &config,
        WorkerEvent::CommandAck { command_id: "c-1".to_string() },
    );
    assert!(matches!(&steps[0], WorkerStep::Acknowledge { command_id } if command_id == "c-1"));
    let steps = handle_worker_event(
        &config,
        WorkerEvent::CommandNack { command_id: "c-1".to_string(), message: "no".to_string() },
    );
    assert!(matches!(
        &steps[0],
        WorkerStep::Refuse { command_id, reason } if command_id == "c-1" && reason == "no"
    ));
    let steps = handle_worker_event(&config, WorkerEvent::Message { message: message(None) });
    assert!(matches!(&steps[0], WorkerStep::Deliver { message } if message.text == "hello"));
    let steps = handle_worker_event(
        &config,
        WorkerEvent::Disconnected { reason: Some("bye".to_string()) },
    );
    assert!(matches!(
        &steps[0],
        WorkerStep::RecordEvent { event_type: AdapterEventType::Disconnected, summary }
            if summary.ends_with(" worker disconnected: {\"reason\":\"bye\"}")
    ));
    let steps = handle_worker_event(&config, WorkerEvent::Disconnected { reason: None });
    assert!(matches!(
        &steps[0],
        WorkerStep::RecordEvent { summary, .. } if summary.ends_with(": {\"reason\":null}")
    ));
}
