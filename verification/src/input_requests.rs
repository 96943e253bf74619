//! Input requests: the pair of custom events that mark a conversation as
//! blocked on a human, and record how the block was settled.

use serde_json::Value;
use vstd::prelude::*;

use crate::clock::DateTimeUtc;
use crate::ids::Uuid7;
use crate::json::{self, Json};
use crate::payload;
use crate::text;

verus! {

/// The custom event of an agent that starts waiting on a human.
pub const INPUT_REQUESTED_EVENT: &'static str = "input_requested";

/// The custom event of a request that is settled.
pub const INPUT_RESOLVED_EVENT: &'static str = "input_resolved";

/// How many events a scan of a conversation asks for at a time.
pub const PENDING_SCAN_PAGE_LIMIT: u32 = 200;

/// What is being asked for.
#[derive(Debug, Clone, Copy, PartialEq, Eq, Structural)]
pub enum InputRequestKind {
    Question,
    ToolConfirmation,
    Feedback,
    Auth,
}

/// How a request was settled.
#[derive(Debug, Clone, Copy, PartialEq, Eq, Structural)]
pub enum InputResolution {
    Answered,
    Cancelled,
    Expired,
}

/// The name of a kind in a payload.
pub open spec fn kind_name(kind: InputRequestKind) -> Seq<char> {
    match kind {
        InputRequestKind::Question => "question"@,
        InputRequestKind::ToolConfirmation => "tool_confirmation"@,
        InputRequestKind::Feedback => "feedback"@,
        InputRequestKind::Auth => "auth"@,
    }
}

/// The name of a resolution in a payload.
pub open spec fn resolution_name(resolution: InputResolution) -> Seq<char> {
    match resolution {
        InputResolution::Answered => "answered"@,
        InputResolution::Cancelled => "cancelled"@,
        InputResolution::Expired => "expired"@,
    }
}

impl InputRequestKind {
    /// The kind's name in a payload.
    pub fn as_str(&self) -> (name: &'static str)
        ensures
            name@ == kind_name(*self),
    {
        match self {
            InputRequestKind::Question => "question",
            InputRequestKind::ToolConfirmation => "tool_confirmation",
            InputRequestKind::Feedback => "feedback",
            InputRequestKind::Auth => "auth",
        }
    }
}

impl InputResolution {
    /// The resolution's name in a payload.
    pub fn as_str(&self) -> (name: &'static str)
        ensures
            name@ == resolution_name(*self),
    {
        match self {
            InputResolution::Answered => "answered",
            InputResolution::Cancelled => "cancelled",
            InputResolution::Expired => "expired",
        }
    }
}

/// Payload of an `input_requested` event. The payload is open: other fields are
/// ignored. `adapter_id` and `target` are set when the request was relayed to
/// an external channel.
#[derive(Debug)]
pub struct InputRequestedPayload {
    pub request_id: String,
    pub kind: InputRequestKind,
    pub prompt: String,
    pub answer_schema: Option<Value>,
    pub tool_call_id: Option<String>,
    pub adapter_id: Option<String>,
    pub target: Option<String>,
}

/// Payload of an `input_resolved` event.
#[derive(Debug)]
pub struct InputResolvedPayload {
    pub request_id: String,
    pub resolution: InputResolution,
    pub answer: Option<Value>,
    pub resolved_by: Option<String>,
}

/// The contents of an [`InputRequestedPayload`].
#[verifier::ext_equal]
pub struct RequestedView {
    pub request_id: Seq<char>,
    pub kind: InputRequestKind,
    pub prompt: Seq<char>,
    pub answer_schema: Option<Json>,
    pub tool_call_id: Option<Seq<char>>,
    pub adapter_id: Option<Seq<char>>,
    pub target: Option<Seq<char>>,
}

/// The contents of an [`InputResolvedPayload`].
#[verifier::ext_equal]
pub struct ResolvedView {
    pub request_id: Seq<char>,
    pub resolution: InputResolution,
    pub answer: Option<Json>,
    pub resolved_by: Option<Seq<char>>,
}

impl View for InputRequestedPayload {
    type V = RequestedView;

    open spec fn view(&self) -> RequestedView {
        RequestedView {
            request_id: self.request_id@,
            kind: self.kind,
            prompt: self.prompt@,
            answer_schema: payload::opt_json(self.answer_schema),
            tool_call_id: text::opt_view(self.tool_call_id),
            adapter_id: text::opt_view(self.adapter_id),
            target: text::opt_view(self.target),
        }
    }
}

impl View for InputResolvedPayload {
    type V = ResolvedView;

    open spec fn view(&self) -> ResolvedView {
        ResolvedView {
            request_id: self.request_id@,
            resolution: self.resolution,
            answer: payload::opt_json(self.answer),
            resolved_by: text::opt_view(self.resolved_by),
        }
    }
}

impl Clone for InputRequestedPayload {
    fn clone(&self) -> (copy: Self)
        ensures
            copy@ == self@,
    {
        InputRequestedPayload {
            request_id: self.request_id.clone(),
            kind: self.kind,
            prompt: self.prompt.clone(),
            answer_schema: match &self.answer_schema {
                Some(schema) => Some(json::copy_of(schema)),
                None => None,
            },
            tool_call_id: text::opt_copy(&self.tool_call_id),
            adapter_id: text::opt_copy(&self.adapter_id),
            target: text::opt_copy(&self.target),
        }
    }
}

/// The kind a value names.
pub open spec fn kind_of(held: Json) -> Option<InputRequestKind> {
    if payload::names_variant(held, kind_name(InputRequestKind::Question)) {
        Some(InputRequestKind::Question)
    } else if payload::names_variant(held, kind_name(InputRequestKind::ToolConfirmation)) {
        Some(InputRequestKind::ToolConfirmation)
    } else if payload::names_variant(held, kind_name(InputRequestKind::Feedback)) {
        Some(InputRequestKind::Feedback)
    } else if payload::names_variant(held, kind_name(InputRequestKind::Auth)) {
        Some(InputRequestKind::Auth)
    } else {
        None
    }
}

/// The resolution a value names.
pub open spec fn resolution_of(held: Json) -> Option<InputResolution> {
    if payload::names_variant(held, resolution_name(InputResolution::Answered)) {
        Some(InputResolution::Answered)
    } else if payload::names_variant(held, resolution_name(InputResolution::Cancelled)) {
        Some(InputResolution::Cancelled)
    } else if payload::names_variant(held, resolution_name(InputResolution::Expired)) {
        Some(InputResolution::Expired)
    } else {
        None
    }
}

/// The request a payload holds; `None` where it is malformed.
pub open spec fn requested(held: Json) -> Option<RequestedView> {
    let request_id = json::text_of(payload::part(held, "request_id"@, 0));
    let kind = payload::part(held, "kind"@, 1);
    let prompt = json::text_of(payload::part(held, "prompt"@, 2));
    let tool_call_id = payload::optional_text(payload::part(held, "tool_call_id"@, 4));
    let adapter_id = payload::optional_text(payload::part(held, "adapter_id"@, 5));
    let target = payload::optional_text(payload::part(held, "target"@, 6));
    if payload::is_record(held, 7) && request_id is Some && kind is Some && kind_of(kind->0) is Some
        && prompt is Some && tool_call_id is Some && adapter_id is Some && target is Some {
        Some(
            RequestedView {
                request_id: request_id->0,
                kind: kind_of(kind->0)->0,
                prompt: prompt->0,
                answer_schema: payload::optional_value(payload::part(held, "answer_schema"@, 3)),
                tool_call_id: tool_call_id->0,
                adapter_id: adapter_id->0,
                target: target->0,
            },
        )
    } else {
        None
    }
}

/// The resolution a payload holds; `None` where it is malformed.
pub open spec fn resolved(held: Json) -> Option<ResolvedView> {
    let request_id = json::text_of(payload::part(held, "request_id"@, 0));
    let resolution = payload::part(held, "resolution"@, 1);
    let resolved_by = payload::optional_text(payload::part(held, "resolved_by"@, 3));
    if payload::is_record(held, 4) && request_id is Some && resolution is Some && resolution_of(
        resolution->0,
    ) is Some && resolved_by is Some {
        Some(
            ResolvedView {
                request_id: request_id->0,
                resolution: resolution_of(resolution->0)->0,
                answer: payload::optional_value(payload::part(held, "answer"@, 2)),
                resolved_by: resolved_by->0,
            },
        )
    } else {
        None
    }
}

/// Reads the kind a value names.
fn read_kind(value: &Value) -> (kind: Option<InputRequestKind>)
    ensures
        kind == kind_of(json::json(*value)),
{
    if payload::is_variant(value, InputRequestKind::Question.as_str()) {
        Some(InputRequestKind::Question)
    } else if payload::is_variant(value, InputRequestKind::ToolConfirmation.as_str()) {
        Some(InputRequestKind::ToolConfirmation)
    } else if payload::is_variant(value, InputRequestKind::Feedback.as_str()) {
        Some(InputRequestKind::Feedback)
    } else if payload::is_variant(value, InputRequestKind::Auth.as_str()) {
        Some(InputRequestKind::Auth)
    } else {
        None
    }
}

/// Reads the resolution a value names.
fn read_resolution(value: &Value) -> (resolution: Option<InputResolution>)
    ensures
        resolution == resolution_of(json::json(*value)),
{
    if payload::is_variant(value, InputResolution::Answered.as_str()) {
        Some(InputResolution::Answered)
    } else if payload::is_variant(value, InputResolution::Cancelled.as_str()) {
        Some(InputResolution::Cancelled)
    } else if payload::is_variant(value, InputResolution::Expired.as_str()) {
        Some(InputResolution::Expired)
    } else {
        None
    }
}

/// Reads the payload of an `input_requested` event; `None` where it is
/// malformed.
pub fn read_requested(value: &Value) -> (read: Option<InputRequestedPayload>)
    ensures
        match requested(json::json(*value)) {
            Some(held) => read matches Some(payload) && payload@ == held,
            None => read is None,
        },
{
    if !payload::can_be_record(value, 7) {
        return None;
    }
    let kind = match payload::find_part(value, "kind", 1) {
        Some(named) => read_kind(named),
        None => None,
    };
    match (
        payload::required_text_part(value, "request_id", 0),
        kind,
        payload::required_text_part(value, "prompt", 2),
        payload::optional_text_part(value, "tool_call_id", 4),
        payload::optional_text_part(value, "adapter_id", 5),
        payload::optional_text_part(value, "target", 6),
    ) {
        (
            Some(request_id),
            Some(kind),
            Some(prompt),
            Some(tool_call_id),
            Some(adapter_id),
            Some(target),
        ) => Some(
            InputRequestedPayload {
                request_id,
                kind,
                prompt,
                answer_schema: payload::optional_value_part(value, "answer_schema", 3),
                tool_call_id,
                adapter_id,
                target,
            },
        ),
        _ => None,
    }
}

/// Reads the payload of an `input_resolved` event; `None` where it is
/// malformed.
pub fn read_resolved(value: &Value) -> (read: Option<InputResolvedPayload>)
    ensures
        match resolved(json::json(*value)) {
            Some(held) => read matches Some(payload) && payload@ == held,
            None => read is None,
        },
{
    if !payload::can_be_record(value, 4) {
        return None;
    }
    let resolution = match payload::find_part(value, "resolution", 1) {
        Some(named) => read_resolution(named),
        None => None,
    };
    match (
        payload::required_text_part(value, "request_id", 0),
        resolution,
        payload::optional_text_part(value, "resolved_by", 3),
    ) {
        (Some(request_id), Some(resolution), Some(resolved_by)) => Some(
            InputResolvedPayload {
                request_id,
                resolution,
                answer: payload::optional_value_part(value, "answer", 2),
                resolved_by,
            },
        ),
        _ => None,
    }
}

/// What an event of a conversation holds. Only custom events matter here.
#[derive(Debug)]
pub enum EventData {
    Custom { event_type: String, payload: Value },
    Other,
}

/// An event of a conversation's log.
#[derive(Debug)]
pub struct ConversationEvent {
    pub id: Uuid7,
    pub created_at: DateTimeUtc,
    pub data: EventData,
}

/// A request that waits for its resolution.
#[derive(Debug)]
pub struct PendingInputRequest {
    pub event_id: Uuid7,
    pub requested_at: DateTimeUtc,
    pub payload: InputRequestedPayload,
}

/// The contents of a [`PendingInputRequest`].
#[verifier::ext_equal]
pub struct PendingView {
    pub event_id: Uuid7,
    pub requested_at: DateTimeUtc,
    pub payload: RequestedView,
}

impl View for PendingInputRequest {
    type V = PendingView;

    open spec fn view(&self) -> PendingView {
        PendingView {
            event_id: self.event_id,
            requested_at: self.requested_at,
            payload: self.payload@,
        }
    }
}

impl Clone for PendingInputRequest {
    fn clone(&self) -> (copy: Self)
        ensures
            copy@ == self@,
    {
        PendingInputRequest {
            event_id: self.event_id,
            requested_at: self.requested_at,
            payload: self.payload.clone(),
        }
    }
}

/// The request an event makes, where it is a well-formed one.
pub open spec fn request_in(event: ConversationEvent) -> Option<PendingView> {
    match event.data {
        EventData::Custom { event_type, payload } => if event_type@ == INPUT_REQUESTED_EVENT@ {
            match requested(json::json(payload)) {
                Some(held) => Some(
                    PendingView {
                        event_id: event.id,
                        requested_at: event.created_at,
                        payload: held,
                    },
                ),
                None => None,
            }
        } else {
            None
        },
        EventData::Other => None,
    }
}

/// The id of the request an event settles, where it is a well-formed
/// resolution.
pub open spec fn resolution_in(event: ConversationEvent) -> Option<Seq<char>> {
    match event.data {
        EventData::Custom { event_type, payload } => if event_type@ == INPUT_RESOLVED_EVENT@ {
            match resolved(json::json(payload)) {
                Some(held) => Some(held.request_id),
                None => None,
            }
        } else {
            None
        },
        EventData::Other => None,
    }
}

/// Whether a request of this id waits.
pub open spec fn is_waiting(pending: Seq<PendingView>, request_id: Seq<char>) -> bool {
    exists|i: int| 0 <= i < pending.len() && (#[trigger] pending[i]).payload.request_id
        == request_id
}

/// Whether an event is a well-formed request of this id.
pub open spec fn asks(event: ConversationEvent, request_id: Seq<char>) -> bool {
    request_in(event) matches Some(request) && request.payload.request_id == request_id
}

/// Whether an event is a well-formed resolution of this id.
pub open spec fn settles(event: ConversationEvent, request_id: Seq<char>) -> bool {
    resolution_in(event) == Some(request_id)
}

/// Whether a log holds a well-formed resolution of this id, wherever it stands.
pub open spec fn is_settled(log: Seq<ConversationEvent>, request_id: Seq<char>) -> bool {
    exists|j: int| 0 <= j < log.len() && settles(#[trigger] log[j], request_id)
}

/// Whether the event at a place of a log is a pending request: no resolution in
/// the log carries its id, and it is the first request that does.
pub open spec fn is_open(log: Seq<ConversationEvent>, at: int) -> bool {
    &&& 0 <= at < log.len()
    &&& request_in(log[at]) matches Some(request)
    &&& !is_settled(log, request.payload.request_id)
    &&& forall|k: int| 0 <= k < at ==> !asks(#[trigger] log[k], request.payload.request_id)
}

/// The pending requests among the first `n` events of a log, in event order.
pub open spec fn open_requests(log: Seq<ConversationEvent>, n: nat) -> Seq<PendingView>
    decreases n,
{
    if n == 0 {
        Seq::empty()
    } else {
        let before = open_requests(log, (n - 1) as nat);
        if is_open(log, n - 1) {
            before.push(request_in(log[n - 1])->0)
        } else {
            before
        }
    }
}

/// The pending set of a log: its requests whose ids no resolution in it
/// carries, oldest first, each id once.
pub open spec fn pending_set(log: Seq<ConversationEvent>) -> Seq<PendingView> {
    open_requests(log, log.len())
}

/// What a scan knows of the events it has seen: the pending set, and the ids
/// that were settled.
#[verifier::ext_equal]
pub struct ScanView {
    pub pending: Seq<PendingView>,
    pub settled: Set<Seq<char>>,
}

/// What a scan knows before it has seen an event.
pub open spec fn unread() -> ScanView {
    ScanView { pending: Seq::empty(), settled: Set::empty() }
}

/// What a scan knows after one more event: a request joins the pending set
/// unless its id was settled or waits already, a resolution settles its id, and
/// anything else leaves what there is.
pub open spec fn after_event(scan: ScanView, event: ConversationEvent) -> ScanView {
    match request_in(event) {
        Some(request) => if scan.settled.contains(request.payload.request_id) || is_waiting(
            scan.pending,
            request.payload.request_id,
        ) {
            scan
        } else {
            ScanView { pending: scan.pending.push(request), settled: scan.settled }
        },
        None => match resolution_in(event) {
            Some(request_id) => ScanView {
                pending: scan.pending.filter(
                    |request: PendingView| request.payload.request_id != request_id,
                ),
                settled: scan.settled.insert(request_id),
            },
            None => scan,
        },
    }
}

/// What a scan knows after some more events.
pub open spec fn after_events(scan: ScanView, events: Seq<ConversationEvent>) -> ScanView
    decreases events.len(),
{
    if events.len() == 0 {
        scan
    } else {
        after_event(after_events(scan, events.drop_last()), events.last())
    }
}

/// The contents of each request.
pub open spec fn pending_views(pending: Seq<PendingInputRequest>) -> Seq<PendingView> {
    pending.map_values(|request: PendingInputRequest| request@)
}

/// A scan of a conversation's log for its pending set, a page of events at a
/// time. Only the two kinds of events of the convention are asked for, in
/// ascending order, so per-turn traffic is never read.
#[derive(Debug)]
pub struct PendingScan {
    pending: Vec<PendingInputRequest>,
    settled: Vec<String>,
}

impl View for PendingScan {
    type V = ScanView;

    closed spec fn view(&self) -> ScanView {
        ScanView {
            pending: pending_views(self.pending@),
            settled: text::views(self.settled@).to_set(),
        }
    }
}

impl PendingScan {
    /// A scan that has seen nothing yet.
    pub fn new() -> (scan: Self)
        ensures
            scan@ == unread(),
    {
        let scan = PendingScan { pending: Vec::new(), settled: Vec::new() };
        assert(scan@.pending =~= Seq::<PendingView>::empty());
        assert(scan@.settled =~= Set::<Seq<char>>::empty());
        scan
    }

    /// Takes a page of events, and whether the log gave a cursor behind it.
    /// Returns whether to ask for the page at that cursor: an empty page ends
    /// the scan whatever the cursor.
    pub fn take_page(&mut self, events: &Vec<ConversationEvent>, has_cursor: bool) -> (more: bool)
        ensures
            final(self)@ == after_events(old(self)@, events@),
            more == (has_cursor && events.len() > 0),
    {
        let mut i: usize = 0;
        assert(events@.take(0) =~= Seq::empty());
        while i < events.len()
            invariant
                i <= events.len(),
                self@ == after_events(old(self)@, events@.take(i as int)),
            decreases events.len() - i,
        {
            proof {
                assert(events@.take(i + 1).drop_last() =~= events@.take(i as int));
                assert(events@.take(i + 1).last() == events@[i as int]);
            }
            self.take_event(&events[i]);
            i += 1;
        }
        assert(events@.take(i as int) =~= events@);
        has_cursor && events.len() > 0
    }

    /// Takes one event.
    fn take_event(&mut self, event: &ConversationEvent)
        ensures
            final(self)@ == after_event(old(self)@, *event),
    {
        match &event.data {
            EventData::Custom { event_type, payload } => {
                if text::str_eq(event_type.as_str(), INPUT_REQUESTED_EVENT) {
                    match read_requested(payload) {
                        Some(payload) => {
                            if !text::holds_text(&self.settled, payload.request_id.as_str())
                                && !self.waits(payload.request_id.as_str()) {
                                let ghost before = self.pending@;
                                let request = PendingInputRequest {
                                    event_id: event.id,
                                    requested_at: event.created_at,
                                    payload,
                                };
                                let ghost view = request@;
                                self.pending.push(request);
                                assert(self@.pending =~= pending_views(before).push(view));
                            }
                        },
                        None => {
                            assert(request_in(*event) is None);
                            assert(resolution_in(*event) is None) by {
                                event_types_differ();
                            }
                        },
                    }
                } else if text::str_eq(event_type.as_str(), INPUT_RESOLVED_EVENT) {
                    if let Some(payload) = read_resolved(payload) {
                        self.settle(payload.request_id.as_str());
                    }
                }
            },
            EventData::Other => {},
        }
    }

    /// Whether a request of this id waits.
    fn waits(&self, request_id: &str) -> (waiting: bool)
        ensures
            waiting == is_waiting(self@.pending, request_id@),
    {
        let mut i: usize = 0;
        while i < self.pending.len()
            invariant
                i <= self.pending.len(),
                forall|j: int|
                    0 <= j < i ==> (#[trigger] self@.pending[j]).payload.request_id
                        != request_id@,
            decreases self.pending.len() - i,
        {
            assert(self@.pending[i as int] == self.pending@[i as int]@);
            if text::str_eq(self.pending[i].payload.request_id.as_str(), request_id) {
                return true;
            }
            i += 1;
        }
        false
    }

    /// Settles this id: its requests leave, and none joins any more.
    fn settle(&mut self, request_id: &str)
        ensures
            final(self)@ == (ScanView {
                pending: old(self)@.pending.filter(
                    |request: PendingView| request.payload.request_id != request_id@,
                ),
                settled: old(self)@.settled.insert(request_id@),
            }),
    {
        let ghost before = self@.pending;
        let ghost ids = text::views(self.settled@);
        let ghost keep = |request: PendingView| request.payload.request_id != request_id@;
        let mut rest: Vec<PendingInputRequest> = Vec::new();
        std::mem::swap(&mut rest, &mut self.pending);
        let ghost all = rest@;
        let mut kept: Vec<PendingInputRequest> = Vec::new();
        proof {
            assert(before.skip(before.len() as int) =~= Seq::empty());
            reveal(Seq::filter);
            assert(before.take(before.len() as int) =~= before);
        }
        let mut i: usize = 0;
        assert(pending_views(kept@) =~= before.take(0).filter(keep)) by {
            assert(before.take(0) =~= Seq::empty());
        }
        while i < rest.len()
            invariant
                i <= rest.len(),
                rest@ == all,
                before == pending_views(all),
                keep == (|request: PendingView| request.payload.request_id != request_id@),
                pending_views(kept@) == before.take(i as int).filter(keep),
            decreases rest.len() - i,
        {
            let ghost held = kept@;
            proof {
                assert(before.take(i + 1).drop_last() =~= before.take(i as int));
                assert(before.take(i + 1).last() == rest@[i as int]@);
                reveal(Seq::filter);
            }
            if !text::str_eq(rest[i].payload.request_id.as_str(), request_id) {
                kept.push(rest[i].clone());
                assert(pending_views(kept@) =~= pending_views(held).push(rest@[i as int]@));
            }
            i += 1;
        }
        self.pending = kept;
        if text::holds_text(&self.settled, request_id) {
            assert(ids.to_set() =~= ids.to_set().insert(request_id@));
        } else {
            self.settled.push(request_id.to_string());
            proof {
                let longer = text::views(self.settled@);
                assert(longer =~= ids.push(request_id@));
                assert(longer.to_set() =~= ids.to_set().insert(request_id@)) by {
                    assert forall|id: Seq<char>| #[trigger]
                        longer.contains(id) == (ids.contains(id) || id == request_id@) by {
                        if longer.contains(id) {
                            let k = choose|k: int| 0 <= k < longer.len() && longer[k] == id;
                            assert(k < ids.len() ==> ids[k] == id);
                        }
                        if ids.contains(id) {
                            let k = choose|k: int| 0 <= k < ids.len() && ids[k] == id;
                            assert(longer[k] == id);
                        }
                        assert(longer[ids.len() as int] == request_id@);
                    }
                }
            }
        }
    }

    /// The pending set, oldest first.
    pub fn finish(self) -> (pending: Vec<PendingInputRequest>)
        ensures
            pending_views(pending@) == self@.pending,
    {
        self.pending
    }
}

/// The conversation's pending set: its requests without a matching resolution,
/// oldest first. A resolution matches by id, wherever in the log it stands.
/// Malformed payloads, and resolutions of what was never asked, are ignored.
pub fn pending_input_requests(events: &Vec<ConversationEvent>) -> (pending: Vec<
    PendingInputRequest,
>)
    ensures
        pending_views(pending@) == pending_set(events@),
{
    proof {
        crate::input_request_laws::a_scan_finds_the_pending_set(events@);
    }
    let mut scan = PendingScan::new();
    scan.take_page(events, false);
    scan.finish()
}

/// The two event types are two.
proof fn event_types_differ()
    ensures
        INPUT_REQUESTED_EVENT@ != INPUT_RESOLVED_EVENT@,
{
    reveal_strlit("input_requested");
    reveal_strlit("input_resolved");
    assert("input_requested"@.len() != "input_resolved"@.len());
}

/// Whether a reply from this adapter and target answers a request: it was
/// relayed through the adapter and, where it pinned a target, through this one.
pub open spec fn answers(request: RequestedView, adapter_id: Seq<char>, target: Seq<char>) -> bool {
    request.adapter_id == Some(adapter_id) && (request.target is None || request.target == Some(
        target,
    ))
}

/// The oldest pending request that a reply from this adapter and target
/// answers. A request that was relayed nowhere is never claimed by a reply.
pub fn match_pending_adapter_request<'a>(
    pending: &'a [PendingInputRequest],
    adapter_id: &str,
    target: &str,
) -> (matched: Option<&'a PendingInputRequest>)
    ensures
        match matched {
            Some(request) => exists|i: int|
                0 <= i < pending.len() && *request == #[trigger] pending@[i] && answers(
                    pending@[i]@.payload,
                    adapter_id@,
                    target@,
                ) && forall|j: int|
                    0 <= j < i ==> !answers(
                        (#[trigger] pending@[j])@.payload,
                        adapter_id@,
                        target@,
                    ),
            None => forall|i: int|
                0 <= i < pending.len() ==> !answers(
                    (#[trigger] pending@[i])@.payload,
                    adapter_id@,
                    target@,
                ),
        },
{
    let mut i: usize = 0;
    while i < pending.len()
        invariant
            i <= pending.len(),
            forall|j: int|
                0 <= j < i ==> !answers((#[trigger] pending@[j])@.payload, adapter_id@, target@),
        decreases pending.len() - i,
    {
        let request = &pending[i];
        if text::opt_str_eq(&request.payload.adapter_id, adapter_id) && (
        request.payload.target.is_none() || text::opt_str_eq(&request.payload.target, target)) {
            return Some(request);
        }
        i += 1;
    }
    None
}

/// The oldest of the requests that a reply answers, and the resolution the
/// reply is recorded as: answered, with the reply's text. `None` where the reply
/// answers nothing, and nothing is recorded.
pub fn resolve_pending_adapter_input_request(
    pending: &[PendingInputRequest],
    adapter_id: &str,
    target: &str,
    resolved_by: Option<&str>,
    answer_text: &str,
) -> (settled: Option<(PendingInputRequest, InputResolvedPayload)>)
    ensures
        match settled {
            Some((request, resolution)) => {
                &&& exists|i: int|
                    0 <= i < pending.len() && request@ == (#[trigger] pending@[i])@ && answers(
                        pending@[i]@.payload,
                        adapter_id@,
                        target@,
                    ) && forall|j: int|
                        0 <= j < i ==> !answers(
                            (#[trigger] pending@[j])@.payload,
                            adapter_id@,
                            target@,
                        )
                &&& resolution@ == (ResolvedView {
                    request_id: request@.payload.request_id,
                    resolution: InputResolution::Answered,
                    answer: Some(Json::Text(answer_text@)),
                    resolved_by: text::opt_str_view(resolved_by),
                })
            },
            None => forall|i: int|
                0 <= i < pending.len() ==> !answers(
                    (#[trigger] pending@[i])@.payload,
                    adapter_id@,
                    target@,
                ),
        },
{
    match match_pending_adapter_request(pending, adapter_id, target) {
        Some(request) => Some(
            (
                request.clone(),
                InputResolvedPayload {
                    request_id: request.payload.request_id.clone(),
                    resolution: InputResolution::Answered,
                    answer: Some(json::text_value(answer_text.to_string())),
                    resolved_by: text::opt_owned(resolved_by),
                },
            ),
        ),
        None => None,
    }
}

} // verus!
