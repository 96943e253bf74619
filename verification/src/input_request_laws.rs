//! The matching rule of input requests: what the pending set of a log is.

use vstd::prelude::*;

use crate::input_requests::{self, ConversationEvent, PendingView, ScanView};

verus! {

/// An event takes one part only.
proof fn a_request_settles_nothing(event: ConversationEvent)
    ensures
        input_requests::request_in(event) is Some ==> input_requests::resolution_in(event) is None,
{
    reveal_strlit("input_requested");
    reveal_strlit("input_resolved");
    assert("input_requested"@.len() != "input_resolved"@.len());
}

/// What one more event settles.
proof fn one_more_event_settles(
    log: Seq<ConversationEvent>,
    event: ConversationEvent,
    id: Seq<char>,
)
    ensures
        input_requests::is_settled(log.push(event), id) == (input_requests::is_settled(log, id)
            || input_requests::settles(event, id)),
{
    let longer = log.push(event);
    if input_requests::is_settled(longer, id) {
        let j = choose|j: int|
            0 <= j < longer.len() && input_requests::settles(#[trigger] longer[j], id);
        assert(j < log.len() ==> input_requests::settles(log[j], id));
    }
    if input_requests::is_settled(log, id) {
        let j = choose|j: int|
            0 <= j < log.len() && input_requests::settles(#[trigger] log[j], id);
        assert(input_requests::settles(longer[j], id));
    }
    if input_requests::settles(event, id) {
        assert(input_requests::settles(longer[log.len() as int], id));
    }
}

/// What one more event leaves open of the events before it: all but what it
/// settles.
proof fn one_more_event_leaves_open(
    log: Seq<ConversationEvent>,
    event: ConversationEvent,
    at: int,
)
    requires
        0 <= at < log.len(),
    ensures
        input_requests::is_open(log.push(event), at) <==> input_requests::is_open(log, at)
            && !input_requests::settles(
            event,
            input_requests::request_in(log[at])->0.payload.request_id,
        ),
{
    let longer = log.push(event);
    assert(longer[at] == log[at]);
    if input_requests::request_in(log[at]) is Some {
        let id = input_requests::request_in(log[at])->0.payload.request_id;
        one_more_event_settles(log, event, id);
        assert forall|k: int| 0 <= k < at implies input_requests::asks(#[trigger] longer[k], id)
            == input_requests::asks(log[k], id) by {
            assert(longer[k] == log[k]);
        }
        if input_requests::is_open(longer, at) {
            assert forall|k: int| 0 <= k < at implies !input_requests::asks(
                #[trigger] log[k],
                id,
            ) by {
                assert(!input_requests::asks(longer[k], id));
            }
        }
    }
}

/// What an event that settles nothing leaves of the events before it.
proof fn open_requests_survive(log: Seq<ConversationEvent>, event: ConversationEvent, n: nat)
    requires
        n <= log.len(),
        input_requests::resolution_in(event) is None,
    ensures
        input_requests::open_requests(log.push(event), n) == input_requests::open_requests(log, n),
    decreases n,
{
    if n > 0 {
        open_requests_survive(log, event, (n - 1) as nat);
        one_more_event_leaves_open(log, event, n - 1);
        assert(log.push(event)[n - 1] == log[n - 1]);
    }
}

/// What a resolution leaves of the events before it.
proof fn a_resolution_closes(
    log: Seq<ConversationEvent>,
    event: ConversationEvent,
    n: nat,
    settled: Seq<char>,
)
    requires
        n <= log.len(),
        input_requests::settles(event, settled),
    ensures
        input_requests::open_requests(log.push(event), n) == input_requests::open_requests(
            log,
            n,
        ).filter(|request: PendingView| request.payload.request_id != settled),
    decreases n,
{
    let keep = |request: PendingView| request.payload.request_id != settled;
    let longer = log.push(event);
    reveal(Seq::filter);
    if n > 0 {
        let at = n - 1;
        a_resolution_closes(log, event, at as nat, settled);
        one_more_event_leaves_open(log, event, at);
        assert(longer[at] == log[at]);
        let before = input_requests::open_requests(log, at as nat);
        if input_requests::is_open(log, at) {
            let request = input_requests::request_in(log[at])->0;
            assert(before.push(request).drop_last() =~= before);
            assert(before.push(request).last() == request);
        }
    } else {
        assert(input_requests::open_requests(log, 0).filter(keep)
            =~= input_requests::open_requests(longer, 0));
    }
}

/// What is pending among the first events, and where it stands.
proof fn open_requests_are_found(log: Seq<ConversationEvent>, n: nat, id: Seq<char>)
    requires
        n <= log.len(),
    ensures
        input_requests::is_waiting(input_requests::open_requests(log, n), id) <==> (exists|i: int|
            0 <= i < n && #[trigger] input_requests::is_open(log, i) && input_requests::asks(
                log[i],
                id,
            )),
    decreases n,
{
    let found = input_requests::open_requests(log, n);
    if n > 0 {
        let at = n - 1;
        let before = input_requests::open_requests(log, at as nat);
        open_requests_are_found(log, at as nat, id);
        if input_requests::is_waiting(found, id) {
            let p = choose|p: int|
                0 <= p < found.len() && (#[trigger] found[p]).payload.request_id == id;
            if p < before.len() {
                assert(before[p].payload.request_id == id);
            } else {
                assert(input_requests::is_open(log, at) && input_requests::asks(log[at], id));
            }
        }
        if exists|i: int|
            0 <= i < n && #[trigger] input_requests::is_open(log, i) && input_requests::asks(
                log[i],
                id,
            ) {
            let i = choose|i: int|
                0 <= i < n && #[trigger] input_requests::is_open(log, i) && input_requests::asks(
                    log[i],
                    id,
                );
            if i < at {
                let p = choose|p: int|
                    0 <= p < before.len() && (#[trigger] before[p]).payload.request_id == id;
                assert(found[p].payload.request_id == id);
            } else {
                assert(found[before.len() as int].payload.request_id == id);
            }
        }
    }
}

/// A request whose id is never settled leads back to a pending one of its id.
proof fn an_unsettled_request_is_open(log: Seq<ConversationEvent>, id: Seq<char>, k: int)
    requires
        0 <= k < log.len(),
        input_requests::asks(log[k], id),
        !input_requests::is_settled(log, id),
    ensures
        exists|i: int|
            0 <= i <= k && #[trigger] input_requests::is_open(log, i) && input_requests::asks(
                log[i],
                id,
            ),
    decreases k,
{
    if exists|e: int| 0 <= e < k && input_requests::asks(#[trigger] log[e], id) {
        let e = choose|e: int| 0 <= e < k && input_requests::asks(#[trigger] log[e], id);
        an_unsettled_request_is_open(log, id, e);
        let i = choose|i: int|
            0 <= i <= e && #[trigger] input_requests::is_open(log, i) && input_requests::asks(
                log[i],
                id,
            );
        assert(i <= k);
    } else {
        assert(input_requests::is_open(log, k));
    }
}

/// A scan of a whole log finds its pending set, and the ids that are settled in
/// it.
pub proof fn a_scan_finds_the_pending_set(log: Seq<ConversationEvent>)
    ensures
        ({
            let scan = input_requests::after_events(input_requests::unread(), log);
            &&& scan.pending == input_requests::pending_set(log)
            &&& forall|id: Seq<char>| #[trigger]
                scan.settled.contains(id) <==> input_requests::is_settled(log, id)
        }),
    decreases log.len(),
{
    let scan = input_requests::after_events(input_requests::unread(), log);
    if log.len() > 0 {
        let shorter = log.drop_last();
        let event = log.last();
        let n = shorter.len();
        let before = input_requests::after_events(input_requests::unread(), shorter);
        a_scan_finds_the_pending_set(shorter);
        a_request_settles_nothing(event);
        assert(shorter.push(event) =~= log);
        assert(log[n as int] == event);
        assert forall|id: Seq<char>| #[trigger]
            scan.settled.contains(id) <==> input_requests::is_settled(log, id) by {
            one_more_event_settles(shorter, event, id);
            assert(before.settled.contains(id) <==> input_requests::is_settled(shorter, id));
        }
        match input_requests::request_in(event) {
            Some(request) => {
                let id = request.payload.request_id;
                open_requests_survive(shorter, event, n);
                open_requests_are_found(shorter, n, id);
                one_more_event_settles(shorter, event, id);
                assert(before.settled.contains(id) <==> input_requests::is_settled(shorter, id));
                if !input_requests::is_settled(shorter, id) {
                    if input_requests::is_waiting(before.pending, id) {
                        let i = choose|i: int|
                            0 <= i < n && #[trigger] input_requests::is_open(shorter, i)
                                && input_requests::asks(shorter[i], id);
                        assert(input_requests::asks(log[i], id));
                        assert(!input_requests::is_open(log, n as int));
                    } else {
                        assert forall|k: int| 0 <= k < n implies !input_requests::asks(
                            #[trigger] log[k],
                            id,
                        ) by {
                            assert(log[k] == shorter[k]);
                            if input_requests::asks(shorter[k], id) {
                                an_unsettled_request_is_open(shorter, id, k);
                                let i = choose|i: int|
                                    0 <= i <= k && #[trigger] input_requests::is_open(shorter, i)
                                        && input_requests::asks(shorter[i], id);
                                assert(i < n);
                            }
                        }
                        assert(input_requests::is_open(log, n as int));
                    }
                }
            },
            None => {
                assert(!input_requests::is_open(log, n as int));
                match input_requests::resolution_in(event) {
                    Some(id) => {
                        a_resolution_closes(shorter, event, n, id);
                    },
                    None => {
                        open_requests_survive(shorter, event, n);
                    },
                }
            },
        }
    } else {
        assert forall|id: Seq<char>| !input_requests::is_settled(log, id) by {}
    }
}

/// The matching rule: a request that was made is pending if and only if no
/// resolution in the log carries its id, wherever it stands.
pub proof fn a_request_is_pending_unless_it_is_resolved(log: Seq<ConversationEvent>, at: int)
    requires
        0 <= at < log.len(),
        input_requests::request_in(log[at]) is Some,
    ensures
        ({
            let id = input_requests::request_in(log[at])->0.payload.request_id;
            input_requests::is_waiting(input_requests::pending_set(log), id) <==> forall|j: int|
                0 <= j < log.len() ==> !input_requests::settles(#[trigger] log[j], id)
        }),
{
    let id = input_requests::request_in(log[at])->0.payload.request_id;
    open_requests_are_found(log, log.len(), id);
    if input_requests::is_waiting(input_requests::pending_set(log), id) {
        let i = choose|i: int|
            0 <= i < log.len() && #[trigger] input_requests::is_open(log, i)
                && input_requests::asks(log[i], id);
        assert forall|j: int| 0 <= j < log.len() implies !input_requests::settles(
            #[trigger] log[j],
            id,
        ) by {
            if input_requests::settles(log[j], id) {
                assert(input_requests::is_settled(log, id));
            }
        }
    }
    if forall|j: int| 0 <= j < log.len() ==> !input_requests::settles(#[trigger] log[j], id) {
        assert(!input_requests::is_settled(log, id));
        an_unsettled_request_is_open(log, id, at);
        let i = choose|i: int|
            0 <= i <= at && #[trigger] input_requests::is_open(log, i) && input_requests::asks(
                log[i],
                id,
            );
        assert(i < log.len());
    }
}

/// A resolution keeps every request of its id from waiting, wherever in the log
/// it stands.
pub proof fn a_settled_request_does_not_wait(
    log: Seq<ConversationEvent>,
    at: int,
    id: Seq<char>,
)
    requires
        0 <= at < log.len(),
        input_requests::settles(log[at], id),
    ensures
        !input_requests::is_waiting(input_requests::pending_set(log), id),
{
    open_requests_are_found(log, log.len(), id);
    if input_requests::is_waiting(input_requests::pending_set(log), id) {
        let i = choose|i: int|
            0 <= i < log.len() && #[trigger] input_requests::is_open(log, i)
                && input_requests::asks(log[i], id);
        assert(input_requests::is_settled(log, id));
    }
}

/// Nothing waits that was not asked.
pub proof fn only_requests_wait(log: Seq<ConversationEvent>, id: Seq<char>)
    requires
        input_requests::is_waiting(input_requests::pending_set(log), id),
    ensures
        exists|i: int| 0 <= i < log.len() && input_requests::asks(#[trigger] log[i], id),
{
    open_requests_are_found(log, log.len(), id);
    let i = choose|i: int|
        0 <= i < log.len() && #[trigger] input_requests::is_open(log, i) && input_requests::asks(
            log[i],
            id,
        );
    assert(input_requests::asks(log[i], id));
}

/// One resolution of a request is as good as many: a second changes nothing.
pub proof fn later_resolutions_are_ignored(
    scan: ScanView,
    first: ConversationEvent,
    second: ConversationEvent,
    id: Seq<char>,
)
    requires
        input_requests::settles(first, id),
        input_requests::settles(second, id),
    ensures
        input_requests::after_event(input_requests::after_event(scan, first), second)
            == input_requests::after_event(scan, first),
        !input_requests::is_waiting(input_requests::after_event(scan, first).pending, id),
{
    a_request_settles_nothing(first);
    a_request_settles_nothing(second);
    let keep = |request: PendingView| request.payload.request_id != id;
    let once = scan.pending.filter(keep);
    crate::filters::filtering_twice(scan.pending, keep);
    assert(scan.settled.insert(id).insert(id) =~= scan.settled.insert(id));
    assert forall|i: int| 0 <= i < once.len() implies (
    #[trigger] once[i]).payload.request_id != id by {
        assert(keep(once[i]));
    }
}

/// A resolution of what is nowhere asked changes nothing: the pending set is the
/// one of the log without it.
pub proof fn unmatched_resolutions_are_ignored(
    before: Seq<ConversationEvent>,
    event: ConversationEvent,
    after: Seq<ConversationEvent>,
    id: Seq<char>,
)
    requires
        input_requests::settles(event, id),
        forall|i: int| 0 <= i < before.len() ==> !input_requests::asks(#[trigger] before[i], id),
        forall|i: int| 0 <= i < after.len() ==> !input_requests::asks(#[trigger] after[i], id),
    ensures
        input_requests::pending_set(before.push(event) + after) == input_requests::pending_set(
            before + after,
        ),
{
    let with = before.push(event);
    let seen = input_requests::after_events(input_requests::unread(), before);
    let seen_with = input_requests::after_events(input_requests::unread(), with);
    a_scan_finds_the_pending_set(before);
    a_scan_finds_the_pending_set(before + after);
    a_scan_finds_the_pending_set(with + after);
    pages_add_up(input_requests::unread(), before, after);
    pages_add_up(input_requests::unread(), with, after);
    assert(with.drop_last() =~= before);
    a_request_settles_nothing(event);
    let keep = |request: PendingView| request.payload.request_id != id;
    if input_requests::is_waiting(seen.pending, id) {
        only_requests_wait(before, id);
    }
    crate::filters::keeping_all(seen.pending, keep);
    settled_ids_that_are_not_asked_do_not_matter(seen, after, id);
}

/// That an id is settled makes no difference to events that do not ask it.
proof fn settled_ids_that_are_not_asked_do_not_matter(
    scan: ScanView,
    events: Seq<ConversationEvent>,
    id: Seq<char>,
)
    requires
        forall|i: int| 0 <= i < events.len() ==> !input_requests::asks(#[trigger] events[i], id),
    ensures
        ({
            let more = ScanView { pending: scan.pending, settled: scan.settled.insert(id) };
            let without = input_requests::after_events(scan, events);
            input_requests::after_events(more, events) == (ScanView {
                pending: without.pending,
                settled: without.settled.insert(id),
            })
        }),
    decreases events.len(),
{
    if events.len() > 0 {
        let rest = events.drop_last();
        assert forall|i: int| 0 <= i < rest.len() implies !input_requests::asks(
            #[trigger] rest[i],
            id,
        ) by {
            assert(rest[i] == events[i]);
        }
        settled_ids_that_are_not_asked_do_not_matter(scan, rest, id);
        let last = events[events.len() - 1];
        assert(!input_requests::asks(last, id));
        let without = input_requests::after_events(scan, rest);
        if input_requests::resolution_in(last) is Some {
            let other = input_requests::resolution_in(last)->0;
            assert(without.settled.insert(id).insert(other) =~= without.settled.insert(
                other,
            ).insert(id));
        }
    }
}

/// Reading a log page by page is reading it whole: where the pages break makes
/// no difference.
pub proof fn pages_add_up(
    scan: ScanView,
    first: Seq<ConversationEvent>,
    second: Seq<ConversationEvent>,
)
    ensures
        input_requests::after_events(input_requests::after_events(scan, first), second)
            == input_requests::after_events(scan, first + second),
    decreases second.len(),
{
    if second.len() == 0 {
        assert(first + second =~= first);
    } else {
        pages_add_up(scan, first, second.drop_last());
        assert((first + second).drop_last() =~= first + second.drop_last());
        assert((first + second).last() == second.last());
    }
}

/// Once the resolution of a request is in the log, the request no longer waits,
/// and every other request waits as before.
pub proof fn a_recorded_resolution_settles_its_request(
    log: Seq<ConversationEvent>,
    event: ConversationEvent,
    id: Seq<char>,
    other: Seq<char>,
)
    requires
        input_requests::settles(event, id),
        other != id,
    ensures
        ({
            let before = input_requests::pending_set(log);
            let after = input_requests::pending_set(log.push(event));
            &&& !input_requests::is_waiting(after, id)
            &&& input_requests::is_waiting(after, other) == input_requests::is_waiting(
                before,
                other,
            )
        }),
{
    let before = input_requests::pending_set(log);
    let after = input_requests::pending_set(log.push(event));
    let keep = |request: PendingView| request.payload.request_id != id;
    a_request_settles_nothing(event);
    a_resolution_closes(log, event, log.len(), id);
    assert(log.push(event)[log.len() as int] == event);
    assert(!input_requests::is_open(log.push(event), log.len() as int));
    assert(after == before.filter(keep));
    assert forall|i: int| 0 <= i < after.len() implies (
    #[trigger] after[i]).payload.request_id != id by {
        assert(keep(after[i]));
    }
    if input_requests::is_waiting(after, other) {
        let i = choose|i: int|
            0 <= i < after.len() && (#[trigger] after[i]).payload.request_id == other;
        assert(after.contains(after[i]));
        before.lemma_filter_contains_rev(keep, after[i]);
        let k = choose|k: int| 0 <= k < before.len() && before[k] == after[i];
        assert(before[k].payload.request_id == other);
    }
    if input_requests::is_waiting(before, other) {
        let k = choose|k: int|
            0 <= k < before.len() && (#[trigger] before[k]).payload.request_id == other;
        assert(keep(before[k]));
        assert(before.filter(keep).contains(before[k]));
        let i = choose|i: int| 0 <= i < after.len() && after[i] == before[k];
        assert(after[i].payload.request_id == other);
    }
}

} // verus!
