//! Event upload pipeline: batches runtime events and reports them to the
//! server. This is the single seam events pass through before leaving the
//! machine, so the workspace's event-fidelity policy is applied here — under
//! [`EventFidelity::Redacted`] every payload is scrubbed with
//! [`crate::redact::redact_payload`] before it is even buffered.

use vstd::prelude::*;
use vstd::string::*;

use crate::decimal::{decimal, to_decimal};
use crate::json::{Json, JsonView};
use crate::model::EventFidelity;
use crate::redact::{redact_payload, redacted};
use crate::text::{lemma_concat_assoc, push_chars};

verus! {

/// How often buffered events are reported, in milliseconds.
pub const UPLOAD_INTERVAL_MS: u64 = 500;

/// An event on its way to the server.
#[derive(Debug, PartialEq, Eq)]
pub struct NewSessionEvent {
    pub seq: i64,
    pub payload: Json,
}

/// An event as a mathematical value.
pub type EventView = (int, JsonView);

/// The mathematical value of an event.
pub open spec fn event_view(e: NewSessionEvent) -> EventView {
    (e.seq as int, e.payload@)
}

/// The mathematical values of some events.
pub open spec fn event_views(events: Seq<NewSessionEvent>) -> Seq<EventView> {
    Seq::new(events.len(), |i: int| event_view(events[i]))
}

/// What the policy lets through of a payload.
pub open spec fn shown(fidelity: EventFidelity, payload: JsonView) -> JsonView {
    match fidelity {
        EventFidelity::Full => payload,
        EventFidelity::Redacted => redacted(payload),
    }
}

/// Numbers the next event and appends it to the buffer, scrubbed as the
/// policy asks.
pub fn enqueue(
    buffer: &mut Vec<NewSessionEvent>,
    seq: &mut i64,
    fidelity: EventFidelity,
    payload: Json,
)
    requires
        *old(seq) < i64::MAX,
    ensures
        *final(seq) == *old(seq) + 1,
        event_views(final(buffer)@) == event_views(old(buffer)@).push(
            (*old(seq) + 1, shown(fidelity, payload@)),
        ),
{
    let mut payload = payload;
    if fidelity == EventFidelity::Redacted {
        redact_payload(&mut payload);
    }
    *seq = *seq + 1;
    buffer.push(NewSessionEvent { seq: *seq, payload });
    assert(event_views(buffer@) =~= event_views(old(buffer)@).push(
        (*old(seq) + 1, event_view(buffer@.last()).1),
    ));
}

/// The uploader's state as a mathematical value.
#[verifier::ext_equal]
pub struct UploadView {
    /// Number of the last event.
    pub seq: int,
    /// Events not yet reported, oldest first.
    pub buffer: Seq<EventView>,
    /// No further event will come.
    pub closed: bool,
}

/// Before the first event.
pub open spec fn upload_start() -> UploadView {
    UploadView { seq: 0, buffer: Seq::empty(), closed: false }
}

/// After one more event.
pub open spec fn after_event(s: UploadView, fidelity: EventFidelity, payload: JsonView) -> UploadView {
    UploadView {
        seq: s.seq + 1,
        buffer: s.buffer.push((s.seq + 1, shown(fidelity, payload))),
        closed: s.closed,
    }
}

/// After the buffered events were reported.
pub open spec fn after_delivery(s: UploadView) -> UploadView {
    UploadView { seq: s.seq, buffer: Seq::empty(), closed: s.closed }
}

/// How an attempt to report events ended.
#[derive(Debug)]
pub enum UploadReply {
    /// The server took the events.
    Accepted,
    /// The server refused: a 4xx status, with the error's text.
    Refused(String),
    /// Anything else that went wrong.
    Unavailable,
}

/// What a failed report means, given the status that it was answered with (no
/// status when there was no answer): a 4xx says that the session is no longer
/// this host's, anything else may pass.
pub fn upload_reply(status: Option<u16>, error: String) -> (r: UploadReply)
    ensures
        r == match status {
            Some(code) => if 400 <= code <= 499 {
                UploadReply::Refused(error)
            } else {
                UploadReply::Unavailable
            },
            None => UploadReply::Unavailable,
        },
{
    match status {
        Some(code) => if 400 <= code && code <= 499 {
            UploadReply::Refused(error)
        } else {
            UploadReply::Unavailable
        },
        None => UploadReply::Unavailable,
    }
}

/// What the uploader does next.
#[derive(Debug)]
pub enum UploadStep {
    /// Go on collecting; retry at the next tick when events are left.
    Continue,
    /// Everything was reported and nothing more will come.
    Finished,
    /// The session is no longer this host's; the events have nowhere to go.
    Abandon(String),
}

/// What is said when events are given up.
pub open spec fn abandon_message(count: nat, error: Seq<char>) -> Seq<char> {
    "dropping "@ + decimal(count) + " events: "@ + error
}

/// Collects events and decides what to report.
pub struct Uploader {
    fidelity: EventFidelity,
    seq: i64,
    buffer: Vec<NewSessionEvent>,
    closed: bool,
}

impl View for Uploader {
    type V = UploadView;

    closed spec fn view(&self) -> UploadView {
        UploadView {
            seq: self.seq as int,
            buffer: event_views(self.buffer@),
            closed: self.closed,
        }
    }
}

impl Uploader {
    /// The policy that events are held to.
    pub closed spec fn policy(&self) -> EventFidelity {
        self.fidelity
    }

    /// An uploader without events.
    pub fn new(fidelity: EventFidelity) -> (r: Uploader)
        ensures
            r@ == upload_start(),
            r.policy() == fidelity,
    {
        let r = Uploader { fidelity, seq: 0, buffer: Vec::new(), closed: false };
        assert(r@.buffer =~= Seq::empty());
        r
    }

    /// Number of the last event.
    pub fn last_seq(&self) -> (r: i64)
        ensures
            r == self@.seq,
    {
        self.seq
    }

    /// Takes one event.
    pub fn push(&mut self, payload: Json)
        requires
            old(self)@.seq < i64::MAX,
        ensures
            final(self)@ == after_event(old(self)@, old(self).policy(), payload@),
            final(self).policy() == old(self).policy(),
    {
        enqueue(&mut self.buffer, &mut self.seq, self.fidelity, payload);
    }

    /// No further event will come.
    pub fn close(&mut self)
        ensures
            final(self)@ == (UploadView { closed: true, ..old(self)@ }),
            final(self).policy() == old(self).policy(),
    {
        self.closed = true;
    }

    /// True while more events may come.
    pub fn is_open(&self) -> (r: bool)
        ensures
            r == !self@.closed,
    {
        !self.closed
    }

    /// The events to report at this tick; nothing is reported when there is
    /// none.
    pub fn pending(&self) -> (r: &Vec<NewSessionEvent>)
        ensures
            event_views(r@) == self@.buffer,
    {
        &self.buffer
    }

    /// Goes on after a tick: `reply` is how the report ended, or `None` when
    /// there was nothing to report.
    pub fn settle(&mut self, reply: Option<UploadReply>) -> (r: UploadStep)
        requires
            reply is Some <==> old(self)@.buffer.len() > 0,
        ensures
            final(self).policy() == old(self).policy(),
            match reply {
                Some(UploadReply::Refused(error)) => {
                    &&& final(self)@ == old(self)@
                    &&& r matches UploadStep::Abandon(message) && message@ == abandon_message(
                        old(self)@.buffer.len(),
                        error@,
                    )
                },
                Some(UploadReply::Unavailable) => final(self)@ == old(self)@ && r
                    is Continue,
                _ => {
                    &&& final(self)@ == after_delivery(old(self)@)
                    &&& r == if old(self)@.closed {
                        UploadStep::Finished
                    } else {
                        UploadStep::Continue
                    }
                },
            },
    {
        broadcast use lemma_concat_assoc;

        match reply {
            Some(UploadReply::Refused(error)) => {
                let mut message = String::new();
                message.append("dropping ");
                push_chars(&mut message, &to_decimal(self.buffer.len() as u64));
                message.append(" events: ");
                message.append(error.as_str());
                proof {
                    assert(Seq::<char>::empty() + "dropping "@ =~= "dropping "@);
                    assert(event_views(self.buffer@).len() == self.buffer@.len());
                }
                UploadStep::Abandon(message)
            },
            Some(UploadReply::Unavailable) => {
                // 4xx would mean the session is gone; this may pass.
                UploadStep::Continue
            },
            _ => {
                self.buffer = Vec::new();
                assert(self@.buffer =~= Seq::empty());
                assert(old(self)@.buffer.len() == 0 ==> old(self)@.buffer =~= Seq::empty());
                if self.closed {
                    UploadStep::Finished
                } else {
                    UploadStep::Continue
                }
            },
        }
    }
}

/// Something that happens to an uploader.
pub enum UploadAction {
    /// An event came.
    Event(JsonView),
    /// The buffered events were reported.
    Delivered,
    /// The report failed and will be retried.
    Failed,
    /// No further event will come.
    Closed,
}

/// The state after the actions, and everything reported on the way.
pub open spec fn upload_run(fidelity: EventFidelity, actions: Seq<UploadAction>) -> (
    UploadView,
    Seq<EventView>,
)
    decreases actions.len(),
{
    if actions.len() == 0 {
        (upload_start(), Seq::empty())
    } else {
        let (s, sent) = upload_run(fidelity, actions.drop_last());
        match actions.last() {
            UploadAction::Event(payload) => (after_event(s, fidelity, payload), sent),
            UploadAction::Delivered => (after_delivery(s), sent + s.buffer),
            UploadAction::Failed => (s, sent),
            UploadAction::Closed => (UploadView { closed: true, ..s }, sent),
        }
    }
}

/// The payloads among the actions, in order.
pub open spec fn payloads(actions: Seq<UploadAction>) -> Seq<JsonView>
    decreases actions.len(),
{
    if actions.len() == 0 {
        Seq::empty()
    } else {
        match actions.last() {
            UploadAction::Event(payload) => payloads(actions.drop_last()).push(payload),
            _ => payloads(actions.drop_last()),
        }
    }
}

/// The payloads numbered from one, scrubbed as the policy asks.
pub open spec fn numbered(fidelity: EventFidelity, all: Seq<JsonView>) -> Seq<EventView> {
    Seq::new(all.len(), |i: int| (i + 1, shown(fidelity, all[i])))
}

/// Whatever reports fail on the way, the events reported so far followed by
/// those still buffered are all the events, in order, numbered 1, 2, 3 and so
/// on: none is lost, repeated or reordered.
pub proof fn upload_loses_nothing(fidelity: EventFidelity, actions: Seq<UploadAction>)
    ensures
        upload_run(fidelity, actions).1 + upload_run(fidelity, actions).0.buffer =~= numbered(
            fidelity,
            payloads(actions),
        ),
        upload_run(fidelity, actions).0.seq == payloads(actions).len(),
    decreases actions.len(),
{
    if actions.len() > 0 {
        upload_loses_nothing(fidelity, actions.drop_last());
        let (s, sent) = upload_run(fidelity, actions.drop_last());
        let before = payloads(actions.drop_last());
        assert(sent + s.buffer =~= numbered(fidelity, before));
        match actions.last() {
            UploadAction::Event(payload) => {
                let entry = (s.seq + 1, shown(fidelity, payload));
                assert(sent + s.buffer.push(entry) =~= (sent + s.buffer).push(entry));
                assert(numbered(fidelity, before.push(payload)) =~= numbered(fidelity, before).push(
                    entry,
                ));
            },
            _ => {},
        }
    }
}

/// Under the redacted policy no content leaves the machine: every event,
/// reported or buffered, is free of content.
pub proof fn redacted_upload_has_no_content(actions: Seq<UploadAction>, i: int)
    requires
        0 <= i < payloads(actions).len(),
    ensures
        ({
            let (s, sent) = upload_run(EventFidelity::Redacted, actions);
            crate::redact::content_free((sent + s.buffer)[i].1)
        }),
{
    upload_loses_nothing(EventFidelity::Redacted, actions);
    crate::redact::redaction_removes_content(payloads(actions)[i]);
}

// --- what callers see -----------------------------------------------------------

/// An event that comes is numbered next and stands last in the buffer, behind
/// all that was there; it leaves as it came under the full policy, and as
/// redaction leaves it under the redacted one.
pub proof fn events_are_buffered_in_order(
    uploader: &mut Uploader,
    payload: Json,
    scrubbed: &mut Json,
    i: int,
)
    requires
        old(uploader)@.seq < i64::MAX,
        call_ensures(Uploader::push, (uploader, payload), ()),
        old(scrubbed)@ == payload@,
        call_ensures(redact_payload, (scrubbed,), ()),
    ensures
        final(uploader)@.seq == old(uploader)@.seq + 1,
        final(uploader)@.closed == old(uploader)@.closed,
        final(uploader).policy() == old(uploader).policy(),
        final(uploader)@.buffer.len() == old(uploader)@.buffer.len() + 1,
        0 <= i < old(uploader)@.buffer.len() ==> final(uploader)@.buffer[i]
            == old(uploader)@.buffer[i],
        final(uploader)@.buffer.last().0 == old(uploader)@.seq + 1,
        final(uploader)@.buffer.last().1 == match old(uploader).policy() {
            EventFidelity::Full => payload@,
            EventFidelity::Redacted => final(scrubbed)@,
        },
{
}

/// A fresh uploader has nothing to report and expects events; what is pending
/// is everything in the buffer, number by number.
pub proof fn pending_events_are_the_buffer(
    fidelity: EventFidelity,
    fresh: Uploader,
    uploader: &Uploader,
    pending: &Vec<NewSessionEvent>,
    last: i64,
    open: bool,
    i: int,
)
    requires
        call_ensures(Uploader::new, (fidelity,), fresh),
        call_ensures(Uploader::pending, (uploader,), pending),
        call_ensures(Uploader::last_seq, (uploader,), last),
        call_ensures(Uploader::is_open, (uploader,), open),
    ensures
        fresh@.seq == 0 && fresh@.buffer.len() == 0 && !fresh@.closed,
        fresh.policy() == fidelity,
        pending@.len() == uploader@.buffer.len(),
        0 <= i < pending@.len() ==> pending@[i].seq == uploader@.buffer[i].0 && pending@[i].payload@
            == uploader@.buffer[i].1,
        last == uploader@.seq,
        open <==> !uploader@.closed,
{
    assert(event_views(pending@).len() == pending@.len());
    if 0 <= i < pending@.len() {
        assert(event_views(pending@)[i] == event_view(pending@[i]));
    }
}

/// Events leave the buffer when the server took them, and only then: a report
/// that failed leaves every one of them for the next. The uploader goes on
/// until its events have ended and are reported, or the server refuses them.
pub proof fn unreported_events_stay_buffered(
    uploader: &mut Uploader,
    reply: Option<UploadReply>,
    r: UploadStep,
)
    requires
        reply is Some <==> old(uploader)@.buffer.len() > 0,
        call_ensures(Uploader::settle, (uploader, reply), r),
    ensures
        final(uploader)@.seq == old(uploader)@.seq,
        final(uploader)@.closed == old(uploader)@.closed,
        reply == Some(UploadReply::Accepted) || reply is None ==> final(uploader)@.buffer.len()
            == 0 && (r is Finished <==> old(uploader)@.closed) && (r is Continue
            <==> !old(uploader)@.closed),
        reply matches Some(UploadReply::Unavailable) ==> final(uploader)@.buffer
            == old(uploader)@.buffer && r is Continue,
        reply matches Some(UploadReply::Refused(error)) ==> (r matches UploadStep::Abandon(message)
            && message@ == "dropping "@ + decimal(old(uploader)@.buffer.len()) + " events: "@
            + error@),
{
}

/// No further event is expected once an uploader is closed; what it holds
/// stays.
pub proof fn closing_keeps_what_is_buffered(uploader: &mut Uploader)
    requires
        call_ensures(Uploader::close, (uploader,), ()),
    ensures
        final(uploader)@.closed,
        final(uploader)@.seq == old(uploader)@.seq,
        final(uploader)@.buffer == old(uploader)@.buffer,
        final(uploader).policy() == old(uploader).policy(),
{
}

/// Only a 4xx says that events have nowhere to go.
pub proof fn only_refusals_end_an_upload(status: Option<u16>, error: String, r: UploadReply)
    requires
        call_ensures(upload_reply, (status, error), r),
    ensures
        status matches Some(code) && 400 <= code < 500 ==> r == UploadReply::Refused(error),
        !(status matches Some(code) && 400 <= code < 500) ==> r is Unavailable,
{
}

/// An event that is put into a buffer is numbered next, stands last and is as
/// the policy asks.
pub proof fn buffered_events_are_numbered(
    buffer: &mut Vec<NewSessionEvent>,
    seq: &mut i64,
    fidelity: EventFidelity,
    payload: Json,
    scrubbed: &mut Json,
    i: int,
)
    requires
        *old(seq) < i64::MAX,
        call_ensures(enqueue, (buffer, seq, fidelity, payload), ()),
        old(scrubbed)@ == payload@,
        call_ensures(redact_payload, (scrubbed,), ()),
    ensures
        *final(seq) == *old(seq) + 1,
        final(buffer)@.len() == old(buffer)@.len() + 1,
        0 <= i < old(buffer)@.len() ==> final(buffer)@[i].seq == old(buffer)@[i].seq
            && final(buffer)@[i].payload@ == old(buffer)@[i].payload@,
        final(buffer)@.last().seq == *old(seq) + 1,
        final(buffer)@.last().payload@ == match fidelity {
            EventFidelity::Full => payload@,
            EventFidelity::Redacted => final(scrubbed)@,
        },
{
    let before = event_views(old(buffer)@);
    let after = event_views(final(buffer)@);
    assert(before.len() == old(buffer)@.len() && after.len() == final(buffer)@.len());
    assert(after.last() == event_view(final(buffer)@.last()));
    if 0 <= i < old(buffer)@.len() {
        assert(after[i] == before[i]);
        assert(after[i] == event_view(final(buffer)@[i]));
        assert(before[i] == event_view(old(buffer)@[i]));
    }
}

/// Events are reported twice a second.
pub proof fn events_are_reported_twice_a_second()
    ensures
        2 * UPLOAD_INTERVAL_MS == 1000,
{
}

} // verus!
