//! The session broker: the set of connected front-end sessions, the visitor
//! counter, and the frames that each operation hands to which session.
//!
//! The broker decides; it does not send. Every operation returns the
//! deliveries that the caller then performs, one by one, so that a delivery
//! that fails cannot keep the others back.

use crate::envelope::{
    decoded, fresh_token, frame_bytes, optional_view, BinaryFrame, Envelope, EnvelopeView,
    GET_BASE_PATH_LIST_REQUEST, REQUEST_TRANSFER_FILE, TRANSFER_DATA,
};
use crate::text::{decimal, decimal_string};
use rand::Rng;
use vstd::prelude::*;

verus! {

/// How many random identifiers `connect` draws before it gives up.
pub const ID_DRAWS: usize = 16;

/// How often a session asks its front-end for a sign of life, in
/// milliseconds.
pub const HEARTBEAT_INTERVAL_MILLIS: u64 = 5000;

/// How long a front-end may stay silent before its session is closed, in
/// milliseconds.
pub const CLIENT_TIMEOUT_MILLIS: u64 = 10000;

/// Whether a session has timed out, its front-end having been silent for
/// `silent_millis` milliseconds: it has once the silence is longer than
/// [`CLIENT_TIMEOUT_MILLIS`].
pub fn heartbeat_timed_out(silent_millis: u64) -> (out: bool)
    ensures
        out == (silent_millis > CLIENT_TIMEOUT_MILLIS),
{
    silent_millis > CLIENT_TIMEOUT_MILLIS
}

/// A frame for one session: text or binary.
#[derive(Debug)]
pub struct SessionHolder {
    pub text: Option<String>,
    pub binary: Option<Vec<u8>>,
}

/// What a [`SessionHolder`] holds, as mathematical values.
pub struct FrameView {
    pub text: Option<Seq<char>>,
    pub binary: Option<Seq<u8>>,
}

impl View for SessionHolder {
    type V = FrameView;

    open spec fn view(&self) -> FrameView {
        FrameView {
            text: match self.text {
                Some(s) => Some(s@),
                None => None,
            },
            binary: match self.binary {
                Some(b) => Some(b@),
                None => None,
            },
        }
    }
}

/// A raw text message that a session received from its front-end.
#[derive(Debug)]
pub struct SessionMessage {
    pub session_id: usize,
    pub json_msg: String,
}

/// Notice that the session `id` has closed.
#[derive(Debug)]
pub struct Disconnect {
    pub id: usize,
}

/// One frame to push to one session.
#[derive(Debug)]
pub struct Delivery {
    pub session_id: usize,
    pub frame: SessionHolder,
}

/// What a [`Delivery`] holds, as mathematical values.
pub struct DeliveryView {
    pub session_id: usize,
    pub frame: FrameView,
}

impl View for Delivery {
    type V = DeliveryView;

    open spec fn view(&self) -> DeliveryView {
        DeliveryView { session_id: self.session_id, frame: self.frame@ }
    }
}

/// The views of a list of deliveries, in order.
pub open spec fn delivery_views(deliveries: Seq<Delivery>) -> Seq<DeliveryView> {
    Seq::new(deliveries.len(), |i: int| deliveries[i]@)
}

/// The frame that carries `text`.
pub open spec fn text_frame(text: Seq<char>) -> FrameView {
    FrameView { text: Some(text), binary: None }
}

/// The frame that carries `bytes`.
pub open spec fn binary_frame(bytes: Seq<u8>) -> FrameView {
    FrameView { text: None, binary: Some(bytes) }
}

/// One delivery of `frame` to each of `ids`, in their order.
pub open spec fn fan_out(ids: Seq<usize>, frame: FrameView) -> Seq<DeliveryView> {
    Seq::new(ids.len(), |i: int| DeliveryView { session_id: ids[i], frame })
}

/// One delivery of the text to each of `ids`.
pub open spec fn broadcast(ids: Seq<usize>, text: Seq<char>) -> Seq<DeliveryView> {
    fan_out(ids, text_frame(text))
}

/// One delivery of `frame` to `session_id` if it is among `ids`, else none.
pub open spec fn targeted(ids: Seq<usize>, session_id: usize, frame: FrameView) -> Seq<
    DeliveryView,
> {
    if ids.contains(session_id) {
        seq![DeliveryView { session_id, frame }]
    } else {
        Seq::empty()
    }
}

/// The text that tells the sessions how many visitors there are now.
pub open spec fn total_notice(visitors: nat) -> Seq<char> {
    "Total visitors "@ + decimal(visitors)
}

/// The text that tells the sessions which session left and how many stay.
pub open spec fn departure_notice(id: usize, left: nat) -> Seq<char> {
    "Disconnect $ remove "@ + decimal(id as nat) + " "@ + decimal(left) + "left"@
}

/// What the sessions hear when `id` joins `ids`: those already there that
/// someone joined, then everyone, the newcomer included, the new total.
pub open spec fn join_notices(ids: Seq<usize>, id: usize) -> Seq<DeliveryView> {
    broadcast(ids, "Someone joined"@) + broadcast(ids.push(id), total_notice(ids.len() + 1))
}

/// The broker's state, as mathematical values.
pub struct BrokerView {
    /// Identifiers of the open sessions, oldest first.
    pub ids: Seq<usize>,
    /// The visitor counter.
    pub visitors: nat,
    /// Identifiers of the sessions that have closed.
    pub retired: Set<usize>,
}

/// The invariant of the broker: no identifier stands for two sessions, the
/// counter is the number of open sessions, and no open session has the
/// identifier of one that has closed.
pub open spec fn consistent(state: BrokerView) -> bool {
    &&& state.ids.no_duplicates()
    &&& state.visitors == state.ids.len()
    &&& forall|id: usize| state.ids.contains(id) ==> !state.retired.contains(id)
}

/// Whether a new session can be registered under `id`: no session has or
/// had that identifier.
pub open spec fn admits(state: BrokerView, id: usize) -> bool {
    !state.ids.contains(id) && !state.retired.contains(id) && state.visitors < usize::MAX
}

/// Whether none of the identifiers drawn can be given to a new session.
pub open spec fn all_refused(state: BrokerView, draws: Seq<usize>) -> bool {
    forall|i: int| 0 <= i < draws.len() ==> !admits(state, #[trigger] draws[i])
}

/// The state after an attempt to register a session under `id`.
pub open spec fn after_connect(state: BrokerView, id: usize) -> BrokerView {
    if admits(state, id) {
        BrokerView {
            ids: state.ids.push(id),
            visitors: state.visitors + 1,
            retired: state.retired,
        }
    } else {
        state
    }
}

/// The state after the session `id` is reported closed.
pub open spec fn after_disconnect(state: BrokerView, id: usize) -> BrokerView {
    if state.ids.contains(id) {
        BrokerView {
            ids: state.ids.remove(state.ids.index_of(id)),
            visitors: (state.visitors - 1) as nat,
            retired: state.retired.insert(id),
        }
    } else {
        state
    }
}

/// What becomes of a message that a session handed in.
#[derive(Debug)]
pub enum Routed {
    /// The envelope goes to the kernel; no front-end sees it.
    ToKernel(Envelope),
    /// These frames go to these sessions.
    Deliveries(Vec<Delivery>),
}

/// What a [`Routed`] holds, as mathematical values.
pub enum RoutedView {
    ToKernel(EnvelopeView),
    Deliveries(Seq<DeliveryView>),
}

impl View for Routed {
    type V = RoutedView;

    open spec fn view(&self) -> RoutedView {
        match self {
            Routed::ToKernel(e) => RoutedView::ToKernel(e@),
            Routed::Deliveries(d) => RoutedView::Deliveries(delivery_views(d@)),
        }
    }
}

/// The suffix put on a message whose opcode the broker does not handle.
pub open spec fn unmatched_mark() -> Seq<char> {
    "1!!!"@
}

/// The suffix put on a message that does not decode.
pub open spec fn malformed_mark() -> Seq<char> {
    "2!!!"@
}

/// Where a message goes. `envelope` is what the raw text decoded to,
/// `content_id` the identifier to give a transfer that the message opens.
pub open spec fn routing(
    ids: Seq<usize>,
    session_id: usize,
    raw: Seq<char>,
    envelope: Option<EnvelopeView>,
    content_id: Seq<char>,
) -> RoutedView {
    match envelope {
        None => RoutedView::Deliveries(broadcast(ids, raw + malformed_mark())),
        Some(e) => if e.code == GET_BASE_PATH_LIST_REQUEST {
            RoutedView::ToKernel(e)
        } else if e.code == TRANSFER_DATA {
            RoutedView::Deliveries(broadcast(ids, raw))
        } else if e.code == REQUEST_TRANSFER_FILE {
            RoutedView::Deliveries(
                targeted(
                    ids,
                    session_id,
                    binary_frame(frame_bytes(content_id, 0, vstd::utf8::encode_utf8(e.content))),
                ),
            )
        } else {
            RoutedView::Deliveries(broadcast(ids, raw + unmatched_mark()))
        },
    }
}

/// Draws a session identifier with `rand::Rng::gen` on `rand::thread_rng()`.
/// Nothing is claimed of the outcome.
#[verifier::external_body]
fn random_id() -> (out: usize) {
    rand::thread_rng().gen::<usize>()
}

fn fan_out_text(ids: &Vec<usize>, message: &str) -> (out: Vec<Delivery>)
    ensures
        delivery_views(out@) == broadcast(ids@, message@),
{
    let mut out: Vec<Delivery> = Vec::new();
    let mut i: usize = 0;
    while i < ids.len()
        invariant
            i <= ids.len(),
            out.len() == i,
            forall|j: int| 0 <= j < i ==> (#[trigger] out@[j])@ == broadcast(ids@, message@)[j],
        decreases ids.len() - i,
    {
        out.push(
            Delivery {
                session_id: ids[i],
                frame: SessionHolder { text: Some(message.to_owned()), binary: None },
            },
        );
        i += 1;
    }
    assert(delivery_views(out@) =~= broadcast(ids@, message@));
    out
}

/// The session broker.
pub struct SessionServer {
    sessions: Vec<usize>,
    visitor_count: usize,
    retired: Vec<usize>,
}

impl View for SessionServer {
    type V = BrokerView;

    closed spec fn view(&self) -> BrokerView {
        BrokerView {
            ids: self.sessions@,
            visitors: self.visitor_count as nat,
            retired: Set::new(|id: usize| self.retired@.contains(id)),
        }
    }
}

impl SessionServer {
    /// The broker's invariant, which every operation keeps.
    pub open spec fn wf(&self) -> bool {
        consistent(self@)
    }

    /// A broker without sessions.
    pub fn new() -> (out: SessionServer)
        ensures
            out.wf(),
            out@ == empty_broker(),
    {
        let out = SessionServer { sessions: Vec::new(), visitor_count: 0, retired: Vec::new() };
        assert(out@.retired =~= Set::<usize>::empty());
        out
    }

    /// The visitor counter.
    pub fn visitor_count(&self) -> (out: usize)
        ensures
            out == self@.visitors,
    {
        self.visitor_count
    }

    /// The identifiers of the open sessions, oldest first.
    pub fn session_ids(&self) -> (out: Vec<usize>)
        ensures
            out@ == self@.ids,
    {
        self.sessions.clone()
    }

    fn position(&self, id: usize) -> (out: Option<usize>)
        ensures
            out is Some == self@.ids.contains(id),
            out matches Some(i) ==> i < self@.ids.len() && self@.ids[i as int] == id,
    {
        let mut i: usize = 0;
        while i < self.sessions.len()
            invariant
                i <= self.sessions.len(),
                forall|j: int| 0 <= j < i ==> self.sessions@[j] != id,
            decreases self.sessions.len() - i,
        {
            if self.sessions[i] == id {
                return Some(i);
            }
            i += 1;
        }
        None
    }

    /// Whether a session is open under `id`.
    pub fn is_open(&self, id: usize) -> (out: bool)
        ensures
            out == self@.ids.contains(id),
    {
        self.position(id).is_some()
    }

    /// Whether a session was open under `id` and has closed.
    pub fn is_closed(&self, id: usize) -> (out: bool)
        ensures
            out == self@.retired.contains(id),
    {
        let mut i: usize = 0;
        while i < self.retired.len()
            invariant
                i <= self.retired.len(),
                forall|j: int| 0 <= j < i ==> self.retired@[j] != id,
            decreases self.retired.len() - i,
        {
            if self.retired[i] == id {
                return true;
            }
            i += 1;
        }
        false
    }

    /// The deliveries that bring `message` to every open session.
    pub fn send_message(&self, message: &str) -> (out: Vec<Delivery>)
        ensures
            delivery_views(out@) == broadcast(self@.ids, message@),
    {
        fan_out_text(&self.sessions, message)
    }

    /// The delivery that brings `bytes` to the session `session_id`; none if
    /// no such session is open.
    pub fn send_binary(&self, bytes: Vec<u8>, session_id: usize) -> (out: Vec<Delivery>)
        ensures
            delivery_views(out@) == targeted(self@.ids, session_id, binary_frame(bytes@)),
    {
        let mut out: Vec<Delivery> = Vec::new();
        if self.is_open(session_id) {
            out.push(Delivery { session_id, frame: SessionHolder { text: None, binary: Some(bytes) } });
        }
        assert(delivery_views(out@) =~= targeted(self@.ids, session_id, binary_frame(bytes@)));
        out
    }

    /// The delivery that brings `message` to the session `recipient_id`
    /// alone; none if no such session is open.
    pub fn send_message_to_specific_recipient(&self, recipient_id: usize, message: &str) -> (out:
        Vec<Delivery>)
        ensures
            delivery_views(out@) == targeted(self@.ids, recipient_id, text_frame(message@)),
    {
        let mut out: Vec<Delivery> = Vec::new();
        if self.is_open(recipient_id) {
            out.push(
                Delivery {
                    session_id: recipient_id,
                    frame: SessionHolder { text: Some(message.to_owned()), binary: None },
                },
            );
        }
        assert(delivery_views(out@) =~= targeted(self@.ids, recipient_id, text_frame(message@)));
        out
    }

    /// Registers a session under `id` if no open session has that identifier,
    /// and returns the notices for the sessions. `None` means that nothing
    /// was registered and nothing changed.
    pub fn register(&mut self, id: usize) -> (out: Option<Vec<Delivery>>)
        requires
            old(self).wf(),
        ensures
            final(self).wf(),
            final(self)@ == after_connect(old(self)@, id),
            out is Some == admits(old(self)@, id),
            out matches Some(notices) ==> delivery_views(notices@) == join_notices(
                old(self)@.ids,
                id,
            ),
    {
        if self.visitor_count == usize::MAX || self.is_open(id) || self.is_closed(id) {
            return None;
        }
        let mut notices = fan_out_text(&self.sessions, "Someone joined");
        self.sessions.push(id);
        self.visitor_count = self.visitor_count + 1;
        let total = String::from_str("Total visitors ").concat(
            decimal_string(self.visitor_count as u64).as_str(),
        );
        let mut totals = fan_out_text(&self.sessions, total.as_str());
        let ghost first = delivery_views(notices@);
        let ghost second = delivery_views(totals@);
        notices.append(&mut totals);
        assert(delivery_views(notices@) =~= first + second);
        proof {
            let ids = old(self)@.ids;
            assert forall|a: int, b: int|
                0 <= a < ids.push(id).len() && 0 <= b < ids.push(id).len() && a != b implies ids.push(
                id,
            )[a] != ids.push(id)[b] by {
                if a < ids.len() {
                    assert(ids.contains(ids[a]));
                }
                if b < ids.len() {
                    assert(ids.contains(ids[b]));
                }
            }
        }
        Some(notices)
    }

    /// Registers a new session under a random identifier that no session has
    /// or had, and returns the identifier with the notices for the sessions.
    /// A candidate that cannot be given out is drawn again, [`ID_DRAWS`]
    /// times in all. The first candidate that the broker admits is taken;
    /// `None` comes only after [`ID_DRAWS`] candidates were refused, and then
    /// nothing has changed. So a broker that admits every identifier always
    /// registers the session.
    pub fn connect(&mut self) -> (out: Option<(usize, Vec<Delivery>)>)
        requires
            old(self).wf(),
        ensures
            final(self).wf(),
            match out {
                Some((id, notices)) => {
                    &&& admits(old(self)@, id)
                    &&& final(self)@ == after_connect(old(self)@, id)
                    &&& delivery_views(notices@) == join_notices(old(self)@.ids, id)
                },
                None => {
                    &&& final(self)@ == old(self)@
                    &&& exists|draws: Seq<usize>|
                        draws.len() == ID_DRAWS && all_refused(old(self)@, draws)
                },
            },
            (forall|id: usize| admits(old(self)@, id)) ==> out is Some,
    {
        let ghost mut refused: Seq<usize> = Seq::empty();
        let mut draw: usize = 0;
        while draw < ID_DRAWS
            invariant
                self.wf(),
                self@ == old(self)@,
                draw <= ID_DRAWS,
                refused.len() == draw,
                all_refused(old(self)@, refused),
            decreases ID_DRAWS - draw,
        {
            let id = random_id();
            match self.register(id) {
                Some(notices) => {
                    return Some((id, notices));
                },
                None => {},
            }
            proof {
                refused = refused.push(id);
            }
            draw += 1;
        }
        assert(refused.len() == ID_DRAWS && all_refused(old(self)@, refused));
        assert(!admits(old(self)@, refused[0]));
        None
    }

    /// Removes the session that `msg` names and returns the departure
    /// notice for those that stay. An identifier that no open session has
    /// changes nothing and tells nobody.
    pub fn disconnect(&mut self, msg: Disconnect) -> (out: Vec<Delivery>)
        requires
            old(self).wf(),
        ensures
            final(self).wf(),
            final(self)@ == after_disconnect(old(self)@, msg.id),
            old(self)@.ids.contains(msg.id) ==> delivery_views(out@) == broadcast(
                final(self)@.ids,
                departure_notice(msg.id, final(self)@.visitors),
            ),
            !old(self)@.ids.contains(msg.id) ==> out@.len() == 0,
    {
        match self.position(msg.id) {
            None => Vec::new(),
            Some(i) => {
                let ghost ids = self@.ids;
                proof {
                    let k = ids.index_of(msg.id);
                    assert(0 <= k < ids.len() && ids[k] == msg.id);
                    assert(k == i);
                }
                self.sessions.remove(i);
                self.visitor_count = self.visitor_count - 1;
                let ghost closed = self.retired@;
                self.retired.push(msg.id);
                proof {
                    let rest = ids.remove(i as int);
                    assert forall|id: usize| self.retired@.contains(id) == (closed.contains(id) || id
                        == msg.id) by {
                        if closed.contains(id) {
                            let k = choose|k: int| 0 <= k < closed.len() && closed[k] == id;
                            assert(self.retired@[k] == id);
                        }
                        if id == msg.id {
                            assert(self.retired@[closed.len() as int] == id);
                        }
                    }
                    assert(self@.retired =~= old(self)@.retired.insert(msg.id));
                    assert forall|id: usize| rest.contains(id) implies ids.contains(id) && id
                        != msg.id by {
                        let k = choose|k: int| 0 <= k < rest.len() && rest[k] == id;
                        let k0 = if k < i { k } else { k + 1 };
                        assert(ids[k0] == id);
                    }
                    assert forall|a: int, b: int|
                        0 <= a < rest.len() && 0 <= b < rest.len() && a != b implies rest[a]
                        != rest[b] by {
                        let a0 = if a < i { a } else { a + 1 };
                        let b0 = if b < i { b } else { b + 1 };
                        assert(rest[a] == ids[a0] && rest[b] == ids[b0]);
                    }
                }
                let notice = String::from_str("Disconnect $ remove ").concat(
                    decimal_string(msg.id as u64).as_str(),
                ).concat(" ").concat(decimal_string(self.visitor_count as u64).as_str()).concat(
                    "left",
                );
                fan_out_text(&self.sessions, notice.as_str())
            },
        }
    }

    /// Decides where a message goes, given what its text decoded to and the
    /// identifier to use if it opens a transfer.
    pub fn route(
        &self,
        session_id: usize,
        raw: &str,
        envelope: Option<Envelope>,
        content_id: String,
    ) -> (out: Routed)
        ensures
            out@ == routing(self@.ids, session_id, raw@, optional_view(envelope), content_id@),
    {
        match envelope {
            None => {
                let marked = String::from_str(raw).concat("2!!!");
                Routed::Deliveries(self.send_message(marked.as_str()))
            },
            Some(e) => {
                if e.code == GET_BASE_PATH_LIST_REQUEST {
                    Routed::ToKernel(e)
                } else if e.code == TRANSFER_DATA {
                    Routed::Deliveries(self.send_message(raw))
                } else if e.code == REQUEST_TRANSFER_FILE {
                    let frame = BinaryFrame::opening(content_id, e.content.as_str());
                    Routed::Deliveries(self.send_binary(frame.to_bytes(), session_id))
                } else {
                    let marked = String::from_str(raw).concat("1!!!");
                    Routed::Deliveries(self.send_message(marked.as_str()))
                }
            },
        }
    }

    /// Takes a message from a session: decodes it and decides where it goes.
    /// The content identifier of a transfer that the message opens is drawn
    /// at random, so the contract holds for some identifier.
    pub fn handle_message(&self, msg: SessionMessage) -> (out: Routed)
        ensures
            exists|content_id: Seq<char>|
                out@ == routing(
                    self@.ids,
                    msg.session_id,
                    msg.json_msg@,
                    decoded(msg.json_msg@),
                    content_id,
                ),
    {
        let envelope = Envelope::decode(msg.json_msg.as_str());
        let content_id = match &envelope {
            Some(e) => if e.code == REQUEST_TRANSFER_FILE {
                fresh_token()
            } else {
                String::new()
            },
            None => String::new(),
        };
        let out = self.route(msg.session_id, msg.json_msg.as_str(), envelope, content_id);
        assert(out@ == routing(
            self@.ids,
            msg.session_id,
            msg.json_msg@,
            decoded(msg.json_msg@),
            content_id@,
        ));
        out
    }
}

/// One thing that happens to the broker.
pub enum BrokerEvent {
    /// A session asks to be registered under this identifier.
    Connect(usize),
    /// The session with this identifier is reported closed.
    Disconnect(usize),
}

/// The state after one event.
pub open spec fn after_event(state: BrokerView, event: BrokerEvent) -> BrokerView {
    match event {
        BrokerEvent::Connect(id) => after_connect(state, id),
        BrokerEvent::Disconnect(id) => after_disconnect(state, id),
    }
}

/// The state after a run of events, the first of them first.
pub open spec fn after_events(state: BrokerView, events: Seq<BrokerEvent>) -> BrokerView
    decreases events.len(),
{
    if events.len() == 0 {
        state
    } else {
        after_event(after_events(state, events.drop_last()), events.last())
    }
}

/// The broker before any session has connected.
pub open spec fn empty_broker() -> BrokerView {
    BrokerView { ids: Seq::empty(), visitors: 0, retired: Set::empty() }
}

/// One event keeps the broker consistent: afterwards, too, no identifier
/// stands for two sessions, the counter is the number of open sessions, and
/// no open session has the identifier of a closed one.
pub proof fn lemma_event_keeps_consistent(state: BrokerView, event: BrokerEvent)
    requires
        consistent(state),
    ensures
        consistent(after_event(state, event)),
{
    match event {
        BrokerEvent::Connect(id) => {
            if admits(state, id) {
                let ids = state.ids;
                let now = ids.push(id);
                assert forall|a: int, b: int|
                    0 <= a < now.len() && 0 <= b < now.len() && a != b implies now[a] != now[b] by {
                    if a < ids.len() {
                        assert(ids.contains(ids[a]));
                    }
                    if b < ids.len() {
                        assert(ids.contains(ids[b]));
                    }
                }
                assert forall|other: usize| now.contains(other) implies !state.retired.contains(
                    other,
                ) by {
                    let k = choose|k: int| 0 <= k < now.len() && now[k] == other;
                    if k < ids.len() {
                        assert(ids.contains(ids[k]));
                    }
                }
            }
        },
        BrokerEvent::Disconnect(id) => {
            if state.ids.contains(id) {
                let ids = state.ids;
                let i = ids.index_of(id);
                assert(0 <= i < ids.len() && ids[i] == id);
                let rest = ids.remove(i);
                assert forall|a: int, b: int|
                    0 <= a < rest.len() && 0 <= b < rest.len() && a != b implies rest[a]
                    != rest[b] by {
                    let a0 = if a < i { a } else { a + 1 };
                    let b0 = if b < i { b } else { b + 1 };
                    assert(rest[a] == ids[a0] && rest[b] == ids[b0]);
                }
                assert forall|other: usize| rest.contains(other) implies ids.contains(other)
                    && other != id by {
                    let k = choose|k: int| 0 <= k < rest.len() && rest[k] == other;
                    let k0 = if k < i { k } else { k + 1 };
                    assert(ids[k0] == other);
                }
            }
        },
    }
}

/// Whatever sessions connect and disconnect, in whatever order, the visitor
/// counter is the number of open sessions and no identifier stands for two
/// of them.
pub proof fn lemma_counter_never_drifts(events: Seq<BrokerEvent>)
    ensures
        consistent(after_events(empty_broker(), events)),
    decreases events.len(),
{
    if events.len() > 0 {
        lemma_counter_never_drifts(events.drop_last());
        lemma_event_keeps_consistent(
            after_events(empty_broker(), events.drop_last()),
            events.last(),
        );
    }
}

/// A session that has disconnected is open no longer, and if it was open
/// its identifier counts as closed.
pub proof fn lemma_disconnected_is_closed(state: BrokerView, id: usize)
    requires
        consistent(state),
    ensures
        !after_disconnect(state, id).ids.contains(id),
        state.ids.contains(id) ==> after_disconnect(state, id).retired.contains(id),
{
    if state.ids.contains(id) {
        let ids = state.ids;
        let i = ids.index_of(id);
        assert(0 <= i < ids.len() && ids[i] == id);
        let rest = ids.remove(i);
        if rest.contains(id) {
            let k = choose|k: int| 0 <= k < rest.len() && rest[k] == id;
            let k0 = if k < i { k } else { k + 1 };
            assert(ids[k0] == id);
        }
    }
}

/// The identifier of a session that has closed is never given to another
/// session: whatever happens afterwards, it stays closed and no session is
/// open under it.
pub proof fn lemma_closed_identifier_is_never_reused(
    state: BrokerView,
    id: usize,
    events: Seq<BrokerEvent>,
)
    requires
        consistent(state),
        state.retired.contains(id),
    ensures
        consistent(after_events(state, events)),
        after_events(state, events).retired.contains(id),
        !after_events(state, events).ids.contains(id),
    decreases events.len(),
{
    if events.len() > 0 {
        lemma_closed_identifier_is_never_reused(state, id, events.drop_last());
        lemma_event_keeps_consistent(after_events(state, events.drop_last()), events.last());
    }
}

/// A broadcast while the sessions `ids` are registered makes as many
/// deliveries as there are sessions, each of them carries the text, and
/// every registered session, and no other, is the target of exactly one.
pub proof fn lemma_broadcast_reaches_each_session_once(ids: Seq<usize>, text: Seq<char>)
    requires
        ids.no_duplicates(),
    ensures
        broadcast(ids, text).len() == ids.len(),
        forall|i: int|
            0 <= i < ids.len() ==> (#[trigger] broadcast(ids, text)[i]).frame == text_frame(text),
        forall|id: usize|
            ids.contains(id) <==> exists|i: int|
                0 <= i < ids.len() && (#[trigger] broadcast(ids, text)[i]).session_id == id,
        forall|i: int, j: int|
            0 <= i < ids.len() && 0 <= j < ids.len() && (#[trigger] broadcast(
                ids,
                text,
            )[i]).session_id == (#[trigger] broadcast(ids, text)[j]).session_id ==> i == j,
{
    let sent = broadcast(ids, text);
    assert forall|id: usize| ids.contains(id) implies exists|i: int|
        0 <= i < ids.len() && (#[trigger] sent[i]).session_id == id by {
        let k = choose|k: int| 0 <= k < ids.len() && ids[k] == id;
        assert(sent[k].session_id == id);
    }
    assert forall|id: usize|
        (exists|i: int| 0 <= i < ids.len() && (#[trigger] sent[i]).session_id == id)
            implies ids.contains(id) by {
        let k = choose|k: int| 0 <= k < ids.len() && (#[trigger] sent[k]).session_id == id;
        assert(ids[k] == id);
    }
}

/// A message that does not decode is not dropped: it goes to every session,
/// with the mark for malformed messages behind the text as it came, and
/// that mark tells it from a message whose opcode is not handled.
pub proof fn lemma_malformed_is_broadcast_with_mark(
    ids: Seq<usize>,
    session_id: usize,
    raw: Seq<char>,
    content_id: Seq<char>,
)
    ensures
        routing(ids, session_id, raw, None, content_id) == RoutedView::Deliveries(
            broadcast(ids, raw + malformed_mark()),
        ),
        broadcast(ids, raw + malformed_mark()).len() == ids.len(),
        (raw + malformed_mark()).subrange(0, raw.len() as int) == raw,
        (raw + malformed_mark()).skip(raw.len() as int) == malformed_mark(),
        raw + malformed_mark() != raw + unmatched_mark(),
{
    reveal_strlit("2!!!");
    reveal_strlit("1!!!");
    let marked = raw + malformed_mark();
    assert(marked.subrange(0, raw.len() as int) =~= raw);
    assert(marked.skip(raw.len() as int) =~= malformed_mark());
    assert(marked[raw.len() as int] == '2');
    assert((raw + unmatched_mark())[raw.len() as int] == '1');
}

} // verus!
