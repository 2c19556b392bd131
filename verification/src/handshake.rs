//! What holds of every run of a port machine: a ban is final, a second
//! request for enrollment changes nothing while one is in flight, a device
//! becomes active only through the whole handshake, and a device that
//! answers in time is enrolled.

use crate::device::{lemma_simple_form_injective, simple_form, DeviceId};
use crate::error::SerialError;
use crate::machine::{
    after_cancel, after_message, after_sent, after_tick, arm, claims_nil, echo_text, hash_text,
    in_flight, probe_frame, quiet, Effects, EffectsView, Entropy, Outcome, PortMachine, PortState,
    RecordState,
};
use crate::message::{opened, starts_with};
use crate::reading::{
    enrollment_of, fields_of, id_of_text, reading_of, Capabilities, SEPARATOR,
};
use crate::text::{first_index, lemma_first_index_bounds, split, trim_end};
use vstd::prelude::*;

verus! {

/// What may happen at a port.
pub enum Event {
    /// A whole message arrived.
    Message(Vec<u8>),
    /// The last reply was written in full.
    Sent,
    /// Time has passed.
    Tick,
    /// The port task was cancelled.
    Cancel,
}

/// An event as mathematical values.
pub enum EventView {
    Message(Seq<u8>),
    Sent,
    Tick,
    Cancel,
}

impl View for Event {
    type V = EventView;

    open spec fn view(&self) -> EventView {
        match self {
            Event::Message(bytes) => EventView::Message(bytes@),
            Event::Sent => EventView::Sent,
            Event::Tick => EventView::Tick,
            Event::Cancel => EventView::Cancel,
        }
    }
}

/// An event with the time at which it happened and the random values at
/// hand when it did.
pub struct Timed {
    pub now: u64,
    pub event: EventView,
    pub fresh: Entropy,
}

/// The machine and the effects after an event.
pub open spec fn after(m: PortMachine, t: Timed) -> Outcome {
    match t.event {
        EventView::Message(message) => after_message(m, t.now, message, t.fresh),
        EventView::Sent => after_sent(m, t.now),
        EventView::Tick => after_tick(m, t.now),
        EventView::Cancel => after_cancel(m),
    }
}

/// The machine after a run of events.
pub open spec fn run(m: PortMachine, events: Seq<Timed>) -> PortMachine
    decreases events.len(),
{
    if events.len() == 0 {
        m
    } else {
        after(run(m, events.drop_last()), events.last()).machine
    }
}

impl PortMachine {
    /// Takes one event that happened at `now`.
    pub fn step(&mut self, now: u64, event: &Event, fresh: &Entropy) -> (effects: Effects)
        requires
            crate::device::is_version4(fresh.id.value),
        ensures
            (Outcome { machine: *final(self), effects: effects@ }) == after(
                *old(self),
                Timed { now, event: event@, fresh: *fresh },
            ),
    {
        match event {
            Event::Message(bytes) => self.on_message(now, bytes.as_slice(), fresh),
            Event::Sent => self.on_sent(now),
            Event::Tick => self.on_tick(now),
            Event::Cancel => self.on_cancel(),
        }
    }
}

/// Whether an effect touches nothing outside the machine: no reply, no
/// record stored or deleted, no reading passed on.
pub open spec fn harmless(effects: EffectsView) -> bool {
    &&& effects.reply is None
    &&& effects.persist is None
    &&& effects.forget is None
    &&& effects.reading is None
}

/// Once a device is banned, whatever happens leaves it banned, and nothing
/// that arrives has any effect outside the machine.
pub proof fn lemma_ban_is_final(m: PortMachine, t: Timed)
    requires
        m.state is Banned,
    ensures
        after(m, t).machine.state == m.state,
        harmless(after(m, t).effects),
        t.event is Message ==> after(m, t).effects.dropped == Some(SerialError::Banned),
{
}

/// A banned device stays banned through every run of events.
pub proof fn lemma_ban_sticks(m: PortMachine, events: Seq<Timed>)
    requires
        m.state is Banned,
    ensures
        run(m, events).state == m.state,
    decreases events.len(),
{
    if events.len() > 0 {
        lemma_ban_sticks(m, events.drop_last());
        lemma_ban_is_final(run(m, events.drop_last()), events.last());
    }
}

/// While an enrollment is in flight and its deadline has not passed, a
/// message whose first field is the reserved identifier changes nothing and
/// has no effect. While the echo is awaited this holds of every such message
/// that is not itself a frame that opens under the key of the device.
pub proof fn lemma_second_request_ignored(m: PortMachine, now: u64, message: Seq<u8>, fresh: Entropy)
    requires
        in_flight(m.state) is Some,
        claims_nil(message),
        match m.state {
            PortState::Provisioning { deadline, .. } => now <= deadline,
            PortState::HashCheck { deadline, .. } => now <= deadline,
            PortState::EncryptionProbe { assigned, deadline, .. } => now <= deadline && opened(
                simple_form(assigned.value),
                message,
            ) is Err,
            _ => false,
        },
    ensures
        after_message(m, now, message, fresh).machine.state == m.state,
        after_message(m, now, message, fresh).effects == quiet(),
{
}

/// A message never starts an enrollment unless the machine listens: in
/// every other state the device in flight, if there is one afterwards, is
/// the one that was in flight before.
pub proof fn lemma_one_enrollment(m: PortMachine, now: u64, message: Seq<u8>, fresh: Entropy)
    requires
        !(m.state is Listening),
    ensures
        !(after_message(m, now, message, fresh).machine.state is Listening),
        in_flight(after_message(m, now, message, fresh).machine.state) is Some ==> in_flight(
            after_message(m, now, message, fresh).machine.state,
        ) == in_flight(m.state),
        m.state is Operational ==> after_message(m, now, message, fresh).machine.state == m.state,
{
}

/// Whether an event is a valid request for enrollment that was given the
/// identifier `id`.
pub open spec fn is_request(t: Timed, id: DeviceId, caps: Capabilities) -> bool {
    t.event matches EventView::Message(message) && enrollment_of(message) == Ok::<
        Capabilities,
        crate::error::ParseError,
    >(caps) && t.fresh.id == id
}

/// Whether an event is the hash of the identifier `id`.
pub open spec fn is_hash_reply(t: Timed, id: DeviceId) -> bool {
    t.event matches EventView::Message(message) && trim_end(message) == hash_text(id)
}

/// Whether an event is a frame that opens, under the key of `id`, to the
/// echo line.
pub open spec fn is_echo(t: Timed, id: DeviceId, caps: Capabilities) -> bool {
    t.event matches EventView::Message(message) && opened(simple_form(id.value), message) is Ok
        && trim_end(opened(simple_form(id.value), message)->Ok_0) == trim_end(echo_text(id, caps))
}

/// The run holds, at `a`, a valid request that was given `id`.
pub open spec fn requested(events: Seq<Timed>, id: DeviceId, caps: Capabilities, a: int) -> bool {
    0 <= a < events.len() && is_request(events[a], id, caps)
}

/// The run holds a request at `a` and, later, the right hash at `b`.
pub open spec fn hashed(
    events: Seq<Timed>,
    id: DeviceId,
    caps: Capabilities,
    a: int,
    b: int,
) -> bool {
    requested(events, id, caps, a) && a < b < events.len() && is_hash_reply(events[b], id)
}

/// The run holds a request, the right hash and, later, at `c`, the
/// completed write of the first frame.
pub open spec fn probed(
    events: Seq<Timed>,
    id: DeviceId,
    caps: Capabilities,
    a: int,
    b: int,
    c: int,
) -> bool {
    hashed(events, id, caps, a, b) && b < c < events.len() && events[c].event is Sent
}

/// The run holds all steps of the handshake in their order: request, hash,
/// first frame and, at `d`, the matching echo.
pub open spec fn echoed(
    events: Seq<Timed>,
    id: DeviceId,
    caps: Capabilities,
    a: int,
    b: int,
    c: int,
    d: int,
) -> bool {
    probed(events, id, caps, a, b, c) && c < d < events.len() && is_echo(events[d], id, caps)
}

/// What a run must hold for the machine to be in a state.
pub open spec fn evidence(events: Seq<Timed>, state: PortState) -> bool {
    match state {
        PortState::Listening => true,
        PortState::Banned { .. } => true,
        PortState::Provisioning { assigned, capabilities, .. } => exists|a: int|
            requested(events, assigned, capabilities, a),
        PortState::HashCheck { assigned, capabilities, .. } => exists|a: int, b: int|
            hashed(events, assigned, capabilities, a, b),
        PortState::EncryptionProbe { assigned, capabilities, .. } => exists|a: int, b: int, c: int|
            probed(events, assigned, capabilities, a, b, c),
        PortState::Operational { id } => exists|caps: Capabilities, a: int, b: int, c: int, d: int|
            echoed(events, id, caps, a, b, c, d),
    }
}

/// A record is stored as active only in the step that completes an
/// enrollment: the echo was awaited, its deadline had not passed, and the
/// message is a frame that opens to the echo line.
pub proof fn lemma_activation(m: PortMachine, t: Timed)
    requires
        after(m, t).effects.persist is Some,
        after(m, t).effects.persist->0.active,
    ensures
        m.state is EncryptionProbe,
        t.now <= m.state->EncryptionProbe_deadline,
        is_echo(t, m.state->EncryptionProbe_assigned, m.state->EncryptionProbe_capabilities),
        after(m, t).machine.state == (PortState::Operational {
            id: m.state->EncryptionProbe_assigned,
        }),
        after(m, t).effects.persist->0.id == m.state->EncryptionProbe_assigned,
        after(m, t).effects.persist->0.state == RecordState::Operational,
{
}

/// A record with any other state than operational is never active, and a
/// banned device is never stored as anything but banned.
pub proof fn lemma_records(m: PortMachine, t: Timed)
    requires
        after(m, t).effects.persist is Some,
    ensures
        after(m, t).effects.persist->0.active <==> after(m, t).effects.persist->0.state
            == RecordState::Operational,
        m.state is Banned ==> false,
{
}

/// What held of a shorter run holds of a longer one.
proof fn lemma_evidence_grows(events: Seq<Timed>, state: PortState)
    requires
        events.len() > 0,
        evidence(events.drop_last(), state),
    ensures
        evidence(events, state),
{
    let prev = events.drop_last();
    match state {
        PortState::Provisioning { assigned, capabilities, .. } => {
            let a = choose|a: int| requested(prev, assigned, capabilities, a);
            assert(prev[a] == events[a]);
            assert(requested(events, assigned, capabilities, a));
        },
        PortState::HashCheck { assigned, capabilities, .. } => {
            let (a, b) = choose|a: int, b: int| hashed(prev, assigned, capabilities, a, b);
            assert(prev[a] == events[a] && prev[b] == events[b]);
            assert(hashed(events, assigned, capabilities, a, b));
        },
        PortState::EncryptionProbe { assigned, capabilities, .. } => {
            let (a, b, c) = choose|a: int, b: int, c: int|
                probed(prev, assigned, capabilities, a, b, c);
            assert(prev[a] == events[a] && prev[b] == events[b] && prev[c] == events[c]);
            assert(probed(events, assigned, capabilities, a, b, c));
        },
        PortState::Operational { id } => {
            let (caps, a, b, c, d) = choose|caps: Capabilities, a: int, b: int, c: int, d: int|
                echoed(prev, id, caps, a, b, c, d);
            assert(prev[a] == events[a] && prev[b] == events[b] && prev[c] == events[c] && prev[d]
                == events[d]);
            assert(echoed(events, id, caps, a, b, c, d));
        },
        _ => {},
    }
}

/// One more event keeps the run and the state of the machine in step.
proof fn lemma_evidence_step(events: Seq<Timed>, m: PortMachine)
    requires
        events.len() > 0,
        evidence(events.drop_last(), m.state),
    ensures
        evidence(events, after(m, events.last()).machine.state),
{
    let prev = events.drop_last();
    let t = events.last();
    let last = events.len() - 1;
    let next = after(m, t).machine.state;
    lemma_evidence_grows(events, m.state);
    if next != m.state {
        match next {
            PortState::Provisioning { assigned, capabilities, .. } => {
                assert(m.state is Listening);
                assert(requested(events, assigned, capabilities, last));
            },
            PortState::HashCheck { assigned, capabilities, .. } => {
                assert(m.state is Provisioning);
                let a = choose|a: int| requested(events, assigned, capabilities, a) && a < last;
                assert(exists|a: int| requested(events, assigned, capabilities, a) && a < last) by {
                    let a0 = choose|a: int| requested(prev, assigned, capabilities, a);
                    assert(prev[a0] == events[a0]);
                    assert(requested(events, assigned, capabilities, a0) && a0 < last);
                }
                assert(hashed(events, assigned, capabilities, a, last));
            },
            PortState::EncryptionProbe { assigned, capabilities, .. } => {
                assert(m.state is HashCheck);
                let (a0, b0) = choose|a: int, b: int| hashed(prev, assigned, capabilities, a, b);
                assert(prev[a0] == events[a0] && prev[b0] == events[b0]);
                assert(probed(events, assigned, capabilities, a0, b0, last));
            },
            PortState::Operational { id } => {
                assert(m.state is EncryptionProbe);
                let caps = m.state->EncryptionProbe_capabilities;
                let (a0, b0, c0) = choose|a: int, b: int, c: int|
                    probed(prev, id, caps, a, b, c);
                assert(prev[a0] == events[a0] && prev[b0] == events[b0] && prev[c0] == events[c0]);
                assert(echoed(events, id, caps, a0, b0, c0, last));
            },
            _ => {},
        }
    }
}

/// Every state that a machine reaches from listening is borne out by the
/// run that led to it.
pub proof fn lemma_evidence(m: PortMachine, events: Seq<Timed>)
    requires
        m.state is Listening,
    ensures
        evidence(events, run(m, events).state),
    decreases events.len(),
{
    if events.len() > 0 {
        lemma_evidence(m, events.drop_last());
        lemma_evidence_step(events, run(m, events.drop_last()));
    }
}

/// No run from listening ends with an enrolled device unless it holds, in
/// this order, a valid request that was given the identifier of the device,
/// the hash of that identifier, the completed write of the first frame, and
/// a frame that opens under the key of the device to the echo of the
/// capabilities that were requested.
pub proof fn lemma_enrolled_only_by_handshake(m: PortMachine, events: Seq<Timed>, id: DeviceId)
    requires
        m.state is Listening,
        run(m, events).state == (PortState::Operational { id }),
    ensures
        exists|caps: Capabilities, a: int, b: int, c: int, d: int|
            echoed(events, id, caps, a, b, c, d),
{
    lemma_evidence(m, events);
}

/// A device that sends a valid request, the right hash before the first
/// deadline, and the echo of the first frame before the third, while the
/// frame is written before the second, is enrolled; and that within the sum
/// of the three waits. The first reply is the echo line, the second the
/// frame that carries it.
pub proof fn lemma_enrollment_completes(
    m: PortMachine,
    caps: Capabilities,
    request: Timed,
    hash: Timed,
    sent: Timed,
    echo: Timed,
)
    requires
        m.state is Listening,
        is_request(request, request.fresh.id, caps),
        is_hash_reply(hash, request.fresh.id),
        sent.event is Sent,
        is_echo(echo, request.fresh.id, caps),
        hash.now <= arm(request.now, m.timing.provisioning),
        sent.now <= arm(hash.now, m.timing.hash_check),
        echo.now <= arm(sent.now, m.timing.probe),
    ensures
        run(m, seq![request, hash, sent, echo]).state == (PortState::Operational {
            id: request.fresh.id,
        }),
        after(m, request).effects.reply == Some(echo_text(request.fresh.id, caps)),
        after(after(m, request).machine, hash).effects.reply == Some(
            probe_frame(request.fresh.id, caps, hash.fresh.iv@),
        ),
        echo.now <= request.now + m.timing.provisioning + m.timing.hash_check + m.timing.probe,
{
    let id = request.fresh.id;
    let events = seq![request, hash, sent, echo];
    lemma_hash_is_no_request(hash.event->Message_0, id);
    let m1 = after(m, request).machine;
    let m2 = after(m1, hash).machine;
    let m3 = after(m2, sent).machine;
    let m4 = after(m3, echo).machine;
    assert(m1.state == (PortState::Provisioning {
        assigned: id,
        capabilities: caps,
        deadline: arm(request.now, m.timing.provisioning),
    }));
    assert(m2.state == (PortState::HashCheck {
        assigned: id,
        capabilities: caps,
        deadline: arm(hash.now, m.timing.hash_check),
    }));
    assert(m3.state == (PortState::EncryptionProbe {
        assigned: id,
        capabilities: caps,
        deadline: arm(sent.now, m.timing.probe),
    }));
    assert(m4.state == (PortState::Operational { id }));
    let e3 = events.drop_last();
    let e2 = e3.drop_last();
    let e1 = e2.drop_last();
    assert(e1.drop_last().len() == 0);
    assert(run(m, e1.drop_last()) == m);
    assert(e1.last() == request);
    assert(run(m, e1) == m1);
    assert(e2.last() == hash);
    assert(run(m, e2) == m2);
    assert(e3.last() == sent);
    assert(run(m, e3) == m3);
    assert(events.last() == echo);
}

/// The hash of an identifier is never taken for a request for enrollment:
/// it has sixty-four hexadecimal digits where the reserved identifier has
/// thirty-two.
pub proof fn lemma_hash_is_no_request(message: Seq<u8>, id: DeviceId)
    requires
        trim_end(message) == hash_text(id),
    ensures
        !claims_nil(message),
{
    let text = hash_text(id);
    crate::text::lemma_hex_text_digits(crate::crypto::sha256(simple_form(id.value)));
    assert(text.len() == 64);
    assert forall|j: int| 0 <= j < text.len() implies text[j] != SEPARATOR by {
        assert(crate::text::is_lower_hex(text[j]));
    }
    crate::text::lemma_first_index_is(text, SEPARATOR, text.len() as int);
    assert(fields_of(message)[0] == text);
    assert(simple_form(0).len() == 32);
}

/// White space is only ever left out at the end.
pub proof fn lemma_trim_is_prefix(s: Seq<u8>)
    ensures
        trim_end(s).len() <= s.len(),
        trim_end(s) == s.subrange(0, trim_end(s).len() as int),
    decreases s.len(),
{
    if s.len() > 0 && crate::text::is_space(s.last()) {
        lemma_trim_is_prefix(s.drop_last());
        assert(s.drop_last().subrange(0, trim_end(s).len() as int) =~= s.subrange(
            0,
            trim_end(s).len() as int,
        ));
    } else {
        assert(s.subrange(0, s.len() as int) =~= s);
    }
}

/// A reading that is passed on names the device that the port is enrolled
/// for: a frame that names another device is dropped.
pub proof fn lemma_reading_names_sender(m: PortMachine, now: u64, message: Seq<u8>, fresh: Entropy)
    requires
        m.state is Operational,
        after_message(m, now, message, fresh).effects.reading is Some,
    ensures
        after_message(m, now, message, fresh).effects.reading->0.source == m.state->Operational_id.value,
        after_message(m, now, message, fresh).machine.state == m.state,
{
    let id = m.state->Operational_id;
    let plaintext = opened(simple_form(id.value), message)->Ok_0;
    let name = simple_form(id.value);
    assert(starts_with(plaintext, name));
    assert(reading_of(plaintext) is Ok);
    let trimmed = trim_end(plaintext);
    let fields = fields_of(plaintext);
    lemma_trim_is_prefix(plaintext);
    lemma_first_index_bounds(trimmed, SEPARATOR);
    let i = first_index(trimmed, SEPARATOR);
    assert(fields.len() == 6);
    assert(i < trimmed.len()) by {
        if i >= trimmed.len() {
            assert(split(trimmed, SEPARATOR) == seq![trimmed]);
        }
    }
    assert(fields[0] == trimmed.subrange(0, i));
    assert(i == 32);
    assert(fields[0] =~= plaintext.subrange(0, 32));
    assert(fields[0] == name);
    crate::device::lemma_simple_form_is_text(id.value);
    crate::device::lemma_simple_text_has_id(fields[0]);
    lemma_simple_form_injective(id_of_text(fields[0]), id.value);
}

} // verus!
