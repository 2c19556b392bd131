//! The state of one serial port: listening for a device that asks to be
//! enrolled, leading it through the handshake, and then taking its readings.
//!
//! The machine decides; it performs nothing. Whoever owns the port hands it
//! one event at a time, with the time in milliseconds, and carries out the
//! effects that come back: bytes to write, a record to store or delete, a
//! reading to pass on. While the machine listens or provisions, messages are
//! lines of text; from the hash check on they are frames.

use crate::crypto::{digest_of, fresh_iv, sha256};
use crate::device::{is_version4, simple_form, DeviceId};
use crate::error::SerialError;
use crate::message::{drop_kind, drop_kind_of, open, opened, seal, sealed_bytes, starts_with};
use crate::reading::{
    enrollment_of, fields_of, payload_fields, reading_of, Capabilities, ReadingView, SerialReading,
};
use crate::text::{
    hex_encode, hex_text, lemma_split_len, same_bytes, trim_end, trimmed_len,
};
use vstd::prelude::*;
use vstd::pervasive::unreached;
use vstd::slice::slice_subrange;
use vstd::utf8::encode_utf8;

verus! {

/// The step of its life that the registry knows a device to be in.
#[derive(Clone, Copy, Debug, PartialEq, Eq, Structural)]
pub enum RecordState {
    Provisioning,
    HashCheck,
    EncryptionProbe,
    Operational,
    Banned,
}

/// What the registry keeps of a device. Its key is not stored: it is the
/// canonical text of the identifier.
#[derive(Clone, Copy, Debug, PartialEq, Eq, Structural)]
pub struct DeviceRecord {
    pub id: DeviceId,
    pub capabilities: Capabilities,
    pub active: bool,
    pub state: RecordState,
    pub last_seen: u64,
}

/// How long, in milliseconds, each step of the handshake may take.
#[derive(Clone, Copy, Debug, PartialEq, Eq, Structural)]
pub struct Deadlines {
    pub provisioning: u64,
    pub hash_check: u64,
    pub probe: u64,
}

/// What the machine has counted.
#[derive(Clone, Copy, Debug, PartialEq, Eq, Structural)]
pub struct Counters {
    pub received: u64,
    pub verified: u64,
    pub dropped_framing: u64,
    pub dropped_auth: u64,
    pub dropped_decrypt: u64,
    pub dropped_shape: u64,
    pub dropped_field: u64,
    pub dropped_protocol: u64,
    pub dropped_timeout: u64,
    pub dropped_banned: u64,
    pub enrollments_completed: u64,
    pub enrollments_failed: u64,
}

/// Where a port stands.
#[derive(Clone, Copy, Debug, PartialEq, Eq, Structural)]
pub enum PortState {
    /// No device is known; an enrollment request is awaited.
    Listening,
    /// An identifier was assigned; its hash is awaited.
    Provisioning { assigned: DeviceId, capabilities: Capabilities, deadline: u64 },
    /// The hash was right and the first frame is being written.
    HashCheck { assigned: DeviceId, capabilities: Capabilities, deadline: u64 },
    /// The first frame was written; its echo is awaited.
    EncryptionProbe { assigned: DeviceId, capabilities: Capabilities, deadline: u64 },
    /// The device is enrolled and sends readings.
    Operational { id: DeviceId },
    /// The device failed the handshake; nothing is taken from it any more.
    Banned { id: DeviceId },
}

/// The state of a port with its settings and counters.
#[derive(Clone, Copy, Debug, PartialEq, Eq, Structural)]
pub struct PortMachine {
    pub state: PortState,
    pub timing: Deadlines,
    pub counters: Counters,
}

/// The random values that a step may use up.
#[derive(Clone, Copy, Debug)]
pub struct Entropy {
    pub id: DeviceId,
    pub iv: [u8; 16],
}

/// What the owner of the port has to carry out after a step.
#[derive(Clone, Debug, PartialEq, Eq)]
pub struct Effects {
    /// Bytes to write to the port.
    pub reply: Option<Vec<u8>>,
    /// A record to store in the registry, in place of an earlier one.
    pub persist: Option<DeviceRecord>,
    /// A device whose record is to be deleted from the registry.
    pub forget: Option<DeviceId>,
    /// A reading to hand to the sink.
    pub reading: Option<SerialReading>,
    /// Why the message, or the enrollment, was given up.
    pub dropped: Option<SerialError>,
}

/// Effects as mathematical values.
pub struct EffectsView {
    pub reply: Option<Seq<u8>>,
    pub persist: Option<DeviceRecord>,
    pub forget: Option<DeviceId>,
    pub reading: Option<ReadingView>,
    pub dropped: Option<SerialError>,
}

impl View for Effects {
    type V = EffectsView;

    open spec fn view(&self) -> EffectsView {
        EffectsView {
            reply: match self.reply {
                Some(bytes) => Some(bytes@),
                None => None,
            },
            persist: self.persist,
            forget: self.forget,
            reading: match self.reading {
                Some(r) => Some(r@),
                None => None,
            },
            dropped: self.dropped,
        }
    }
}

/// A machine after a step, and the effects of the step.
pub struct Outcome {
    pub machine: PortMachine,
    pub effects: EffectsView,
}

/// The time at which a wait that starts at `now` runs out; the largest time
/// there is where the sum does not fit.
pub open spec fn arm(now: u64, wait: u64) -> u64 {
    if now + wait > u64::MAX {
        u64::MAX
    } else {
        (now + wait) as u64
    }
}

/// One more, unless the counter is full.
pub open spec fn bump(n: u64) -> u64 {
    if n < u64::MAX {
        (n + 1) as u64
    } else {
        n
    }
}

/// The counters after a drop of the given kind.
pub open spec fn count_dropped(c: Counters, kind: SerialError) -> Counters {
    match kind {
        SerialError::Io => c,
        SerialError::Framing => Counters { dropped_framing: bump(c.dropped_framing), ..c },
        SerialError::Auth => Counters { dropped_auth: bump(c.dropped_auth), ..c },
        SerialError::Decrypt => Counters { dropped_decrypt: bump(c.dropped_decrypt), ..c },
        SerialError::Shape => Counters { dropped_shape: bump(c.dropped_shape), ..c },
        SerialError::Field => Counters { dropped_field: bump(c.dropped_field), ..c },
        SerialError::Protocol => Counters { dropped_protocol: bump(c.dropped_protocol), ..c },
        SerialError::Timeout => Counters { dropped_timeout: bump(c.dropped_timeout), ..c },
        SerialError::Banned => Counters { dropped_banned: bump(c.dropped_banned), ..c },
    }
}

/// The word for a capability flag.
pub open spec fn flag_text(flag: bool) -> Seq<u8> {
    if flag {
        seq![84u8, 82u8, 85u8, 69u8]
    } else {
        seq![70u8, 65u8, 76u8, 83u8, 69u8]
    }
}

/// A line with one more field: a `#` and the word for a flag.
pub open spec fn with_flag(line: Seq<u8>, flag: bool) -> Seq<u8> {
    line + seq![35u8] + flag_text(flag)
}

/// The line that tells a device its identifier and repeats the capabilities
/// it declared: the canonical text, the five flags in capitals, each behind
/// a `#`, and a line feed.
pub open spec fn echo_text(id: DeviceId, caps: Capabilities) -> Seq<u8> {
    with_flag(
        with_flag(
            with_flag(
                with_flag(with_flag(simple_form(id.value), caps.humidity), caps.temp_c),
                caps.temp_f,
            ),
            caps.presence,
        ),
        caps.threshold_open,
    ).push(10u8)
}

/// The reply that proves that a device knows its identifier: the SHA-256
/// digest of the canonical text, in sixty-four hexadecimal digits.
pub open spec fn hash_text(id: DeviceId) -> Seq<u8> {
    hex_text(sha256(simple_form(id.value)))
}

/// The first frame for a device: its echo line, encrypted under its key.
pub open spec fn probe_frame(id: DeviceId, caps: Capabilities, iv: Seq<u8>) -> Seq<u8> {
    sealed_bytes(simple_form(id.value), iv, echo_text(id, caps))
}

/// Whether the first field of a message is the reserved identifier, as in a
/// request for enrollment.
pub open spec fn claims_nil(message: Seq<u8>) -> bool {
    fields_of(message)[0] == simple_form(0)
}

/// Counters on which nothing has been counted.
pub open spec fn no_counts() -> Counters {
    Counters {
        received: 0,
        verified: 0,
        dropped_framing: 0,
        dropped_auth: 0,
        dropped_decrypt: 0,
        dropped_shape: 0,
        dropped_field: 0,
        dropped_protocol: 0,
        dropped_timeout: 0,
        dropped_banned: 0,
        enrollments_completed: 0,
        enrollments_failed: 0,
    }
}

/// No effect at all.
pub open spec fn quiet() -> EffectsView {
    EffectsView { reply: None, persist: None, forget: None, reading: None, dropped: None }
}

/// The record of a device in a step of its life.
pub open spec fn record(
    id: DeviceId,
    capabilities: Capabilities,
    state: RecordState,
    now: u64,
) -> DeviceRecord {
    DeviceRecord { id, capabilities, active: state == RecordState::Operational, state, last_seen: now }
}

/// The machine stays where it is and counts a drop.
pub open spec fn stay_dropping(m: PortMachine, kind: SerialError) -> Outcome {
    Outcome {
        machine: PortMachine { counters: count_dropped(m.counters, kind), ..m },
        effects: EffectsView { dropped: Some(kind), ..quiet() },
    }
}

/// The machine stays where it is and nothing happens.
pub open spec fn stay(m: PortMachine) -> Outcome {
    Outcome { machine: m, effects: quiet() }
}

/// The enrollment in flight fails: the device is banned, and the registry
/// learns of it.
pub open spec fn ban(
    m: PortMachine,
    id: DeviceId,
    capabilities: Capabilities,
    now: u64,
    kind: SerialError,
) -> Outcome {
    let counted = count_dropped(m.counters, kind);
    Outcome {
        machine: PortMachine {
            state: PortState::Banned { id },
            counters: Counters { enrollments_failed: bump(counted.enrollments_failed), ..counted },
            ..m
        },
        effects: EffectsView {
            persist: Some(record(id, capabilities, RecordState::Banned, now)),
            dropped: Some(kind),
            ..quiet()
        },
    }
}

/// A message while listening: a valid request starts an enrollment under
/// the fresh identifier; anything else is dropped.
pub open spec fn listening_message(m: PortMachine, now: u64, message: Seq<u8>, fresh: Entropy) -> Outcome {
    match enrollment_of(message) {
        Ok(capabilities) => Outcome {
            machine: PortMachine {
                state: PortState::Provisioning {
                    assigned: fresh.id,
                    capabilities,
                    deadline: arm(now, m.timing.provisioning),
                },
                ..m
            },
            effects: EffectsView {
                reply: Some(echo_text(fresh.id, capabilities)),
                persist: Some(record(fresh.id, capabilities, RecordState::Provisioning, now)),
                ..quiet()
            },
        },
        Err(e) => stay_dropping(m, drop_kind(e)),
    }
}

/// A message while the hash is awaited: another request for enrollment is
/// passed over, the right hash leads on to the first frame, anything else
/// bans the device.
pub open spec fn provisioning_message(
    m: PortMachine,
    assigned: DeviceId,
    capabilities: Capabilities,
    now: u64,
    message: Seq<u8>,
    fresh: Entropy,
) -> Outcome {
    if claims_nil(message) {
        stay(m)
    } else if trim_end(message) == hash_text(assigned) {
        Outcome {
            machine: PortMachine {
                state: PortState::HashCheck {
                    assigned,
                    capabilities,
                    deadline: arm(now, m.timing.hash_check),
                },
                ..m
            },
            effects: EffectsView {
                reply: Some(probe_frame(assigned, capabilities, fresh.iv@)),
                persist: Some(record(assigned, capabilities, RecordState::HashCheck, now)),
                ..quiet()
            },
        }
    } else {
        ban(m, assigned, capabilities, now, SerialError::Protocol)
    }
}

/// A message while the first frame is being written: another request for
/// enrollment is passed over, anything else bans the device.
pub open spec fn hash_check_message(
    m: PortMachine,
    assigned: DeviceId,
    capabilities: Capabilities,
    now: u64,
    message: Seq<u8>,
) -> Outcome {
    if claims_nil(message) {
        stay(m)
    } else {
        ban(m, assigned, capabilities, now, SerialError::Protocol)
    }
}

/// The machine after it has counted a frame whose tag verified.
pub open spec fn seen(m: PortMachine) -> PortMachine {
    PortMachine { counters: Counters { verified: bump(m.counters.verified), ..m.counters }, ..m }
}

/// The machine after a frame failed to open: the tag had verified where
/// the failure came after it.
pub open spec fn seen_if_verified(m: PortMachine, kind: SerialError) -> PortMachine {
    if kind == SerialError::Decrypt {
        seen(m)
    } else {
        m
    }
}

/// What is made of the echo that a device was asked for, once its message
/// was held against the key: a text that is the echo line completes the
/// enrollment; any other text, and a message that is no valid frame, ban
/// the device, unless the message is another request for enrollment, which
/// is passed over.
pub open spec fn echo_outcome(
    m: PortMachine,
    assigned: DeviceId,
    capabilities: Capabilities,
    now: u64,
    received: Result<Seq<u8>, SerialError>,
    claims: bool,
) -> Outcome {
    match received {
        Err(kind) => if claims {
            stay(m)
        } else {
            ban(seen_if_verified(m, kind), assigned, capabilities, now, kind)
        },
        Ok(plaintext) => {
            if trim_end(plaintext) == trim_end(echo_text(assigned, capabilities)) {
                Outcome {
                    machine: PortMachine {
                        state: PortState::Operational { id: assigned },
                        counters: Counters {
                            enrollments_completed: bump(seen(m).counters.enrollments_completed),
                            ..seen(m).counters
                        },
                        ..m
                    },
                    effects: EffectsView {
                        persist: Some(
                            record(assigned, capabilities, RecordState::Operational, now),
                        ),
                        ..quiet()
                    },
                }
            } else {
                ban(seen(m), assigned, capabilities, now, SerialError::Protocol)
            }
        },
    }
}

/// A message while the echo is awaited.
pub open spec fn probe_message(
    m: PortMachine,
    assigned: DeviceId,
    capabilities: Capabilities,
    now: u64,
    message: Seq<u8>,
) -> Outcome {
    echo_outcome(
        m,
        assigned,
        capabilities,
        now,
        opened(simple_form(assigned.value), message),
        claims_nil(message),
    )
}

/// What is made of a message from an enrolled device, once it was held
/// against the key: a text that begins with the identifier of the device
/// and holds a reading is passed on; anything else is dropped, and the
/// device stays enrolled.
pub open spec fn reading_outcome(
    m: PortMachine,
    id: DeviceId,
    received: Result<Seq<u8>, SerialError>,
) -> Outcome {
    match received {
        Err(kind) => stay_dropping(seen_if_verified(m, kind), kind),
        Ok(plaintext) => {
            if !starts_with(plaintext, simple_form(id.value)) {
                stay_dropping(seen(m), SerialError::Protocol)
            } else {
                match reading_of(plaintext) {
                    Err(e) => stay_dropping(seen(m), drop_kind(e)),
                    Ok(reading) => Outcome {
                        machine: seen(m),
                        effects: EffectsView { reading: Some(reading), ..quiet() },
                    },
                }
            }
        },
    }
}

/// A message from an enrolled device.
pub open spec fn operational_message(m: PortMachine, id: DeviceId, message: Seq<u8>) -> Outcome {
    reading_outcome(m, id, opened(simple_form(id.value), message))
}

/// The bytes of a text that was received, or why none was.
pub open spec fn received_bytes(received: Result<String, SerialError>) -> Result<
    Seq<u8>,
    SerialError,
> {
    match received {
        Ok(text) => Ok(encode_utf8(text@)),
        Err(kind) => Err(kind),
    }
}

/// The machine and the effects after a message that arrives at `now`.
pub open spec fn after_message(m: PortMachine, now: u64, message: Seq<u8>, fresh: Entropy) -> Outcome {
    let got = PortMachine {
        counters: Counters { received: bump(m.counters.received), ..m.counters },
        ..m
    };
    match m.state {
        PortState::Listening => listening_message(got, now, message, fresh),
        PortState::Provisioning { assigned, capabilities, deadline } => if now > deadline {
            ban(got, assigned, capabilities, now, SerialError::Timeout)
        } else {
            provisioning_message(got, assigned, capabilities, now, message, fresh)
        },
        PortState::HashCheck { assigned, capabilities, deadline } => if now > deadline {
            ban(got, assigned, capabilities, now, SerialError::Timeout)
        } else {
            hash_check_message(got, assigned, capabilities, now, message)
        },
        PortState::EncryptionProbe { assigned, capabilities, deadline } => if now > deadline {
            ban(got, assigned, capabilities, now, SerialError::Timeout)
        } else {
            probe_message(got, assigned, capabilities, now, message)
        },
        PortState::Operational { id } => operational_message(got, id, message),
        PortState::Banned { id } => stay_dropping(got, SerialError::Banned),
    }
}

/// The machine and the effects after the clock has reached `now`: an
/// enrollment whose deadline has passed fails.
pub open spec fn after_tick(m: PortMachine, now: u64) -> Outcome {
    match m.state {
        PortState::Provisioning { assigned, capabilities, deadline } => if now > deadline {
            ban(m, assigned, capabilities, now, SerialError::Timeout)
        } else {
            stay(m)
        },
        PortState::HashCheck { assigned, capabilities, deadline } => if now > deadline {
            ban(m, assigned, capabilities, now, SerialError::Timeout)
        } else {
            stay(m)
        },
        PortState::EncryptionProbe { assigned, capabilities, deadline } => if now > deadline {
            ban(m, assigned, capabilities, now, SerialError::Timeout)
        } else {
            stay(m)
        },
        _ => stay(m),
    }
}

/// The machine and the effects after a write has been completed at `now`:
/// once the first frame is out, its echo is awaited.
pub open spec fn after_sent(m: PortMachine, now: u64) -> Outcome {
    match m.state {
        PortState::HashCheck { assigned, capabilities, deadline } => if now > deadline {
            ban(m, assigned, capabilities, now, SerialError::Timeout)
        } else {
            Outcome {
                machine: PortMachine {
                    state: PortState::EncryptionProbe {
                        assigned,
                        capabilities,
                        deadline: arm(now, m.timing.probe),
                    },
                    ..m
                },
                effects: EffectsView {
                    persist: Some(record(assigned, capabilities, RecordState::EncryptionProbe, now)),
                    ..quiet()
                },
            }
        },
        _ => after_tick(m, now),
    }
}

/// The identifier of the enrollment in flight, if there is one.
pub open spec fn in_flight(state: PortState) -> Option<DeviceId> {
    match state {
        PortState::Provisioning { assigned, .. } => Some(assigned),
        PortState::HashCheck { assigned, .. } => Some(assigned),
        PortState::EncryptionProbe { assigned, .. } => Some(assigned),
        _ => None,
    }
}

/// The machine and the effects after the port task was cancelled: an
/// enrollment in flight is abandoned and its record deleted.
pub open spec fn after_cancel(m: PortMachine) -> Outcome {
    match in_flight(m.state) {
        Some(id) => Outcome {
            machine: PortMachine { state: PortState::Listening, ..m },
            effects: EffectsView { forget: Some(id), ..quiet() },
        },
        None => stay(m),
    }
}

/// The time at which a wait that starts now runs out.
pub fn arm_deadline(now: u64, wait: u64) -> (deadline: u64)
    ensures
        deadline == arm(now, wait),
{
    if wait > u64::MAX - now {
        u64::MAX
    } else {
        now + wait
    }
}

/// One more, unless the counter is full.
pub fn bumped(n: u64) -> (more: u64)
    ensures
        more == bump(n),
{
    if n < u64::MAX {
        n + 1
    } else {
        n
    }
}

/// The counters after a drop of the given kind.
pub fn counted(c: Counters, kind: SerialError) -> (after: Counters)
    ensures
        after == count_dropped(c, kind),
{
    let mut after = c;
    match kind {
        SerialError::Io => {},
        SerialError::Framing => {
            after.dropped_framing = bumped(c.dropped_framing);
        },
        SerialError::Auth => {
            after.dropped_auth = bumped(c.dropped_auth);
        },
        SerialError::Decrypt => {
            after.dropped_decrypt = bumped(c.dropped_decrypt);
        },
        SerialError::Shape => {
            after.dropped_shape = bumped(c.dropped_shape);
        },
        SerialError::Field => {
            after.dropped_field = bumped(c.dropped_field);
        },
        SerialError::Protocol => {
            after.dropped_protocol = bumped(c.dropped_protocol);
        },
        SerialError::Timeout => {
            after.dropped_timeout = bumped(c.dropped_timeout);
        },
        SerialError::Banned => {
            after.dropped_banned = bumped(c.dropped_banned);
        },
    }
    after
}

/// Appends a `#` and the word for a capability flag.
fn push_flag(line: &mut Vec<u8>, flag: bool)
    ensures
        final(line)@ == with_flag(old(line)@, flag),
{
    line.push(35);
    if flag {
        let word: [u8; 4] = [84, 82, 85, 69];
        assert(word@ =~= flag_text(true));
        line.extend_from_slice(word.as_slice());
    } else {
        let word: [u8; 5] = [70, 65, 76, 83, 69];
        assert(word@ =~= flag_text(false));
        line.extend_from_slice(word.as_slice());
    }
}

/// The line that tells a device its identifier and repeats its capabilities.
pub fn echo_line(id: DeviceId, caps: Capabilities) -> (line: Vec<u8>)
    ensures
        line@ == echo_text(id, caps),
        line@.len() <= 63,
{
    let text = id.to_simple();
    let mut line: Vec<u8> = Vec::new();
    line.extend_from_slice(text.as_slice());
    assert(line@ =~= simple_form(id.value));
    push_flag(&mut line, caps.humidity);
    push_flag(&mut line, caps.temp_c);
    push_flag(&mut line, caps.temp_f);
    push_flag(&mut line, caps.presence);
    push_flag(&mut line, caps.threshold_open);
    line.push(10);
    line
}

/// The reply that proves that a device knows its identifier.
pub fn expected_hash(id: DeviceId) -> (text: Vec<u8>)
    ensures
        text@ == hash_text(id),
{
    let key = id.to_simple();
    let out = digest_of(key.as_slice());
    hex_encode(out.as_slice())
}

/// Whether the first field of a message is the reserved identifier.
pub fn claims_reserved(message: &[u8]) -> (claims: bool)
    ensures
        claims == claims_nil(message@),
{
    let fields = payload_fields(message);
    proof {
        lemma_split_len(trim_end(message@), crate::reading::SEPARATOR);
    }
    let nil = DeviceId::nil().to_simple();
    same_bytes(fields[0].as_slice(), nil.as_slice())
}

/// Whether two texts are the same once the white space at their ends is
/// left out.
pub fn same_trimmed(a: &[u8], b: &[u8]) -> (same: bool)
    ensures
        same == (trim_end(a@) == trim_end(b@)),
{
    let n = trimmed_len(a);
    let k = trimmed_len(b);
    same_bytes(slice_subrange(a, 0, n), slice_subrange(b, 0, k))
}

impl Deadlines {
    /// Five seconds for each step.
    pub fn recommended() -> (timing: Deadlines)
        ensures
            timing == (Deadlines { provisioning: 5000, hash_check: 5000, probe: 5000 }),
    {
        Deadlines { provisioning: 5000, hash_check: 5000, probe: 5000 }
    }
}

impl Counters {
    /// Nothing counted yet.
    pub fn zero() -> (c: Counters)
        ensures
            c == no_counts(),
    {
        Counters {
            received: 0,
            verified: 0,
            dropped_framing: 0,
            dropped_auth: 0,
            dropped_decrypt: 0,
            dropped_shape: 0,
            dropped_field: 0,
            dropped_protocol: 0,
            dropped_timeout: 0,
            dropped_banned: 0,
            enrollments_completed: 0,
            enrollments_failed: 0,
        }
    }
}

impl DeviceRecord {
    /// The key of the device: the canonical text of its identifier.
    pub fn key(&self) -> (key: [u8; 32])
        ensures
            key@ == simple_form(self.id.value),
    {
        self.id.key()
    }
}

impl Entropy {
    /// Draws a fresh identifier and a fresh initialisation vector.
    pub fn fresh() -> (fresh: Entropy)
        ensures
            is_version4(fresh.id.value),
    {
        Entropy { id: DeviceId::new_v4(), iv: fresh_iv() }
    }
}

impl Effects {
    /// No effect at all.
    pub fn none() -> (effects: Effects)
        ensures
            effects@ == quiet(),
    {
        Effects { reply: None, persist: None, forget: None, reading: None, dropped: None }
    }

    /// A drop and nothing else.
    pub fn drop_of(kind: SerialError) -> (effects: Effects)
        ensures
            effects@ == (EffectsView { dropped: Some(kind), ..quiet() }),
    {
        Effects { reply: None, persist: None, forget: None, reading: None, dropped: Some(kind) }
    }
}

impl PortMachine {
    /// A machine that listens, with the given deadlines and empty counters.
    pub fn new(timing: Deadlines) -> (m: PortMachine)
        ensures
            m.state == PortState::Listening,
            m.timing == timing,
            m.counters == no_counts(),
    {
        PortMachine { state: PortState::Listening, timing, counters: Counters::zero() }
    }

    /// A machine for a device that the registry knows as enrolled.
    pub fn enrolled(id: DeviceId, timing: Deadlines) -> (m: PortMachine)
        ensures
            m.state == (PortState::Operational { id }),
            m.timing == timing,
            m.counters == no_counts(),
    {
        PortMachine { state: PortState::Operational { id }, timing, counters: Counters::zero() }
    }

    pub open spec fn spec_expects_frames(&self) -> bool {
        self.state is HashCheck || self.state is EncryptionProbe || self.state is Operational
    }

    /// Whether the next message is a frame behind its length rather than a
    /// line of text.
    #[verifier::when_used_as_spec(spec_expects_frames)]
    pub fn expects_frames(&self) -> (frames: bool)
        ensures
            frames == self.spec_expects_frames(),
    {
        match self.state {
            PortState::HashCheck { .. } => true,
            PortState::EncryptionProbe { .. } => true,
            PortState::Operational { .. } => true,
            _ => false,
        }
    }

    /// The time at which the step in progress runs out, if it has a limit.
    pub fn deadline(&self) -> (deadline: Option<u64>)
        ensures
            deadline == match self.state {
                PortState::Provisioning { deadline, .. } => Some(deadline),
                PortState::HashCheck { deadline, .. } => Some(deadline),
                PortState::EncryptionProbe { deadline, .. } => Some(deadline),
                _ => None::<u64>,
            },
    {
        match self.state {
            PortState::Provisioning { deadline, .. } => Some(deadline),
            PortState::HashCheck { deadline, .. } => Some(deadline),
            PortState::EncryptionProbe { deadline, .. } => Some(deadline),
            _ => None,
        }
    }

    /// Counts a frame whose tag verified but which failed to open.
    fn count_if_verified(&mut self, kind: SerialError)
        ensures
            *final(self) == seen_if_verified(*old(self), kind),
    {
        match kind {
            SerialError::Decrypt => {
                self.counters.verified = bumped(self.counters.verified);
            },
            _ => {},
        }
    }

    /// Stays in place and counts a drop.
    fn drop_message(&mut self, kind: SerialError) -> (effects: Effects)
        ensures
            (Outcome { machine: *final(self), effects: effects@ }) == stay_dropping(
                *old(self),
                kind,
            ),
    {
        self.counters = counted(self.counters, kind);
        Effects::drop_of(kind)
    }

    /// Bans the device whose enrollment is in flight.
    fn ban_device(
        &mut self,
        id: DeviceId,
        capabilities: Capabilities,
        now: u64,
        kind: SerialError,
    ) -> (effects: Effects)
        ensures
            (Outcome { machine: *final(self), effects: effects@ }) == ban(
                *old(self),
                id,
                capabilities,
                now,
                kind,
            ),
    {
        let mut after = counted(self.counters, kind);
        after.enrollments_failed = bumped(after.enrollments_failed);
        self.counters = after;
        self.state = PortState::Banned { id };
        Effects {
            reply: None,
            persist: Some(
                DeviceRecord {
                    id,
                    capabilities,
                    active: false,
                    state: RecordState::Banned,
                    last_seen: now,
                },
            ),
            forget: None,
            reading: None,
            dropped: Some(kind),
        }
    }

    fn listening(&mut self, now: u64, message: &[u8], fresh: &Entropy) -> (effects: Effects)
        ensures
            (Outcome { machine: *final(self), effects: effects@ }) == listening_message(
                *old(self),
                now,
                message@,
                *fresh,
            ),
    {
        match Capabilities::parse(message) {
            Ok(capabilities) => {
                self.state =
                PortState::Provisioning {
                    assigned: fresh.id,
                    capabilities,
                    deadline: arm_deadline(now, self.timing.provisioning),
                };
                Effects {
                    reply: Some(echo_line(fresh.id, capabilities)),
                    persist: Some(
                        DeviceRecord {
                            id: fresh.id,
                            capabilities,
                            active: false,
                            state: RecordState::Provisioning,
                            last_seen: now,
                        },
                    ),
                    forget: None,
                    reading: None,
                    dropped: None,
                }
            },
            Err(e) => self.drop_message(drop_kind_of(e)),
        }
    }

    fn provisioning(
        &mut self,
        assigned: DeviceId,
        capabilities: Capabilities,
        now: u64,
        message: &[u8],
        fresh: &Entropy,
    ) -> (effects: Effects)
        ensures
            (Outcome { machine: *final(self), effects: effects@ }) == provisioning_message(
                *old(self),
                assigned,
                capabilities,
                now,
                message@,
                *fresh,
            ),
    {
        if claims_reserved(message) {
            return Effects::none();
        }
        let expected = expected_hash(assigned);
        let n = trimmed_len(message);
        if same_bytes(slice_subrange(message, 0, n), expected.as_slice()) {
            let key = assigned.key();
            let line = echo_line(assigned, capabilities);
            let frame = match seal(&key, &fresh.iv, line.as_slice()) {
                Ok(frame) => frame,
                Err(_) => unreached(),
            };
            self.state =
            PortState::HashCheck {
                assigned,
                capabilities,
                deadline: arm_deadline(now, self.timing.hash_check),
            };
            Effects {
                reply: Some(frame),
                persist: Some(
                    DeviceRecord {
                        id: assigned,
                        capabilities,
                        active: false,
                        state: RecordState::HashCheck,
                        last_seen: now,
                    },
                ),
                forget: None,
                reading: None,
                dropped: None,
            }
        } else {
            self.ban_device(assigned, capabilities, now, SerialError::Protocol)
        }
    }

    fn hash_check(
        &mut self,
        assigned: DeviceId,
        capabilities: Capabilities,
        now: u64,
        message: &[u8],
    ) -> (effects: Effects)
        ensures
            (Outcome { machine: *final(self), effects: effects@ }) == hash_check_message(
                *old(self),
                assigned,
                capabilities,
                now,
                message@,
            ),
    {
        if claims_reserved(message) {
            Effects::none()
        } else {
            self.ban_device(assigned, capabilities, now, SerialError::Protocol)
        }
    }

    /// Decides on the echo that a device was asked for. `received` is what
    /// opening the message under the key of the device gave, `claims` whether
    /// the message begins with the reserved identifier.
    pub fn take_echo(
        &mut self,
        assigned: DeviceId,
        capabilities: Capabilities,
        now: u64,
        received: Result<String, SerialError>,
        claims: bool,
    ) -> (effects: Effects)
        ensures
            (Outcome { machine: *final(self), effects: effects@ }) == echo_outcome(
                *old(self),
                assigned,
                capabilities,
                now,
                received_bytes(received),
                claims,
            ),
    {
        match received {
            Err(kind) => {
                if claims {
                    Effects::none()
                } else {
                    self.count_if_verified(kind);
                    self.ban_device(assigned, capabilities, now, kind)
                }
            },
            Ok(text) => {
                self.counters.verified = bumped(self.counters.verified);
                let line = echo_line(assigned, capabilities);
                if same_trimmed(text.as_str().as_bytes(), line.as_slice()) {
                    self.counters.enrollments_completed = bumped(
                        self.counters.enrollments_completed,
                    );
                    self.state = PortState::Operational { id: assigned };
                    Effects {
                        reply: None,
                        persist: Some(
                            DeviceRecord {
                                id: assigned,
                                capabilities,
                                active: true,
                                state: RecordState::Operational,
                                last_seen: now,
                            },
                        ),
                        forget: None,
                        reading: None,
                        dropped: None,
                    }
                } else {
                    self.ban_device(assigned, capabilities, now, SerialError::Protocol)
                }
            },
        }
    }

    fn probe(
        &mut self,
        assigned: DeviceId,
        capabilities: Capabilities,
        now: u64,
        message: &[u8],
    ) -> (effects: Effects)
        ensures
            (Outcome { machine: *final(self), effects: effects@ }) == probe_message(
                *old(self),
                assigned,
                capabilities,
                now,
                message@,
            ),
    {
        let key = assigned.key();
        let received = open(&key, message);
        let claims = match &received {
            Err(_) => claims_reserved(message),
            Ok(_) => false,
        };
        self.take_echo(assigned, capabilities, now, received, claims)
    }

    /// Decides on a message from the enrolled device `id`. `received` is
    /// what opening the message under the key of the device gave.
    pub fn take_reading(&mut self, id: DeviceId, received: Result<String, SerialError>) -> (effects:
        Effects)
        ensures
            (Outcome { machine: *final(self), effects: effects@ }) == reading_outcome(
                *old(self),
                id,
                received_bytes(received),
            ),
    {
        match received {
            Err(kind) => {
                self.count_if_verified(kind);
                self.drop_message(kind)
            },
            Ok(text) => {
                self.counters.verified = bumped(self.counters.verified);
                let bytes = text.as_str().as_bytes();
                let name = id.to_simple();
                if bytes.len() < 32 || !same_bytes(slice_subrange(bytes, 0, 32), name.as_slice()) {
                    return self.drop_message(SerialError::Protocol);
                }
                match SerialReading::parse(bytes) {
                    Err(e) => self.drop_message(drop_kind_of(e)),
                    Ok(reading) => Effects {
                        reply: None,
                        persist: None,
                        forget: None,
                        reading: Some(reading),
                        dropped: None,
                    },
                }
            },
        }
    }

    fn operational(&mut self, id: DeviceId, message: &[u8]) -> (effects: Effects)
        ensures
            (Outcome { machine: *final(self), effects: effects@ }) == operational_message(
                *old(self),
                id,
                message@,
            ),
    {
        let key = id.key();
        let received = open(&key, message);
        self.take_reading(id, received)
    }

    /// Takes a message that arrived at `now`, with the random values that
    /// the step may use: the identifier for a device that asks to be
    /// enrolled, and the vector for the first frame.
    pub fn on_message(&mut self, now: u64, message: &[u8], fresh: &Entropy) -> (effects: Effects)
        requires
            is_version4(fresh.id.value),
        ensures
            (Outcome { machine: *final(self), effects: effects@ }) == after_message(
                *old(self),
                now,
                message@,
                *fresh,
            ),
    {
        self.counters.received = bumped(self.counters.received);
        match self.state {
            PortState::Listening => self.listening(now, message, fresh),
            PortState::Provisioning { assigned, capabilities, deadline } => {
                if now > deadline {
                    self.ban_device(assigned, capabilities, now, SerialError::Timeout)
                } else {
                    self.provisioning(assigned, capabilities, now, message, fresh)
                }
            },
            PortState::HashCheck { assigned, capabilities, deadline } => {
                if now > deadline {
                    self.ban_device(assigned, capabilities, now, SerialError::Timeout)
                } else {
                    self.hash_check(assigned, capabilities, now, message)
                }
            },
            PortState::EncryptionProbe { assigned, capabilities, deadline } => {
                if now > deadline {
                    self.ban_device(assigned, capabilities, now, SerialError::Timeout)
                } else {
                    self.probe(assigned, capabilities, now, message)
                }
            },
            PortState::Operational { id } => self.operational(id, message),
            PortState::Banned { id } => self.drop_message(SerialError::Banned),
        }
    }

    /// Takes a message that arrived at `now` and draws the random values
    /// that the step may use.
    pub fn handle_message(&mut self, now: u64, message: &[u8]) -> (effects: Effects)
        ensures
            exists|fresh: Entropy|
                is_version4(fresh.id.value) && (Outcome {
                    machine: *final(self),
                    effects: effects@,
                }) == #[trigger] after_message(*old(self), now, message@, fresh),
    {
        let fresh = Entropy::fresh();
        self.on_message(now, message, &fresh)
    }

    /// Takes note that the clock has reached `now`.
    pub fn on_tick(&mut self, now: u64) -> (effects: Effects)
        ensures
            (Outcome { machine: *final(self), effects: effects@ }) == after_tick(*old(self), now),
    {
        match self.state {
            PortState::Provisioning { assigned, capabilities, deadline } => {
                if now > deadline {
                    self.ban_device(assigned, capabilities, now, SerialError::Timeout)
                } else {
                    Effects::none()
                }
            },
            PortState::HashCheck { assigned, capabilities, deadline } => {
                if now > deadline {
                    self.ban_device(assigned, capabilities, now, SerialError::Timeout)
                } else {
                    Effects::none()
                }
            },
            PortState::EncryptionProbe { assigned, capabilities, deadline } => {
                if now > deadline {
                    self.ban_device(assigned, capabilities, now, SerialError::Timeout)
                } else {
                    Effects::none()
                }
            },
            _ => Effects::none(),
        }
    }

    /// Takes note that the last reply was written in full at `now`.
    pub fn on_sent(&mut self, now: u64) -> (effects: Effects)
        ensures
            (Outcome { machine: *final(self), effects: effects@ }) == after_sent(*old(self), now),
    {
        match self.state {
            PortState::HashCheck { assigned, capabilities, deadline } => {
                if now > deadline {
                    self.ban_device(assigned, capabilities, now, SerialError::Timeout)
                } else {
                    self.state =
                    PortState::EncryptionProbe {
                        assigned,
                        capabilities,
                        deadline: arm_deadline(now, self.timing.probe),
                    };
                    Effects {
                        reply: None,
                        persist: Some(
                            DeviceRecord {
                                id: assigned,
                                capabilities,
                                active: false,
                                state: RecordState::EncryptionProbe,
                                last_seen: now,
                            },
                        ),
                        forget: None,
                        reading: None,
                        dropped: None,
                    }
                }
            },
            _ => self.on_tick(now),
        }
    }

    /// Takes note that the port task was cancelled.
    pub fn on_cancel(&mut self) -> (effects: Effects)
        ensures
            (Outcome { machine: *final(self), effects: effects@ }) == after_cancel(*old(self)),
    {
        let id = match self.state {
            PortState::Provisioning { assigned, .. } => assigned,
            PortState::HashCheck { assigned, .. } => assigned,
            PortState::EncryptionProbe { assigned, .. } => assigned,
            _ => {
                return Effects::none();
            },
        };
        self.state = PortState::Listening;
        Effects { reply: None, persist: None, forget: Some(id), reading: None, dropped: None }
    }
}

} // verus!
