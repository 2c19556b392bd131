use rusty_thermostat::device::DeviceId;
use rusty_thermostat::error::SerialError;
use rusty_thermostat::handshake::Event;
use rusty_thermostat::machine::{
    arm_deadline, bumped, counted, echo_line, expected_hash, Counters, Deadlines, DeviceRecord,
    Effects, Entropy, PortMachine, PortState, RecordState,
};
use rusty_thermostat::message::{open, seal};
use rusty_thermostat::reading::{Capabilities, SerialReading};

const SAMPLE: u128 = 0x0f3832c6201547c9a296962fd94b3e38;
const REQUEST: &[u8] = b"00000000000000000000000000000000#TRUE#TRUE#TRUE#FALSE#FALSE\n";
const ECHO: &[u8] = b"0f3832c6201547c9a296962fd94b3e38#TRUE#TRUE#TRUE#FALSE#FALSE\n";
const HASH: &[u8] = b"23126bb7af6b98b07f0388c7b0a4008a490f2fc4f60fe9ae46288aebaca65858\n";
const IV: [u8; 16] = [9; 16];

fn sample() -> DeviceId {
    DeviceId::from_u128(SAMPLE)
}

fn caps() -> Capabilities {
    Capabilities { humidity: true, temp_c: true, temp_f: true, presence: false, threshold_open: false }
}

fn fresh() -> Entropy {
    Entropy { id: sample(), iv: IV }
}

fn frame_of(id: DeviceId, text: &[u8]) -> Vec<u8> {
    seal(&id.key(), &[3u8; 16], text).unwrap()
}

fn provisioning() -> PortMachine {
    let mut m = PortMachine::new(Deadlines::recommended());
    m.on_message(100, REQUEST, &fresh());
    m
}

fn hash_check() -> PortMachine {
    let mut m = provisioning();
    m.on_message(200, HASH, &fresh());
    m
}

fn probing() -> PortMachine {
    let mut m = hash_check();
    m.on_sent(300);
    m
}

fn operational() -> PortMachine {
    let mut m = probing();
    m.on_message(400, &frame_of(sample(), ECHO), &fresh());
    m
}

fn record(state: RecordState, now: u64) -> DeviceRecord {
    DeviceRecord {
        id: sample(),
        capabilities: caps(),
        active: state == RecordState::Operational,
        state,
        last_seen: now,
    }
}

#[test]
fn a_new_machine_listens() {
    let m = PortMachine::new(Deadlines::recommended());
    assert_eq!(m.state, PortState::Listening);
    assert_eq!(m.counters, Counters::zero());
    assert_eq!(m.timing, Deadlines { provisioning: 5000, hash_check: 5000, probe: 5000 });
    assert!(!m.expects_frames());
    assert_eq!(m.deadline(), None);
}

#[test]
fn request_is_echoed_with_an_identifier() {
    let mut m = PortMachine::new(Deadlines::recommended());
    let effects = m.on_message(100, REQUEST, &fresh());
    assert_eq!(
        m.state,
        PortState::Provisioning { assigned: sample(), capabilities: caps(), deadline: 5100 }
    );
    assert_eq!(effects.reply, Some(ECHO.to_vec()));
    assert_eq!(effects.persist, Some(record(RecordState::Provisioning, 100)));
    assert_eq!(effects.reading, None);
    assert_eq!(effects.dropped, None);
    assert_eq!(m.counters.received, 1);
    assert!(!m.expects_frames());
    assert_eq!(m.deadline(), Some(5100));
}

#[test]
fn request_gets_a_drawn_identifier() {
    let mut m = PortMachine::new(Deadlines::recommended());
    let effects = m.handle_message(100, REQUEST);
    match m.state {
        PortState::Provisioning { assigned, capabilities, deadline } => {
            assert!(!assigned.is_nil());
            assert_eq!(capabilities, caps());
            assert_eq!(deadline, 5100);
            let mut expected = assigned.to_simple().to_vec();
            expected.extend_from_slice(b"#TRUE#TRUE#TRUE#FALSE#FALSE\n");
            assert_eq!(effects.reply, Some(expected));
        }
        other => panic!("{:?}", other),
    }
}

#[test]
fn good_hash_leads_to_the_first_frame() {
    let mut m = provisioning();
    let effects = m.on_message(200, HASH, &fresh());
    assert_eq!(
        m.state,
        PortState::HashCheck { assigned: sample(), capabilities: caps(), deadline: 5200 }
    );
    assert!(m.expects_frames());
    let frame = effects.reply.clone().unwrap();
    assert_eq!(frame[..16], IV);
    assert_eq!(open(&sample().key(), &frame), Ok(String::from_utf8(ECHO.to_vec()).unwrap()));
    assert_eq!(effects.persist, Some(record(RecordState::HashCheck, 200)));
    let effects = m.on_sent(300);
    assert_eq!(
        m.state,
        PortState::EncryptionProbe { assigned: sample(), capabilities: caps(), deadline: 5300 }
    );
    assert_eq!(effects.reply, None);
    assert_eq!(effects.persist, Some(record(RecordState::EncryptionProbe, 300)));
}

#[test]
fn bad_hash_bans() {
    let mut m = provisioning();
    let zeros = [b'0'; 64];
    let mut line = zeros.to_vec();
    line.push(b'\n');
    let effects = m.on_message(200, &line, &fresh());
    assert_eq!(m.state, PortState::Banned { id: sample() });
    assert_eq!(effects.reply, None);
    assert_eq!(effects.persist, Some(record(RecordState::Banned, 200)));
    assert_eq!(effects.dropped, Some(SerialError::Protocol));
    assert_eq!(m.counters.enrollments_failed, 1);
    assert_eq!(m.counters.dropped_protocol, 1);
}

#[test]
fn expected_hash_matches_the_protocol_notes() {
    assert_eq!(expected_hash(sample()), HASH[..64].to_vec());
    assert_eq!(echo_line(sample(), caps()), ECHO.to_vec());
}

#[test]
fn probe_echo_completes_the_enrollment() {
    let mut m = probing();
    let effects = m.on_message(400, &frame_of(sample(), ECHO), &fresh());
    assert_eq!(m.state, PortState::Operational { id: sample() });
    assert_eq!(effects.persist, Some(record(RecordState::Operational, 400)));
    assert!(effects.persist.unwrap().active);
    assert_eq!(effects.reply, None);
    assert_eq!(effects.dropped, None);
    assert_eq!(m.counters.enrollments_completed, 1);
    assert_eq!(m.counters.verified, 1);
    assert_eq!(m.counters.received, 3);
    assert_eq!(m.deadline(), None);
}

#[test]
fn probe_echo_without_line_feed_is_accepted() {
    let mut m = probing();
    m.on_message(400, &frame_of(sample(), &ECHO[..ECHO.len() - 1]), &fresh());
    assert_eq!(m.state, PortState::Operational { id: sample() });
}

#[test]
fn probe_with_other_capabilities_bans() {
    let mut m = probing();
    let effects = m.on_message(
        400,
        &frame_of(sample(), b"0f3832c6201547c9a296962fd94b3e38#TRUE#TRUE#TRUE#FALSE#TRUE\n"),
        &fresh(),
    );
    assert_eq!(m.state, PortState::Banned { id: sample() });
    assert_eq!(effects.dropped, Some(SerialError::Protocol));
    assert_eq!(effects.persist, Some(record(RecordState::Banned, 400)));
    assert!(!effects.persist.unwrap().active);
}

#[test]
fn probe_with_wrong_tag_bans() {
    let mut m = probing();
    let mut frame = frame_of(sample(), ECHO);
    let last = frame.len() - 1;
    frame[last] ^= 1;
    let effects = m.on_message(400, &frame, &fresh());
    assert_eq!(m.state, PortState::Banned { id: sample() });
    assert_eq!(effects.dropped, Some(SerialError::Auth));
    assert_eq!(m.counters.dropped_auth, 1);
    assert_eq!(m.counters.enrollments_failed, 1);
}

#[test]
fn probe_that_is_no_frame_bans() {
    let mut m = probing();
    let effects = m.on_message(400, b"hello\n", &fresh());
    assert_eq!(m.state, PortState::Banned { id: sample() });
    assert_eq!(effects.dropped, Some(SerialError::Framing));
}

#[test]
fn each_step_times_out() {
    let mut m = provisioning();
    assert_eq!(m.on_tick(5100), Effects::none());
    assert!(matches!(m.state, PortState::Provisioning { .. }));
    let effects = m.on_tick(5101);
    assert_eq!(m.state, PortState::Banned { id: sample() });
    assert_eq!(effects.dropped, Some(SerialError::Timeout));
    assert_eq!(effects.persist, Some(record(RecordState::Banned, 5101)));
    assert_eq!(m.counters.dropped_timeout, 1);
    assert_eq!(m.counters.enrollments_failed, 1);

    let mut m = provisioning();
    let effects = m.on_message(5101, HASH, &fresh());
    assert_eq!(m.state, PortState::Banned { id: sample() });
    assert_eq!(effects.dropped, Some(SerialError::Timeout));

    let mut m = hash_check();
    assert_eq!(m.on_sent(5201).dropped, Some(SerialError::Timeout));
    assert_eq!(m.state, PortState::Banned { id: sample() });

    let mut m = probing();
    assert_eq!(m.on_message(5300, b"", &fresh()).dropped, Some(SerialError::Framing));
    let mut m = probing();
    assert_eq!(
        m.on_message(5301, &frame_of(sample(), ECHO), &fresh()).dropped,
        Some(SerialError::Timeout)
    );
    assert_eq!(m.state, PortState::Banned { id: sample() });
}

#[test]
fn enrollment_ends_within_the_sum_of_the_deadlines() {
    let mut m = PortMachine::new(Deadlines { provisioning: 10, hash_check: 20, probe: 30 });
    m.on_message(1000, REQUEST, &fresh());
    m.on_message(1010, HASH, &fresh());
    m.on_sent(1030);
    m.on_message(1060, &frame_of(sample(), ECHO), &fresh());
    assert_eq!(m.state, PortState::Operational { id: sample() });
}

#[test]
fn second_request_is_ignored_while_one_is_in_flight() {
    for mut m in [provisioning(), hash_check(), probing()] {
        let before = m;
        let other = Entropy { id: DeviceId::from_u128(SAMPLE + 1), iv: IV };
        let effects = m.on_message(450, REQUEST, &other);
        assert_eq!(effects, Effects::none());
        assert_eq!(m.state, before.state);
        assert_eq!(m.counters.received, before.counters.received + 1);
    }
}

#[test]
fn request_to_an_enrolled_port_changes_nothing() {
    let mut m = operational();
    let before = m.state;
    let effects = m.on_message(500, REQUEST, &fresh());
    assert_eq!(m.state, before);
    assert_eq!(effects.reply, None);
    assert_eq!(effects.persist, None);
    assert_eq!(effects.reading, None);
    assert_eq!(effects.dropped, Some(SerialError::Framing));
}

#[test]
fn unexpected_message_during_hash_check_bans() {
    let mut m = hash_check();
    let effects = m.on_message(250, &frame_of(sample(), ECHO), &fresh());
    assert_eq!(m.state, PortState::Banned { id: sample() });
    assert_eq!(effects.dropped, Some(SerialError::Protocol));
}

#[test]
fn listening_drops_what_is_no_request() {
    let mut m = PortMachine::new(Deadlines::recommended());
    assert_eq!(m.on_message(1, b"hello\n", &fresh()).dropped, Some(SerialError::Shape));
    assert_eq!(
        m.on_message(2, b"0f3832c6201547c9a296962fd94b3e38#TRUE#TRUE#TRUE#FALSE#FALSE\n", &fresh())
            .dropped,
        Some(SerialError::Protocol)
    );
    assert_eq!(
        m.on_message(3, b"00000000000000000000000000000000#TRUE#TRUE#TRUE#FALSE#x\n", &fresh())
            .dropped,
        Some(SerialError::Field)
    );
    assert_eq!(m.state, PortState::Listening);
    assert_eq!(m.counters.received, 3);
    assert_eq!(m.counters.dropped_shape, 1);
    assert_eq!(m.counters.dropped_protocol, 1);
    assert_eq!(m.counters.dropped_field, 1);
    assert_eq!(m.on_tick(u64::MAX), Effects::none());
    assert_eq!(m.on_sent(5), Effects::none());
}

#[test]
fn good_reading_is_passed_on() {
    let mut m = PortMachine::enrolled(sample(), Deadlines::recommended());
    let frame = frame_of(sample(), b"0f3832c6201547c9a296962fd94b3e38#A#A#A#FALSE#A\n");
    let effects = m.on_message(10, &frame, &fresh());
    let mut expected = SerialReading::new(sample());
    expected.presence = Some(false);
    assert_eq!(effects.reading, Some(expected));
    assert_eq!(effects.dropped, None);
    assert_eq!(effects.reply, None);
    assert_eq!(effects.persist, None);
    assert_eq!(m.state, PortState::Operational { id: sample() });
    assert_eq!(m.counters.received, 1);
    assert_eq!(m.counters.verified, 1);
}

#[test]
fn wrong_tag_is_dropped_and_counted() {
    let mut m = PortMachine::enrolled(sample(), Deadlines::recommended());
    let mut frame = frame_of(sample(), b"0f3832c6201547c9a296962fd94b3e38#A#A#A#FALSE#A\n");
    let last = frame.len() - 1;
    frame[last] ^= 1;
    let effects = m.on_message(10, &frame, &fresh());
    assert_eq!(effects.reading, None);
    assert_eq!(effects.dropped, Some(SerialError::Auth));
    assert_eq!(m.counters.dropped_auth, 1);
    assert_eq!(m.counters.verified, 0);
    assert_eq!(m.state, PortState::Operational { id: sample() });
}

#[test]
fn wrong_sender_is_dropped() {
    let mut m = PortMachine::enrolled(sample(), Deadlines::recommended());
    let frame = frame_of(sample(), b"00000000000000000000000000000abc#A#A#A#FALSE#A\n");
    let effects = m.on_message(10, &frame, &fresh());
    assert_eq!(effects.reading, None);
    assert_eq!(effects.persist, None);
    assert_eq!(effects.reply, None);
    assert_eq!(effects.dropped, Some(SerialError::Protocol));
    assert_eq!(m.state, PortState::Operational { id: sample() });
    assert_eq!(m.counters.dropped_protocol, 1);

    let under_other_key =
        frame_of(DeviceId::from_u128(0xabc), b"00000000000000000000000000000abc#A#A#A#FALSE#A\n");
    assert_eq!(m.on_message(11, &under_other_key, &fresh()).dropped, Some(SerialError::Auth));
    assert_eq!(m.state, PortState::Operational { id: sample() });
}

#[test]
fn operational_drops_by_reason() {
    let mut m = PortMachine::enrolled(sample(), Deadlines::recommended());
    assert_eq!(m.on_message(1, &[0u8; 10], &fresh()).dropped, Some(SerialError::Framing));
    assert_eq!(m.on_message(2, &[0u8; 70], &fresh()).dropped, Some(SerialError::Framing));
    assert_eq!(
        m.on_message(3, &frame_of(sample(), &[0xff, 0xff]), &fresh()).dropped,
        Some(SerialError::Decrypt)
    );
    assert_eq!(
        m.on_message(4, &frame_of(sample(), b"0f3832c6201547c9a296962fd94b3e38#1"), &fresh())
            .dropped,
        Some(SerialError::Shape)
    );
    assert_eq!(
        m.on_message(
            5,
            &frame_of(sample(), b"0f3832c6201547c9a296962fd94b3e38#1#2#3#4#5"),
            &fresh()
        )
        .dropped,
        Some(SerialError::Field)
    );
    assert_eq!(m.counters.received, 5);
    assert_eq!(m.counters.verified, 3);
    assert_eq!(m.counters.dropped_framing, 2);
    assert_eq!(m.counters.dropped_decrypt, 1);
    assert_eq!(m.counters.dropped_shape, 1);
    assert_eq!(m.counters.dropped_field, 1);
    assert_eq!(m.state, PortState::Operational { id: sample() });
    assert_eq!(m.on_tick(u64::MAX), Effects::none());
}

#[test]
fn ban_is_sticky() {
    let mut m = provisioning();
    m.on_tick(6000);
    assert_eq!(m.state, PortState::Banned { id: sample() });
    let frames: Vec<Vec<u8>> = vec![
        REQUEST.to_vec(),
        HASH.to_vec(),
        frame_of(sample(), ECHO),
        frame_of(sample(), b"0f3832c6201547c9a296962fd94b3e38#A#A#A#FALSE#A\n"),
        Vec::new(),
    ];
    let mut now = 6001;
    for frame in frames {
        let effects = m.on_message(now, &frame, &fresh());
        assert_eq!(effects, Effects::drop_of(SerialError::Banned));
        assert_eq!(m.state, PortState::Banned { id: sample() });
        now += 1;
    }
    assert_eq!(m.on_sent(now), Effects::none());
    assert_eq!(m.on_tick(now), Effects::none());
    assert_eq!(m.on_cancel(), Effects::none());
    assert_eq!(m.state, PortState::Banned { id: sample() });
    assert_eq!(m.counters.dropped_banned, 5);
}

#[test]
fn cancel_abandons_an_enrollment_in_flight() {
    for mut m in [provisioning(), hash_check(), probing()] {
        let effects = m.on_cancel();
        assert_eq!(m.state, PortState::Listening);
        assert_eq!(effects.forget, Some(sample()));
        assert_eq!(effects.persist, None);
        assert_eq!(effects.reply, None);
    }
    let mut m = operational();
    assert_eq!(m.on_cancel(), Effects::none());
    assert_eq!(m.state, PortState::Operational { id: sample() });
    let mut m = PortMachine::new(Deadlines::recommended());
    assert_eq!(m.on_cancel(), Effects::none());
}

#[test]
fn step_dispatches_on_the_event() {
    let mut m = PortMachine::new(Deadlines::recommended());
    m.step(100, &Event::Message(REQUEST.to_vec()), &fresh());
    m.step(200, &Event::Message(HASH.to_vec()), &fresh());
    m.step(250, &Event::Tick, &fresh());
    m.step(300, &Event::Sent, &fresh());
    let mut same = probing();
    same.counters = m.counters;
    assert_eq!(m, same);
    m.step(350, &Event::Cancel, &fresh());
    assert_eq!(m.state, PortState::Listening);
}

#[test]
fn deadlines_and_counters_saturate() {
    assert_eq!(arm_deadline(10, 5), 15);
    assert_eq!(arm_deadline(u64::MAX - 1, 1), u64::MAX);
    assert_eq!(arm_deadline(u64::MAX - 1, 2), u64::MAX);
    assert_eq!(arm_deadline(u64::MAX, u64::MAX), u64::MAX);
    assert_eq!(bumped(0), 1);
    assert_eq!(bumped(u64::MAX - 1), u64::MAX);
    assert_eq!(bumped(u64::MAX), u64::MAX);
    let c = counted(Counters::zero(), SerialError::Auth);
    assert_eq!(c.dropped_auth, 1);
    assert_eq!(counted(c, SerialError::Io), c);
    assert_eq!(counted(c, SerialError::Banned).dropped_banned, 1);
}

#[test]
fn record_key_is_the_text_of_its_identifier() {
    assert_eq!(record(RecordState::Operational, 0).key(), *b"0f3832c6201547c9a296962fd94b3e38");
}

#[test]
fn a_frame_that_opens_is_taken_as_the_reply_whatever_it_begins_with() {
    let id = DeviceId::from_u128(48015);
    let mut message = vec![b'0'; 32];
    message.extend_from_slice(&[b'#', 0, 0, 0, 0, 0, 0, 0, 0, 0, 0, 0, 0, 0x01, 0xc4, 0x11]);
    message.extend_from_slice(&[
        15, 190, 212, 0, 161, 27, 141, 78, 193, 37, 117, 26, 47, 83, 233, 142, 33, 40, 160, 175,
        150, 54, 230, 110, 130, 7, 26, 205, 37, 40, 144, 246,
    ]);
    assert_eq!(message.len(), 80);
    assert!(open(&id.key(), &message).is_ok());
    let mut m = PortMachine::new(Deadlines::recommended());
    m.state = PortState::EncryptionProbe { assigned: id, capabilities: caps(), deadline: 1000 };
    let effects = m.on_message(10, &message, &fresh());
    assert_eq!(m.state, PortState::Banned { id });
    assert_eq!(effects.dropped, Some(SerialError::Protocol));
    let mut tampered = message.clone();
    tampered[79] ^= 1;
    m.state = PortState::EncryptionProbe { assigned: id, capabilities: caps(), deadline: 1000 };
    assert_eq!(m.on_message(11, &tampered, &fresh()), Effects::none());
    assert!(matches!(m.state, PortState::EncryptionProbe { .. }));
}
