use voice2midi::engine::Engine;
use voice2midi::engine::MidiEvent;
use voice2midi::midi::event_message;
use voice2midi::midi::note_off_message;
use voice2midi::midi::note_on_message;
use voice2midi::moving_average::MovingAverage;
use voice2midi::negotiation::Negotiation;
use voice2midi::negotiation::NegotiationError;
use voice2midi::negotiation::NegotiationState;
use voice2midi::negotiation::Request;
use voice2midi::negotiation::Response;

#[test]
fn fresh_filter_average_is_zero() {
    assert_eq!(MovingAverage::new(1).average(), 0);
    assert_eq!(MovingAverage::new(50).average(), 0);
    let largest = MovingAverage::new(0x0010_0000);
    assert_eq!(largest.len(), 0x0010_0000);
    assert_eq!(largest.average(), 0);
}

#[test]
fn average_is_truncating_mean() {
    let mut filter = MovingAverage::new(50);
    filter.feed(69);
    // 69 / 50 truncates to 1.
    assert_eq!(filter.average(), 1);
    filter.feed(69);
    // 138 / 50 truncates to 2.
    assert_eq!(filter.average(), 2);
}

#[test]
fn average_covers_exactly_last_k_values() {
    let mut filter = MovingAverage::new(3);
    filter.feed(10);
    filter.feed(20);
    filter.feed(30);
    assert_eq!(filter.average(), 20);
    // The fourth feed overwrites the oldest value, 10.
    filter.feed(40);
    assert_eq!(filter.average(), 30);
    // Two more feeds and nothing of the first pass remains.
    filter.feed(50);
    filter.feed(60);
    assert_eq!(filter.average(), 50);
}

#[test]
fn hysteresis_band_is_exclusive() {
    // A one-slot filter makes the running average the last accepted note.
    let mut engine = Engine::new(1);
    let events = engine.step(Some(60));
    assert_eq!(events, vec![MidiEvent::NoteOff(0), MidiEvent::NoteOn(60)]);
    assert_eq!(engine.average(), 60);

    // |60 - 62| = 2 is not strictly greater than 2: no change.
    let events = engine.step(Some(62));
    assert_eq!(events, vec![]);
    assert_eq!(engine.last_note(), 60);

    // |60 - 63| = 3 clears the band: the note changes.
    let events = engine.step(Some(63));
    assert_eq!(events, vec![MidiEvent::NoteOff(60), MidiEvent::NoteOn(63)]);
    assert_eq!(engine.last_note(), 63);
}

#[test]
fn range_gate_rejects_boundary_notes() {
    let mut engine = Engine::new(50);
    assert_eq!(engine.step(Some(20)), vec![]);
    assert_eq!(engine.step(Some(108)), vec![]);
    assert_eq!(engine.last_note(), 0);

    // 21 is playable and the fresh average is 0, so it is accepted.
    let events = engine.step(Some(21));
    assert_eq!(events, vec![MidiEvent::NoteOff(0), MidiEvent::NoteOn(21)]);

    // 107 is playable and far from the barely warmed average.
    let mut engine = Engine::new(50);
    let events = engine.step(Some(107));
    assert_eq!(events, vec![MidiEvent::NoteOff(0), MidiEvent::NoteOn(107)]);
}

#[test]
fn silence_emits_note_off_and_resets() {
    let mut engine = Engine::new(50);
    engine.step(Some(69));
    assert_eq!(engine.last_note(), 69);

    let events = engine.step(None);
    assert_eq!(events, vec![MidiEvent::NoteOff(69)]);
    assert_eq!(engine.last_note(), 0);

    // Already silent: the note-off for the sentinel 0 is still issued.
    let events = engine.step(None);
    assert_eq!(events, vec![MidiEvent::NoteOff(0)]);
    assert_eq!(engine.last_note(), 0);
}

#[test]
fn end_to_end_estimate_sequence() {
    // Candidate notes as quantized from the estimated frequencies:
    // 440 Hz -> 69, no pitch, 493.88 Hz -> 71.
    let mut engine = Engine::new(50);
    assert_eq!(engine.filter_size(), 50);

    let events = engine.step(Some(69));
    assert_eq!(events, vec![MidiEvent::NoteOff(0), MidiEvent::NoteOn(69)]);

    // The filter holds one 69 over 50 slots, so the average is only 1 and
    // the same note is re-accepted: the engine re-triggers 69.
    let events = engine.step(Some(69));
    assert_eq!(events, vec![MidiEvent::NoteOff(69), MidiEvent::NoteOn(69)]);

    let events = engine.step(None);
    assert_eq!(events, vec![MidiEvent::NoteOff(69)]);
    assert_eq!(engine.last_note(), 0);

    // Average is now (69 + 69 + 0) / 50 = 2, far from 71.
    assert_eq!(engine.average(), 2);
    let events = engine.step(Some(71));
    assert_eq!(events, vec![MidiEvent::NoteOff(0), MidiEvent::NoteOn(71)]);
    assert_eq!(engine.last_note(), 71);
}

#[test]
fn note_messages_have_exact_bytes() {
    assert_eq!(note_on_message(69), vec![0x90, 69, 0x64]);
    assert_eq!(note_off_message(69), vec![0x80, 69, 0x64]);
    assert_eq!(event_message(&MidiEvent::NoteOn(21)), vec![0x90, 21, 0x64]);
    assert_eq!(event_message(&MidiEvent::NoteOff(107)), vec![0x80, 107, 0x64]);
}

#[test]
fn negotiation_three_ordered_exchanges() {
    let mut negotiation = Negotiation::new();
    assert_eq!(negotiation.state, NegotiationState::SelectHost);

    let hosts = vec![String::from("Alsa"), String::from("Jack")];
    assert_eq!(
        negotiation.request_for(hosts.clone()),
        Some(Request::GetHost(hosts))
    );
    assert!(negotiation.respond(Response::HostId(1)).is_ok());
    assert_eq!(negotiation.state, NegotiationState::SelectMic);

    let mics = vec![String::from("Built-in")];
    assert_eq!(
        negotiation.request_for(mics.clone()),
        Some(Request::GetMic(mics))
    );
    assert!(negotiation
        .respond(Response::MicName(String::from("Built-in")))
        .is_ok());
    assert_eq!(negotiation.state, NegotiationState::SelectMidiPort);

    let ports = vec![String::from("Synth")];
    assert_eq!(
        negotiation.request_for(ports.clone()),
        Some(Request::GetMidiPort(ports))
    );
    assert!(negotiation.respond(Response::MidiOutputPort(0)).is_ok());

    assert!(negotiation.is_done());
    assert_eq!(negotiation.host, Some(1));
    assert_eq!(negotiation.mic, Some(String::from("Built-in")));
    assert_eq!(negotiation.midi_port, Some(0));
    assert_eq!(negotiation.request_for(vec![]), None);
}

#[test]
fn negotiation_rejects_out_of_order_responses() {
    let mut negotiation = Negotiation::new();
    assert_eq!(
        negotiation.respond(Response::MicName(String::from("Built-in"))),
        Err(NegotiationError::UnexpectedResponse)
    );
    assert_eq!(
        negotiation.respond(Response::MidiOutputPort(0)),
        Err(NegotiationError::UnexpectedResponse)
    );
    // The rejected responses changed nothing.
    assert_eq!(negotiation.state, NegotiationState::SelectHost);
    assert!(negotiation.respond(Response::HostId(0)).is_ok());

    // A terminal machine accepts nothing further.
    assert!(negotiation
        .respond(Response::MicName(String::from("m")))
        .is_ok());
    assert!(negotiation.respond(Response::MidiOutputPort(0)).is_ok());
    assert_eq!(
        negotiation.respond(Response::HostId(0)),
        Err(NegotiationError::UnexpectedResponse)
    );
    assert!(negotiation.is_done());
}
