use vstd::prelude::*;

verus! {

/// A request from the negotiation worker to the device-picker UI: present
/// this list, return a choice. Hosts and MIDI ports are presented by display
/// name and chosen by index into the presented list; microphones are chosen
/// by display name.
#[derive(Clone, Debug, PartialEq, Eq)]
pub enum Request {
    GetHost(Vec<String>),
    GetMic(Vec<String>),
    GetMidiPort(Vec<String>),
}

/// The UI's answer to one request: the chosen audio host (by index), the
/// chosen microphone (by display name), or the chosen MIDI output port (by
/// index).
#[derive(Clone, Debug, PartialEq, Eq)]
pub enum Response {
    HostId(usize),
    MicName(String),
    MidiOutputPort(usize),
}

/// The three strictly ordered steps of endpoint negotiation, then the
/// terminal state.
#[derive(Clone, Copy, Debug, PartialEq, Eq, Structural)]
pub enum NegotiationState {
    SelectHost,
    SelectMic,
    SelectMidiPort,
    Done,
}

/// A response whose variant does not match the selection the machine is
/// waiting for.
#[derive(Clone, Copy, Debug, PartialEq, Eq, Structural)]
pub enum NegotiationError {
    UnexpectedResponse,
}

/// The one-time endpoint negotiation: select audio host, then microphone,
/// then MIDI destination, in that fixed order. Each selection is recorded
/// once and never changed.
#[derive(Clone, Debug, PartialEq, Eq)]
pub struct Negotiation {
    pub state: NegotiationState,
    pub host: Option<usize>,
    pub mic: Option<String>,
    pub midi_port: Option<usize>,
}

/// The machine before any exchange: waiting for the host selection, nothing
/// chosen.
pub open spec fn spec_init() -> Negotiation {
    Negotiation {
        state: NegotiationState::SelectHost,
        host: None,
        mic: None,
        midi_port: None,
    }
}

/// One exchange: a response whose variant matches the awaited selection
/// records the choice and advances to the next state (second component
/// `true`); any other response is rejected and changes nothing.
pub open spec fn spec_step(n: Negotiation, r: Response) -> (Negotiation, bool) {
    match (n.state, r) {
        (NegotiationState::SelectHost, Response::HostId(i)) => (
            Negotiation { state: NegotiationState::SelectMic, host: Some(i), ..n },
            true,
        ),
        (NegotiationState::SelectMic, Response::MicName(name)) => (
            Negotiation { state: NegotiationState::SelectMidiPort, mic: Some(name), ..n },
            true,
        ),
        (NegotiationState::SelectMidiPort, Response::MidiOutputPort(p)) => (
            Negotiation { state: NegotiationState::Done, midi_port: Some(p), ..n },
            true,
        ),
        _ => (n, false),
    }
}

impl Negotiation {
    /// A fresh machine, waiting for the host selection.
    pub fn new() -> (r: Self)
        ensures
            r == spec_init(),
    {
        Negotiation {
            state: NegotiationState::SelectHost,
            host: None,
            mic: None,
            midi_port: None,
        }
    }

    /// The request the worker sends in the current state, presenting
    /// `items`: exactly one request per state, none once the machine is
    /// terminal.
    pub fn request_for(&self, items: Vec<String>) -> (r: Option<Request>)
        ensures
            r == (match self.state {
                NegotiationState::SelectHost => Some(Request::GetHost(items)),
                NegotiationState::SelectMic => Some(Request::GetMic(items)),
                NegotiationState::SelectMidiPort => Some(Request::GetMidiPort(items)),
                NegotiationState::Done => None::<Request>,
            }),
    {
        match self.state {
            NegotiationState::SelectHost => Some(Request::GetHost(items)),
            NegotiationState::SelectMic => Some(Request::GetMic(items)),
            NegotiationState::SelectMidiPort => Some(Request::GetMidiPort(items)),
            NegotiationState::Done => None,
        }
    }

    /// Receive one response: record the selection and advance if its variant
    /// matches the awaited step, reject it unchanged otherwise.
    pub fn respond(&mut self, r: Response) -> (res: Result<(), NegotiationError>)
        ensures
            *final(self) == spec_step(*old(self), r).0,
            (res is Ok) == spec_step(*old(self), r).1,
    {
        match (self.state, r) {
            (NegotiationState::SelectHost, Response::HostId(i)) => {
                self.state = NegotiationState::SelectMic;
                self.host = Some(i);
                Ok(())
            },
            (NegotiationState::SelectMic, Response::MicName(name)) => {
                self.state = NegotiationState::SelectMidiPort;
                self.mic = Some(name);
                Ok(())
            },
            (NegotiationState::SelectMidiPort, Response::MidiOutputPort(p)) => {
                self.state = NegotiationState::Done;
                self.midi_port = Some(p);
                Ok(())
            },
            _ => Err(NegotiationError::UnexpectedResponse),
        }
    }

    /// Whether all three selections have been made.
    pub fn is_done(&self) -> (r: bool)
        ensures
            r == (self.state is Done),
    {
        match self.state {
            NegotiationState::Done => true,
            _ => false,
        }
    }
}

/// Law: from a fresh machine, responses arriving in the order host, mic,
/// MIDI port are each accepted, the machine passes through its three states
/// in that fixed order and is terminal after exactly three exchanges with
/// all three choices recorded, whatever the chosen values are; out-of-order
/// responses at the start are rejected, and a terminal machine accepts
/// nothing further.
pub proof fn lemma_negotiation_three_exchanges(h: usize, mic: String, port: usize)
    ensures
        ({
            let s0 = spec_init();
            let (s1, ok1) = spec_step(s0, Response::HostId(h));
            let (s2, ok2) = spec_step(s1, Response::MicName(mic));
            let (s3, ok3) = spec_step(s2, Response::MidiOutputPort(port));
            &&& ok1 && ok2 && ok3
            &&& s1.state is SelectMic
            &&& s2.state is SelectMidiPort
            &&& s3.state is Done
            &&& s3.host == Some(h)
            &&& s3.mic == Some(mic)
            &&& s3.midi_port == Some(port)
            &&& !spec_step(s0, Response::MicName(mic)).1
            &&& !spec_step(s0, Response::MidiOutputPort(port)).1
            &&& forall|r: Response| !(#[trigger] spec_step(s3, r)).1 && spec_step(s3, r).0 == s3
        }),
{
}

} // verus!
