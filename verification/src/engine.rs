use vstd::prelude::*;

use crate::moving_average::MAX_FILTER_SIZE;
use crate::moving_average::MovingAverage;
use crate::moving_average::ring_average;
use crate::moving_average::ring_feed;

verus! {

/// A MIDI note change decided by the engine, to be sent over the open output
/// connection.
#[derive(Clone, Copy, Debug, PartialEq, Eq, Structural)]
pub enum MidiEvent {
    NoteOn(u8),
    NoteOff(u8),
}

/// A candidate note is playable iff it lies in the closed-open piano range.
pub open spec fn in_playable_range(c: int) -> bool {
    21 <= c < 108
}

/// Hysteresis: the candidate must differ from the smoothed average by
/// strictly more than two semitones.
pub open spec fn hysteresis_passes(avg: int, c: int) -> bool {
    (if avg >= c {
        avg - c
    } else {
        c - avg
    }) > 2
}

/// A candidate becomes the new sounding note iff it is playable and clears
/// the hysteresis band around the running average of accepted notes.
pub open spec fn accepts(avg: int, c: int) -> bool {
    in_playable_range(c) && hysteresis_passes(avg, c)
}

/// Per-buffer note decision engine: the currently sounding note (0 is the
/// silence sentinel) and the smoothing filter over accepted notes.
pub struct Engine {
    last_note: i32,
    filter: MovingAverage,
}

impl Engine {
    /// The currently sounding note; 0 means silence.
    pub closed spec fn last_note_spec(&self) -> int {
        self.last_note as int
    }

    /// The slots of the smoothing filter.
    pub closed spec fn filter_values(&self) -> Seq<int> {
        self.filter.values()
    }

    /// The write cursor of the smoothing filter.
    pub closed spec fn filter_cursor(&self) -> int {
        self.filter.cursor()
    }

    /// Well-formedness: the filter is well-formed and the sounding note is
    /// either the silence sentinel or a playable note.
    pub closed spec fn wf(&self) -> bool {
        &&& self.filter.wf()
        &&& (self.last_note == 0 || in_playable_range(self.last_note as int))
    }

    /// A silent engine with an all-zero smoothing filter of `filter_size`
    /// slots.
    pub fn new(filter_size: usize) -> (r: Self)
        requires
            1 <= filter_size <= MAX_FILTER_SIZE,
        ensures
            r.wf(),
            r.last_note_spec() == 0,
            r.filter_values() == Seq::new(filter_size as nat, |i: int| 0int),
            r.filter_cursor() == 0,
    {
        Engine { last_note: 0, filter: MovingAverage::new(filter_size) }
    }

    /// The currently sounding note; 0 means silence.
    pub fn last_note(&self) -> (r: i32)
        ensures
            r as int == self.last_note_spec(),
    {
        self.last_note
    }

    /// The running mean of the smoothing filter.
    pub fn average(&self) -> (r: i32)
        requires
            self.wf(),
        ensures
            r as int == ring_average(self.filter_values()),
            0 <= r <= 127,
    {
        self.filter.average()
    }

    /// The number of slots of the smoothing filter.
    pub fn filter_size(&self) -> (n: usize)
        ensures
            n == self.filter_values().len(),
    {
        self.filter.len()
    }

    /// Decide on one buffer's pitch estimate, given as the candidate note
    /// already quantized from the estimated frequency, or `None` when the
    /// buffer had no determinable pitch.
    ///
    /// No pitch: a note-off for the sounding note is always issued (even for
    /// the sentinel 0 when already silent), the engine falls silent, and 0 is
    /// fed to the filter. A candidate: it is accepted iff it is playable and
    /// clears the hysteresis band around the filter average, in which case a
    /// note-off for the previous note and a note-on for the candidate are
    /// issued and the candidate is fed to the filter; otherwise nothing is
    /// emitted and nothing changes.
    pub fn step(&mut self, candidate: Option<i32>) -> (events: Vec<MidiEvent>)
        requires
            old(self).wf(),
        ensures
            final(self).wf(),
            ({
                let avg = ring_average(old(self).filter_values());
                match candidate {
                    None => {
                        &&& events@ == seq![MidiEvent::NoteOff(old(self).last_note_spec() as u8)]
                        &&& final(self).last_note_spec() == 0
                        &&& final(self).filter_values() == ring_feed(
                            old(self).filter_values(),
                            old(self).filter_cursor(),
                            0,
                        ).0
                        &&& final(self).filter_cursor() == ring_feed(
                            old(self).filter_values(),
                            old(self).filter_cursor(),
                            0,
                        ).1
                    },
                    Some(c) => {
                        if accepts(avg, c as int) {
                            &&& events@ == seq![
                                MidiEvent::NoteOff(old(self).last_note_spec() as u8),
                                MidiEvent::NoteOn(c as u8),
                            ]
                            &&& final(self).last_note_spec() == c as int
                            &&& final(self).filter_values() == ring_feed(
                                old(self).filter_values(),
                                old(self).filter_cursor(),
                                c as int,
                            ).0
                            &&& final(self).filter_cursor() == ring_feed(
                                old(self).filter_values(),
                                old(self).filter_cursor(),
                                c as int,
                            ).1
                        } else {
                            &&& events@ == Seq::<MidiEvent>::empty()
                            &&& *final(self) == *old(self)
                        }
                    },
                }
            }),
    {
        let mut events: Vec<MidiEvent> = Vec::new();
        match candidate {
            None => {
                events.push(MidiEvent::NoteOff(self.last_note as u8));
                self.last_note = 0;
                self.filter.feed(0);
                proof {
                    assert(events@ =~= seq![
                        MidiEvent::NoteOff(old(self).last_note_spec() as u8),
                    ]);
                }
            },
            Some(c) => {
                if 21 <= c && c < 108 {
                    let avg = self.filter.average();
                    let diff = if avg >= c {
                        avg - c
                    } else {
                        c - avg
                    };
                    if diff > 2 {
                        events.push(MidiEvent::NoteOff(self.last_note as u8));
                        self.last_note = c;
                        events.push(MidiEvent::NoteOn(c as u8));
                        self.filter.feed(c);
                        proof {
                            assert(events@ =~= seq![
                                MidiEvent::NoteOff(old(self).last_note_spec() as u8),
                                MidiEvent::NoteOn(c as u8),
                            ]);
                        }
                    }
                }
            },
        }
        events
    }
}

} // verus!
