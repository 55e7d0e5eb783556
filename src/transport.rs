use vstd::prelude::*;

use crate::event::HidEvent;
use crate::event_type::code_of;
use crate::wire::{frames_of, frames_view, join_fields, FRAME_SIZE};

verus! {

/// Failures of the path to the device.
#[derive(Clone, Copy, Debug, PartialEq, Eq, Structural)]
pub enum TransportError {
    /// No candidate device accepted the probe.
    DeviceNotFound,
    /// A frame write failed after `frames_sent` frames of the event had gone
    /// out; the rest of the event was abandoned.
    DeviceWriteFailed { frames_sent: usize },
    /// An event source could not start.
    SourceUnavailable,
}

/// The sending of one event's frames, one report at a time and strictly in
/// order; the first failed write abandons the rest of the event.
pub struct Delivery {
    frames: Vec<Vec<u8>>,
    sent: usize,
    failed: bool,
}

impl Delivery {
    /// The frames to send.
    pub closed spec fn frames(&self) -> Seq<Seq<u8>> {
        frames_view(self.frames@)
    }

    /// How many frames the device has accepted.
    pub closed spec fn sent(&self) -> nat {
        self.sent as nat
    }

    /// Whether a write has failed.
    pub closed spec fn failed(&self) -> bool {
        self.failed
    }

    pub closed spec fn wf(&self) -> bool {
        self.sent <= self.frames@.len()
    }

    /// Whether the delivery still has a frame to write.
    pub open spec fn pending(&self) -> bool {
        !self.failed() && self.sent() < self.frames().len()
    }

    /// Starts delivering `frames`, which must each be one report long.
    pub fn new(frames: Vec<Vec<u8>>) -> (r: Self)
        requires
            forall|i: int| 0 <= i < frames@.len() ==> #[trigger] frames@[i]@.len() == FRAME_SIZE,
        ensures
            r.wf(),
            r.frames() == frames_view(frames@),
            r.sent() == 0,
            !r.failed(),
    {
        Delivery { frames, sent: 0, failed: false }
    }

    /// Starts delivering the frames of `event`.
    pub fn for_event<E: HidEvent>(event: &E) -> (r: Self)
        requires
            join_fields(event.wire_fields(), event.wire_tail()).len() + 3 * FRAME_SIZE
                <= usize::MAX,
        ensures
            r.wf(),
            r.frames() == frames_of(
                code_of(event.wire_type()),
                join_fields(event.wire_fields(), event.wire_tail()),
            ),
            r.sent() == 0,
            !r.failed(),
    {
        let frames = event.chunks();
        Delivery { frames, sent: 0, failed: false }
    }

    /// The frame to write next, if any.
    pub fn next_frame(&self) -> (r: Option<&Vec<u8>>)
        requires
            self.wf(),
        ensures
            r is Some <==> self.pending(),
            r matches Some(f) ==> f@ == self.frames()[self.sent() as int],
    {
        if !self.failed && self.sent < self.frames.len() {
            Some(&self.frames[self.sent])
        } else {
            None
        }
    }

    /// Records the result of writing the frame that `next_frame` gave.
    pub fn record(&mut self, written: bool)
        requires
            old(self).wf(),
            old(self).pending(),
        ensures
            final(self).wf(),
            final(self).frames() == old(self).frames(),
            written ==> final(self).sent() == old(self).sent() + 1 && !final(self).failed(),
            !written ==> final(self).sent() == old(self).sent() && final(self).failed(),
    {
        // `len` bounds the frame count by `usize::MAX`, so `sent + 1` fits.
        let total = self.frames.len();
        assert(self.sent < total);
        if written {
            self.sent = self.sent + 1;
        } else {
            self.failed = true;
        }
    }

    /// How the delivery ended: `None` while frames remain, `Ok` once all were
    /// written, the failed write otherwise.
    pub fn outcome(&self) -> (r: Option<Result<(), TransportError>>)
        requires
            self.wf(),
        ensures
            self.pending() ==> r is None,
            !self.failed() && self.sent() == self.frames().len() ==> r == Some(
                Ok::<(), TransportError>(()),
            ),
            self.failed() ==> r == Some(
                Err::<(), TransportError>(
                    TransportError::DeviceWriteFailed { frames_sent: self.sent() as usize },
                ),
            ),
    {
        if self.failed {
            Some(Err(TransportError::DeviceWriteFailed { frames_sent: self.sent }))
        } else if self.sent < self.frames.len() {
            None
        } else {
            Some(Ok(()))
        }
    }
}

/// The search for the device: the candidates are probed one at a time, in
/// order, and the first that accepts the probe becomes the device.
pub struct Locator {
    count: usize,
    next: usize,
    chosen: Option<usize>,
}

impl Locator {
    /// How many candidates there are.
    pub closed spec fn count(&self) -> nat {
        self.count as nat
    }

    /// How many candidates have refused the probe.
    pub closed spec fn refused(&self) -> nat {
        self.next as nat
    }

    /// The candidate that accepted the probe, if one has.
    pub closed spec fn chosen(&self) -> Option<usize> {
        self.chosen
    }

    pub closed spec fn wf(&self) -> bool {
        &&& self.next <= self.count
        &&& self.chosen matches Some(i) ==> i == self.next && i < self.count
    }

    /// Whether a candidate remains to be probed.
    pub open spec fn searching(&self) -> bool {
        self.chosen() is None && self.refused() < self.count()
    }

    /// Starts a search among `count` candidates.
    pub fn new(count: usize) -> (r: Self)
        ensures
            r.wf(),
            r.count() == count,
            r.refused() == 0,
            r.chosen() is None,
    {
        Locator { count, next: 0, chosen: None }
    }

    /// The candidate to probe next, if any.
    pub fn next_candidate(&self) -> (r: Option<usize>)
        requires
            self.wf(),
        ensures
            r is Some <==> self.searching(),
            r matches Some(i) ==> i == self.refused(),
    {
        if self.chosen.is_none() && self.next < self.count {
            Some(self.next)
        } else {
            None
        }
    }

    /// Records whether the candidate that `next_candidate` gave accepted the probe.
    pub fn record(&mut self, accepted: bool)
        requires
            old(self).wf(),
            old(self).searching(),
        ensures
            final(self).wf(),
            final(self).count() == old(self).count(),
            accepted ==> final(self).chosen() == Some(old(self).refused() as usize)
                && final(self).refused() == old(self).refused(),
            !accepted ==> final(self).chosen() is None && final(self).refused() == old(self).refused()
                + 1,
    {
        if accepted {
            self.chosen = Some(self.next);
        } else {
            self.next = self.next + 1;
        }
    }

    /// How the search ended: `None` while candidates remain, the chosen
    /// candidate, or `DeviceNotFound` once every candidate refused.
    pub fn outcome(&self) -> (r: Option<Result<usize, TransportError>>)
        requires
            self.wf(),
        ensures
            self.searching() ==> r is None,
            self.chosen() matches Some(i) ==> r == Some(Ok::<usize, TransportError>(i)),
            self.chosen() is None && self.refused() == self.count() ==> r == Some(
                Err::<usize, TransportError>(TransportError::DeviceNotFound),
            ),
    {
        match self.chosen {
            Some(i) => Some(Ok(i)),
            None => if self.next < self.count {
                None
            } else {
                Some(Err(TransportError::DeviceNotFound))
            },
        }
    }
}

} // verus!
