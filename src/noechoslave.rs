//! Echo suppression: a slave backend reports back what it was just given as
//! if it had been read from the bus. Each update arms suppression for its
//! identifier; the next frame read with that identifier comes out with an empty
//! payload, and disarms it, so that later frames pass through.
use vstd::prelude::*;
use std::collections::HashSet;
use crate::frame::{Frame, FrameModel, opt_view};
use crate::masterslave::{BackendError, FrameReader, Slave};

verus! {

broadcast use vstd::std_specs::hash::group_hash_axioms;

/// A frame as it leaves the wrapper: its payload emptied where its identifier
/// is among those updated.
pub open spec fn blank_echo(f: FrameModel, updated: Set<u32>) -> FrameModel {
    if updated.contains(f.id) {
        FrameModel { id: f.id, msg: Seq::empty() }
    } else {
        f
    }
}

/// The armed identifiers after a frame with identifier `id` has been read:
/// an armed one is disarmed.
pub open spec fn disarm(updated: Set<u32>, id: u32) -> Set<u32> {
    if updated.contains(id) {
        updated.remove(id)
    } else {
        updated
    }
}

/// The armed identifiers after a read that returned `r`.
pub open spec fn after_read(updated: Set<u32>, r: Option<FrameModel>) -> Set<u32> {
    match r {
        Some(f) => disarm(updated, f.id),
        None => updated,
    }
}

/// A slave backend that blanks the echoes of its own updates.
pub struct NoEchoSlave<S: Slave> {
    target: S,
    updated_frames: HashSet<u32>,
}

impl<S: Slave> NoEchoSlave<S> {
    /// The identifiers armed by an update and not yet read back.
    pub closed spec fn updated(&self) -> Set<u32> {
        self.updated_frames@
    }

    /// The wrapped backend.
    pub closed spec fn inner(&self) -> S {
        self.target
    }

    /// Wraps a backend; no identifier is suppressed yet.
    pub fn new(target: S) -> (r: Self)
        ensures
            r.updated() == Set::<u32>::empty(),
            r.inner() == target,
    {
        NoEchoSlave { target, updated_frames: HashSet::new() }
    }

    /// The frame as the wrapper hands it on: blanked where its identifier is
    /// armed, which disarms it.
    pub fn filter_echo(&mut self, f: Frame) -> (r: Frame)
        ensures
            r@ == blank_echo(f@, old(self).updated()),
            final(self).updated() == disarm(old(self).updated(), f.id),
            final(self).inner() == old(self).inner(),
    {
        let mut f = f;
        if self.updated_frames.contains(&f.id) {
            f.msg.clear();
            self.updated_frames.remove(&f.id);
        }
        f
    }

    /// Reads from the wrapped backend and blanks an echo. Whatever the backend
    /// returns, a frame whose identifier is armed comes out empty and disarms
    /// it; any other frame comes out as read.
    pub fn try_read(&mut self) -> (r: Option<Frame>)
        ensures
            final(self).updated() == after_read(old(self).updated(), opt_view(r)),
            match r {
                Some(f) => f@ == blank_echo(f@, old(self).updated()),
                None => true,
            },
    {
        match self.target.try_read() {
            Some(f) => Some(self.filter_echo(f)),
            None => None,
        }
    }

    /// Arms suppression for the identifier, then hands the update to the
    /// wrapped backend.
    pub fn update(&mut self, f: &Frame) -> (r: Result<(), BackendError>)
        ensures
            final(self).updated() == old(self).updated().insert(f.id),
    {
        self.updated_frames.insert(f.id);
        self.target.update(f)
    }
}

impl<S: Slave> FrameReader for NoEchoSlave<S> {
    fn name(&self) -> &str {
        self.target.name()
    }

    fn try_read(&mut self) -> Option<Frame> {
        NoEchoSlave::try_read(self)
    }
}

impl<S: Slave> Slave for NoEchoSlave<S> {
    fn update(&mut self, f: &Frame) -> Result<(), BackendError> {
        NoEchoSlave::update(self, f)
    }
}

/// After an update for `x`, the next frame read with identifier `x` comes out
/// empty, and a frame with that identifier read after it comes out as read;
/// another update arms suppression again for the following read. A frame whose
/// identifier is not armed comes out as read and changes nothing.
pub proof fn lemma_echo_suppression(
    updated: Set<u32>,
    x: u32,
    echo: FrameModel,
    fresh: FrameModel,
    other: FrameModel,
)
    requires
        echo.id == x,
        fresh.id == x,
        !updated.contains(other.id),
        other.id != x,
    ensures
        blank_echo(echo, updated.insert(x)) == (FrameModel { id: x, msg: Seq::empty() }),
        blank_echo(fresh, disarm(updated.insert(x), x)) == fresh,
        blank_echo(fresh, disarm(updated.insert(x), x).insert(x)).msg.len() == 0,
        blank_echo(other, updated.insert(x)) == other,
        disarm(updated.insert(x), other.id) == updated.insert(x),
{
}

} // verus!
