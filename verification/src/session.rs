//! A joined room: the right to stream one image.

use vstd::prelude::*;
use crate::emitter::{transmission, transmit, Action, Emitter, Pacing};
use crate::handshake::{Handshake, HandshakeState};
use crate::raster::Raster;
use crate::room::RoomId;
use crate::sampler::Sampler;

verus! {

/// The handle of an open, joined connection. It comes only from a handshake
/// that ended in `Joined`, and is used up by the one transmission it allows.
#[derive(Debug)]
pub struct Session {
    room: RoomId,
}

impl Session {
    /// The room that was joined.
    pub closed spec fn spec_room(&self) -> RoomId {
        self.room
    }

    /// The session of a finished handshake: there is one exactly when the
    /// handshake ended in `Joined`.
    pub fn open(handshake: &Handshake) -> (s: Option<Session>)
        ensures
            s is Some <==> handshake.spec_state() == HandshakeState::Joined,
            s is Some ==> s->0.spec_room() == handshake.spec_room(),
    {
        if handshake.may_stream() {
            Some(Session { room: handshake.room() })
        } else {
            None
        }
    }

    /// The room that was joined.
    pub fn room(&self) -> (room: RoomId)
        ensures
            room == self.spec_room(),
    {
        self.room
    }

    /// The emitter of this session's transmission, with nothing sent yet, for a
    /// caller that sends sample by sample. The session ends with it.
    pub fn into_emitter(self, pacing: Pacing) -> (e: Emitter)
        ensures
            e.spec_pacing() == pacing,
            e.spec_sent() == 0,
    {
        Emitter::new(pacing)
    }

    /// The transmission of an image over this session: the actions to carry
    /// out, in order. The session ends with it.
    pub fn stream(self, sampler: &Sampler, img: &Raster, pacing: Pacing) -> (actions: Vec<Action>)
        ensures
            actions@ == transmission(
                sampler.spec_grid(img),
                pacing.spec_batch(),
                pacing.spec_pause_millis(),
            ),
    {
        transmit(sampler, img, pacing)
    }
}

} // verus!
