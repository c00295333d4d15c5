//! What travels between a networked game and its server.

use vstd::prelude::*;
use crate::geom::Vector;

verus! {

/// Why a connection could not be had.
#[derive(Clone, Copy, Debug, PartialEq, Eq, Structural)]
pub enum SocketError {
    Create,
}

/// A decoded snapshot, as text.
#[derive(Debug)]
pub struct WireState {
    pub s: String,
}

/// A snapshot as it arrives: the sequence number that the server has seen
/// acknowledged, if any, the packet's own sequence number, and the
/// compressed snapshot or delta.
#[derive(Debug)]
pub struct WireStatePacket {
    pub seq: (Option<u32>, u32),
    pub data: Vec<u8>,
}

/// What the client sends about snapshots.
#[derive(Clone, Copy, Debug, PartialEq, Eq, Structural)]
pub enum WireClientEvent {
    Ack(u32),
}

/// What the client sends about its player's input.
#[derive(Clone, Copy, Debug, PartialEq, Eq, Structural)]
pub enum GameEvents {
    MousePos(Vector),
    MousePressed,
    MouseReleased,
}

} // verus!
