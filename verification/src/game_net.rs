//! The receiving end of the delta-compressed snapshots of a networked game.

use vstd::prelude::*;
use std::io::Read;
use flate2::bufread::DeflateDecoder;
use crate::game::{Event, GameConfig};
use crate::ws::{GameEvents, WireStatePacket};

verus! {

/// Byte `i` of `s`, or zero past its end.
pub open spec fn byte_at(s: Seq<u8>, i: int) -> u8 {
    if 0 <= i < s.len() {
        s[i]
    } else {
        0
    }
}

/// The snapshot that `delta` makes of `base`: byte by byte their sum modulo
/// 256, the shorter of the two continued with zeros.
pub open spec fn delta_sum(delta: Seq<u8>, base: Seq<u8>) -> Seq<u8> {
    Seq::new(
        if delta.len() >= base.len() {
            delta.len()
        } else {
            base.len()
        },
        |i: int| ((byte_at(base, i) + byte_at(delta, i)) % 256) as u8,
    )
}

/// Applies a delta to the snapshot it was taken against.
pub fn from_delta(delta: &[u8], base: &[u8]) -> (r: Vec<u8>)
    ensures
        r@ == delta_sum(delta@, base@),
{
    let n = if delta.len() >= base.len() {
        delta.len()
    } else {
        base.len()
    };
    let mut r: Vec<u8> = Vec::new();
    let mut i: usize = 0;
    while i < n
        invariant
            i <= n,
            n == delta_sum(delta@, base@).len(),
            r.len() == i,
            forall|m: int| 0 <= m < i ==> #[trigger] r@[m] == delta_sum(delta@, base@)[m],
        decreases n - i,
    {
        let a: u16 = if i < base.len() {
            base[i] as u16
        } else {
            0
        };
        let b: u16 = if i < delta.len() {
            delta[i] as u16
        } else {
            0
        };
        r.push(((a + b) % 256) as u8);
        i += 1;
    }
    assert(r@ =~= delta_sum(delta@, base@));
    r
}

/// What a raw deflate stream decompresses to, or `None` where it is not one.
pub uninterp spec fn inflated(data: Seq<u8>) -> Option<Seq<u8>>;

/// `DeflateDecoder::new` of `flate2` on the bytes, read to the end.
/// Believed of it: what it yields depends on the bytes alone. An error of
/// the decoder becomes `None`.
#[verifier::external_body]
fn inflate(data: &[u8]) -> (r: Option<Vec<u8>>)
    ensures
        r matches Some(v) ==> inflated(data@) == Some(v@),
        r is None ==> inflated(data@) is None,
{
    let mut out = Vec::new();
    match DeflateDecoder::new(data).read_to_end(&mut out) {
        Ok(_) => Some(out),
        Err(_) => None,
    }
}

/// The snapshots against which deltas are read: the base that client and
/// server agree on, and the snapshot whose acknowledgement is under way.
#[derive(Debug)]
pub struct NetState {
    pub delta_base: Option<(u32, Vec<u8>)>,
    pub delta_last: Option<(u32, Option<Vec<u8>>)>,
}

/// What a `NetState` holds, as mathematical values.
pub struct NetView {
    pub delta_base: Option<(u32, Seq<u8>)>,
    pub delta_last: Option<(u32, Option<Seq<u8>>)>,
}

impl View for NetState {
    type V = NetView;

    open spec fn view(&self) -> NetView {
        NetView {
            delta_base: match self.delta_base {
                Some((n, data)) => Some((n, data@)),
                None => None,
            },
            delta_last: match self.delta_last {
                Some((n, Some(data))) => Some((n, Some(data@))),
                Some((n, None)) => Some((n, None)),
                None => None,
            },
        }
    }
}

impl NetView {
    /// The server has seen the acknowledgement `acked` of the snapshot under way.
    pub open spec fn confirms(self, acked: Option<u32>) -> bool {
        match (acked, self.delta_base, self.delta_last) {
            (Some(a), None, Some((last, _))) => a == last,
            (Some(a), Some(_), Some((last, Some(_)))) => a == last,
            _ => false,
        }
    }

    /// The state after a packet that carries the acknowledged number `acked`.
    /// Where that confirms the snapshot under way, the snapshot becomes the
    /// base: as it is while there was no base, applied to the base as a delta
    /// where there was one.
    pub open spec fn acked(self, acked: Option<u32>) -> NetView {
        match (acked, self.delta_base, self.delta_last) {
            (Some(a), None, Some((last, packet))) if a == last => NetView {
                delta_base: match packet {
                    Some(data) => Some((a, data)),
                    None => None,
                },
                delta_last: None,
            },
            (Some(a), Some((_, base)), Some((last, Some(data)))) if a == last => NetView {
                delta_base: Some((a, delta_sum(data, base))),
                delta_last: None,
            },
            _ => self,
        }
    }

    /// The snapshot that the decompressed bytes `data` stand for.
    pub open spec fn snapshot(self, data: Seq<u8>) -> Seq<u8> {
        match self.delta_base {
            Some((_, base)) => delta_sum(data, base),
            None => data,
        }
    }

    /// The state after the packet numbered `seq` with the decompressed bytes
    /// `data`: with no snapshot under way, this one now is.
    pub open spec fn accepted(self, data: Seq<u8>, seq: u32) -> NetView {
        if self.delta_last is None {
            NetView { delta_last: Some((seq, Some(data))), ..self }
        } else {
            self
        }
    }
}

impl NetState {
    pub fn new() -> (s: NetState)
        ensures
            s@ == (NetView { delta_base: None, delta_last: None }),
    {
        NetState { delta_base: None, delta_last: None }
    }

    /// Takes note of the acknowledged number of a packet; returns whether it
    /// made a new base.
    pub fn on_ack(&mut self, acked: Option<u32>) -> (new_base: bool)
        ensures
            new_base == old(self)@.confirms(acked),
            final(self)@ == old(self)@.acked(acked),
    {
        let a = match acked {
            Some(a) => a,
            None => {
                return false;
            },
        };
        let last = match &self.delta_last {
            Some((last, _)) => *last,
            None => {
                return false;
            },
        };
        if a != last {
            return false;
        }
        if self.delta_base.is_none() {
            let taken = self.delta_last.take();
            match taken {
                Some((_, Some(data))) => {
                    self.delta_base = Some((a, data));
                },
                _ => {},
            }
            true
        } else {
            let fresh = match (&self.delta_base, &self.delta_last) {
                (Some((_, base)), Some((_, Some(data)))) => Some(
                    from_delta(data.as_slice(), base.as_slice()),
                ),
                _ => None,
            };
            match fresh {
                Some(data) => {
                    self.delta_base = Some((a, data));
                    self.delta_last = None;
                    true
                },
                None => false,
            }
        }
    }

    /// Takes the decompressed bytes of the packet numbered `seq`: returns the
    /// snapshot they stand for and, where this packet is now the one under
    /// way, its number, which is to be acknowledged.
    pub fn accept(&mut self, data: Vec<u8>, seq: u32) -> (r: (Vec<u8>, Option<u32>))
        ensures
            r.0@ == old(self)@.snapshot(data@),
            r.1 == if old(self)@.delta_last is None {
                Some(seq)
            } else {
                None
            },
            final(self)@ == old(self)@.accepted(data@, seq),
    {
        let state = match &self.delta_base {
            Some((_, base)) => from_delta(data.as_slice(), base.as_slice()),
            None => data.clone(),
        };
        if self.delta_last.is_none() {
            self.delta_last = Some((seq, Some(data)));
            (state, Some(seq))
        } else {
            (state, None)
        }
    }

    /// Decompresses a packet and takes it; `None` where its data is no
    /// deflate stream, and nothing changes then.
    pub fn decode(&mut self, packet: &WireStatePacket) -> (r: Option<(Vec<u8>, Option<u32>)>)
        ensures
            match inflated(packet.data@) {
                Some(data) => {
                    &&& r matches Some(out)
                    &&& out.0@ == old(self)@.snapshot(data)
                    &&& out.1 == if old(self)@.delta_last is None {
                        Some(packet.seq.1)
                    } else {
                        None
                    }
                    &&& final(self)@ == old(self)@.accepted(data, packet.seq.1)
                },
                None => r is None && final(self)@ == old(self)@,
            },
    {
        match inflate(packet.data.as_slice()) {
            Some(data) => Some(self.accept(data, packet.seq.1)),
            None => None,
        }
    }
}

/// What a networked game keeps beside the snapshots: whether the last
/// snapshot announced a new round, and whether the score is to be drawn anew.
#[derive(Debug)]
pub struct GameNet {
    pub net: NetState,
    pub config: GameConfig,
    pub pending: bool,
    pub render_score: bool,
}

impl GameNet {
    pub fn new(config: GameConfig) -> (g: GameNet)
        ensures
            g.config == config,
            !g.pending,
            g.render_score,
            g.net@ == (NetView { delta_base: None, delta_last: None }),
    {
        GameNet { net: NetState::new(), config, pending: false, render_score: true }
    }

    /// Takes note of a snapshot that arrived; `new_game` says whether it
    /// announces a new round. The first snapshot after such an announcement
    /// that no longer does has the score drawn anew.
    pub fn update(&mut self, new_game: bool)
        ensures
            final(self).pending == new_game,
            final(self).render_score == (old(self).render_score || (!new_game && old(self).pending)),
            final(self).net == old(self).net,
            final(self).config == old(self).config,
    {
        if new_game {
            self.pending = true;
        } else if self.pending {
            self.render_score = true;
            self.pending = false;
        }
    }

    /// What an input is sent on as. Nothing is sent before the first
    /// snapshot; the button is passed on only while no shot is in progress.
    pub open spec fn sent(event: Event, connected: bool, shot_in_progress: bool) -> Option<GameEvents> {
        if !connected {
            None
        } else {
            match event {
                Event::MouseMoved(pos) => Some(GameEvents::MousePos(pos)),
                Event::LeftPressed => if shot_in_progress {
                    None
                } else {
                    Some(GameEvents::MousePressed)
                },
                Event::LeftReleased => if shot_in_progress {
                    None
                } else {
                    Some(GameEvents::MouseReleased)
                },
                _ => None,
            }
        }
    }

    /// Turns an input into what is sent to the server, if anything.
    pub fn event(event: &Event, connected: bool, shot_in_progress: bool) -> (r: Option<GameEvents>)
        ensures
            r == GameNet::sent(*event, connected, shot_in_progress),
    {
        if !connected {
            return None;
        }
        match event {
            Event::MouseMoved(pos) => Some(GameEvents::MousePos(*pos)),
            Event::LeftPressed => if shot_in_progress {
                None
            } else {
                Some(GameEvents::MousePressed)
            },
            Event::LeftReleased => if shot_in_progress {
                None
            } else {
                Some(GameEvents::MouseReleased)
            },
            _ => None,
        }
    }
}

} // verus!
