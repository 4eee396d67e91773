//! The session state machines and the dispatcher. They decide; a caller does
//! the socket and file work that the decisions ask for.

use crate::error::{ParseError, TftpError};
use crate::file::{blocks, flushed, written, File, FileView};
use crate::packet::{
    be16, Data, Error, InitialPacket, Mode, ReadPacket, WritePacket, ACK, BLOCK_SIZE, OPCODE_RRQ,
    OPCODE_WRQ,
};
use vstd::prelude::*;

verus! {

/// How often one packet is sent at most, the first time included.
pub const MAX_TRIAL_COUNT: u16 = 5;

/// The seconds between two sendings of one packet, unless configured.
pub const DEFAULT_RETRY_INTERVAL: u64 = 5;

/// The UDP endpoint of a peer: its IPv4 address as a number, and its port,
/// which is its transfer identifier.
#[derive(Debug, Clone, Copy, PartialEq, Eq, Structural)]
pub struct PeerAddr {
    pub ip: u32,
    pub port: u16,
}

/// Why a session gave up.
#[derive(Debug, Clone, Copy, PartialEq, Eq, Structural)]
pub enum Failure {
    /// The peer stayed silent through every sending of a packet.
    Timeout,
    /// The peer sent a payload that is not netascii.
    IllegalData,
}

/// The block number after `block`; after 65535 comes 0.
pub open spec fn spec_next_number(block: u16) -> u16 {
    if block == u16::MAX {
        0
    } else {
        (block + 1) as u16
    }
}

/// The block number after `block`; after 65535 comes 0.
pub fn next_number(block: u16) -> (res: u16)
    ensures
        res == spec_next_number(block),
{
    if block == u16::MAX {
        0
    } else {
        block + 1
    }
}

/// The message of the report that a foreign sender gets.
pub open spec fn unknown_tid_message() -> Seq<char> {
    "unknown transfer id"@
}

/// The message of the report on a payload that is not netascii.
pub open spec fn illegal_data_message() -> Seq<char> {
    "illegal netascii data"@
}

/// The report that a datagram from a foreign sender is answered with.
fn unknown_tid_report() -> (res: Vec<u8>)
    ensures
        res@ == Error::wire(TftpError::UnknownTid, unknown_tid_message()),
{
    Error::new(TftpError::UnknownTid, "unknown transfer id".to_owned()).encode()
}

/// The state of the sending side of a read request.
#[derive(Debug)]
pub enum RrqHandlingState {
    /// A block is out and not acknowledged. `trial_count` says how often it
    /// was sent.
    SentData { block: u16, trial_count: u16, data: Vec<u8> },
    Completed,
    Failed { reason: Failure },
}

impl RrqHandlingState {
    /// A block holds at most 512 bytes and is sent at most 5 times.
    pub open spec fn wf(&self) -> bool {
        match self {
            RrqHandlingState::SentData { trial_count, data, .. } => trial_count <= MAX_TRIAL_COUNT
                && data@.len() <= BLOCK_SIZE,
            _ => true,
        }
    }

    /// The state in which `block` with payload `data` was sent `trial_count` times.
    pub open spec fn is_sent(&self, block: u16, trial_count: u16, data: Seq<u8>) -> bool {
        match self {
            RrqHandlingState::SentData { block: b, trial_count: t, data: d } => b == block && t
                == trial_count && d@ == data,
            _ => false,
        }
    }

    /// The state before the first block is sent.
    pub fn new(data: Vec<u8>) -> (res: RrqHandlingState)
        ensures
            res.is_sent(1, 0, data@),
    {
        RrqHandlingState::SentData { block: 1, trial_count: 0, data }
    }

    pub fn block(&self) -> (res: u16)
        requires
            self is SentData,
        ensures
            res == self->block,
    {
        match self {
            RrqHandlingState::SentData { block, .. } => *block,
            _ => 0,
        }
    }

    pub fn data(&self) -> (res: &[u8])
        requires
            self is SentData,
        ensures
            res@ == self->data@,
    {
        match self {
            RrqHandlingState::SentData { data, .. } => data.as_slice(),
            _ => &[],
        }
    }

    pub fn trial_count(&self) -> (res: u16)
        requires
            self is SentData,
        ensures
            res == self->trial_count,
    {
        match self {
            RrqHandlingState::SentData { trial_count, .. } => *trial_count,
            _ => 0,
        }
    }

    /// Counts one more sending of the block that is out, unless it was sent 5
    /// times already or no block is out: then nothing changes.
    pub fn increment_trial_count(&mut self) -> (res: Option<u16>)
        ensures
            match *old(self) {
                RrqHandlingState::SentData { block, trial_count, data } => if trial_count
                    < MAX_TRIAL_COUNT {
                    res == Some((trial_count + 1) as u16) && final(self).is_sent(
                        block,
                        (trial_count + 1) as u16,
                        data@,
                    )
                } else {
                    res is None && *final(self) == *old(self)
                },
                _ => res is None && *final(self) == *old(self),
            },
    {
        match self {
            RrqHandlingState::SentData { trial_count, .. } => {
                if *trial_count >= MAX_TRIAL_COUNT {
                    None
                } else {
                    *trial_count = *trial_count + 1;
                    Some(*trial_count)
                }
            },
            _ => None,
        }
    }

    /// The packet to send next, counted as one more sending: the block that
    /// is out, unless it was sent 5 times already or no block is out.
    pub fn prepare_packet(&mut self) -> (res: Option<Data>)
        ensures
            match *old(self) {
                RrqHandlingState::SentData { block, trial_count, data } => if trial_count
                    < MAX_TRIAL_COUNT {
                    final(self).is_sent(block, (trial_count + 1) as u16, data@) && (
                    res matches Some(p) && p.spec_block() == block && p.spec_data() == data@)
                } else {
                    res is None && *final(self) == *old(self)
                },
                _ => res is None && *final(self) == *old(self),
            },
    {
        match self.increment_trial_count() {
            Some(_) => match &*self {
                RrqHandlingState::SentData { block, data, .. } => Some(
                    Data::new(*block, data.as_slice()),
                ),
                _ => None,
            },
            None => None,
        }
    }

    /// The state after the block that is out was acknowledged: the next block
    /// is to be sent, or, where the file has none, the transfer is complete.
    /// A state in which no block is out stays.
    pub fn next(self, data: Option<Vec<u8>>) -> (res: RrqHandlingState)
        requires
            data matches Some(d) ==> d@.len() <= BLOCK_SIZE,
        ensures
            match self {
                RrqHandlingState::SentData { block, .. } => match data {
                    Some(d) => res.is_sent(spec_next_number(block), 0, d@),
                    None => res is Completed,
                },
                _ => res == self,
            },
            res.wf(),
    {
        match self {
            RrqHandlingState::SentData { block, .. } => match data {
                Some(d) => RrqHandlingState::SentData {
                    block: next_number(block),
                    trial_count: 0,
                    data: d,
                },
                None => RrqHandlingState::Completed,
            },
            RrqHandlingState::Completed => RrqHandlingState::Completed,
            RrqHandlingState::Failed { reason } => RrqHandlingState::Failed { reason },
        }
    }
}

/// The state of the receiving side of a write request.
#[derive(Debug, Clone, Copy, PartialEq, Eq, Structural)]
pub enum WrqHandlingState {
    /// The request was acknowledged with block 0; no block has come yet.
    RequestAccepted { trial_count: u16 },
    /// `block` was written and acknowledged.
    DataAccepted { block: u16, trial_count: u16 },
    Completed,
    Failed { reason: Failure },
}

impl WrqHandlingState {
    /// An acknowledgement is sent at most 5 times.
    pub open spec fn wf(&self) -> bool {
        match self {
            WrqHandlingState::RequestAccepted { trial_count } => trial_count <= MAX_TRIAL_COUNT,
            WrqHandlingState::DataAccepted { trial_count, .. } => trial_count <= MAX_TRIAL_COUNT,
            _ => true,
        }
    }

    /// An acknowledgement is out, and the next block is awaited.
    pub open spec fn is_active(&self) -> bool {
        self is RequestAccepted || self is DataAccepted
    }

    /// The block that was acknowledged last; 0 where none was, or the session
    /// has ended.
    pub open spec fn spec_block(&self) -> u16 {
        match self {
            WrqHandlingState::DataAccepted { block, .. } => *block,
            _ => 0,
        }
    }

    /// How often the last acknowledgement was sent; 0 where the session has
    /// ended.
    pub open spec fn spec_trial_count(&self) -> u16 {
        match self {
            WrqHandlingState::RequestAccepted { trial_count } => *trial_count,
            WrqHandlingState::DataAccepted { trial_count, .. } => *trial_count,
            _ => 0,
        }
    }

    /// The state with one more sending counted.
    pub open spec fn spec_retried(&self) -> WrqHandlingState {
        match self {
            WrqHandlingState::RequestAccepted { trial_count } => WrqHandlingState::RequestAccepted {
                trial_count: (trial_count + 1) as u16,
            },
            WrqHandlingState::DataAccepted { block, trial_count } => WrqHandlingState::DataAccepted {
                block: *block,
                trial_count: (trial_count + 1) as u16,
            },
            _ => *self,
        }
    }

    /// The state before the request is acknowledged.
    pub fn new() -> (res: WrqHandlingState)
        ensures
            res == (WrqHandlingState::RequestAccepted { trial_count: 0 }),
    {
        WrqHandlingState::RequestAccepted { trial_count: 0 }
    }

    pub fn block(&self) -> (res: u16)
        ensures
            res == self.spec_block(),
    {
        match self {
            WrqHandlingState::DataAccepted { block, .. } => *block,
            _ => 0,
        }
    }

    pub fn trial_count(&self) -> (res: u16)
        ensures
            res == self.spec_trial_count(),
    {
        match self {
            WrqHandlingState::RequestAccepted { trial_count } => *trial_count,
            WrqHandlingState::DataAccepted { trial_count, .. } => *trial_count,
            _ => 0,
        }
    }

    /// Counts one more sending of the acknowledgement that is out, unless it
    /// was sent 5 times already or the session has ended: then nothing changes.
    pub fn increment_trial_count(&mut self) -> (res: Option<u16>)
        ensures
            old(self).is_active() && old(self).spec_trial_count() < MAX_TRIAL_COUNT ==> res
                == Some((old(self).spec_trial_count() + 1) as u16) && *final(self) == old(
                self,
            ).spec_retried(),
            !(old(self).is_active() && old(self).spec_trial_count() < MAX_TRIAL_COUNT) ==> res
                is None && *final(self) == *old(self),
    {
        match *self {
            WrqHandlingState::RequestAccepted { trial_count } => {
                if trial_count >= MAX_TRIAL_COUNT {
                    None
                } else {
                    *self = WrqHandlingState::RequestAccepted { trial_count: trial_count + 1 };
                    Some(trial_count + 1)
                }
            },
            WrqHandlingState::DataAccepted { block, trial_count } => {
                if trial_count >= MAX_TRIAL_COUNT {
                    None
                } else {
                    *self = WrqHandlingState::DataAccepted { block, trial_count: trial_count + 1 };
                    Some(trial_count + 1)
                }
            },
            _ => None,
        }
    }

    /// The packet to send next, counted as one more sending: the
    /// acknowledgement of the last block, unless it was sent 5 times already
    /// or the session has ended.
    pub fn prepare_packet(&mut self) -> (res: Option<ACK>)
        ensures
            old(self).is_active() && old(self).spec_trial_count() < MAX_TRIAL_COUNT ==> (
            res matches Some(p) && p@ == old(self).spec_block()) && *final(self) == old(
                self,
            ).spec_retried(),
            !(old(self).is_active() && old(self).spec_trial_count() < MAX_TRIAL_COUNT) ==> res
                is None && *final(self) == *old(self),
    {
        match self.increment_trial_count() {
            Some(_) => Some(ACK::new(self.block())),
            None => None,
        }
    }

    /// The state after the awaited block was written: that block is the one
    /// to acknowledge. A session that has ended stays as it is.
    pub fn next(self) -> (res: WrqHandlingState)
        ensures
            self.is_active() ==> res == (WrqHandlingState::DataAccepted {
                block: spec_next_number(self.spec_block()),
                trial_count: 0,
            }),
            !self.is_active() ==> res == self,
    {
        match self {
            WrqHandlingState::RequestAccepted { .. } => WrqHandlingState::DataAccepted {
                block: 1,
                trial_count: 0,
            },
            WrqHandlingState::DataAccepted { block, .. } => WrqHandlingState::DataAccepted {
                block: next_number(block),
                trial_count: 0,
            },
            other => other,
        }
    }
}

/// What happens to a session that waits on its own endpoint.
#[derive(Debug)]
pub enum Event {
    /// A datagram arrived from `source`.
    Datagram { source: PeerAddr, bytes: Vec<u8> },
    /// Nothing arrived within the retry interval.
    Timeout,
}

/// What the sending side asks its caller to do.
#[derive(Debug)]
pub enum SenderAction {
    /// Send the datagram to the peer, then wait.
    Transmit(Vec<u8>),
    /// Send the datagram to `to`, which is not the peer, then wait.
    Reject { to: PeerAddr, datagram: Vec<u8> },
    /// Hand more of the file to the adapter, then hand in the same event again.
    Refill,
    /// Wait on.
    Ignore,
    /// The transfer is complete.
    Finish,
    /// The session gave up.
    Abort,
}

impl SenderAction {
    /// The action is to send `bytes` to the peer.
    pub open spec fn is_transmit(&self, bytes: Seq<u8>) -> bool {
        self matches SenderAction::Transmit(d) && d@ == bytes
    }

    /// The action is to send `bytes` to `source`, which is not the peer.
    pub open spec fn is_reject(&self, source: PeerAddr, bytes: Seq<u8>) -> bool {
        self matches SenderAction::Reject { to, datagram } && to == source && datagram@ == bytes
    }
}

/// The sending side of one read request.
#[derive(Debug)]
pub struct Sender {
    peer: PeerAddr,
    state: RrqHandlingState,
}

impl Sender {
    /// The peer of the session.
    pub closed spec fn spec_peer(&self) -> PeerAddr {
        self.peer
    }

    /// The state of the session.
    pub closed spec fn spec_state(&self) -> RrqHandlingState {
        self.state
    }

    /// The state of the session is well formed.
    pub open spec fn wf(&self) -> bool {
        self.spec_state().wf()
    }

    /// What one step makes of a session, of its file adapter and of an event.
    /// `before`, `file` and `event` are what the step found; `after`,
    /// `file_after` and `action` are what it left and asked for.
    pub open spec fn stepped(
        before: Sender,
        file: FileView,
        event: Event,
        after: Sender,
        file_after: FileView,
        action: SenderAction,
    ) -> bool {
        let unchanged = after == before && file_after == file;
        match event {
            Event::Datagram { source, bytes } => {
                if source != before.spec_peer() {
                    unchanged && action.is_reject(
                        source,
                        Error::wire(TftpError::UnknownTid, unknown_tid_message()),
                    )
                } else {
                    match before.spec_state() {
                        RrqHandlingState::SentData { block, .. } => {
                            if ACK::spec_parse(bytes@) != Ok::<u16, ParseError>(block) {
                                unchanged && action is Ignore
                            } else if file.finished {
                                &&& after.spec_peer() == before.spec_peer()
                                &&& after.spec_state() is Completed
                                &&& file_after == file
                                &&& action is Finish
                            } else if file.needs_input() {
                                unchanged && action is Refill
                            } else {
                                let data = file.next_block().unwrap();
                                &&& after.spec_peer() == before.spec_peer()
                                &&& after.spec_state().is_sent(spec_next_number(block), 1, data)
                                &&& file_after == file.after_block()
                                &&& action.is_transmit(
                                    Data::wire(spec_next_number(block), data, Mode::OCTET),
                                )
                            }
                        },
                        _ => unchanged && action is Ignore,
                    }
                }
            },
            Event::Timeout => match before.spec_state() {
                RrqHandlingState::SentData { block, trial_count, data } => {
                    if trial_count < MAX_TRIAL_COUNT {
                        &&& after.spec_peer() == before.spec_peer()
                        &&& after.spec_state().is_sent(block, (trial_count + 1) as u16, data@)
                        &&& file_after == file
                        &&& action.is_transmit(Data::wire(block, data@, Mode::OCTET))
                    } else {
                        &&& after.spec_peer() == before.spec_peer()
                        &&& after.spec_state() == (RrqHandlingState::Failed {
                            reason: Failure::Timeout,
                        })
                        &&& file_after == file
                        &&& action is Abort
                    }
                },
                _ => unchanged && action is Ignore,
            },
        }
    }

    /// Opens the session: takes the first block from the adapter and returns
    /// the session with that block out, sent once, and the datagram that
    /// carries it. `None`, and the adapter unchanged, where the adapter has no
    /// block to hand out.
    pub fn open(peer: PeerAddr, file: &mut File) -> (res: Option<(Sender, Vec<u8>)>)
        ensures
            final(file)@ == old(file)@.after_block(),
            match old(file)@.next_block() {
                Some(data) => res matches Some(r) && r.0.spec_peer() == peer && r.0.wf()
                    && r.0.spec_state().is_sent(1, 1, data) && r.1@ == Data::wire(
                    1,
                    data,
                    Mode::OCTET,
                ),
                None => res is None,
            },
    {
        match file.next_block() {
            None => None,
            Some(data) => {
                let mut state = RrqHandlingState::new(data);
                match state.prepare_packet() {
                    Some(packet) => Some((Sender { peer, state }, packet.encode(&Mode::OCTET))),
                    None => None,
                }
            },
        }
    }

    pub fn peer(&self) -> (res: PeerAddr)
        ensures
            res == self.spec_peer(),
    {
        self.peer
    }

    pub fn state(&self) -> (res: &RrqHandlingState)
        ensures
            *res == self.spec_state(),
    {
        &self.state
    }

    /// Whether a block is out, so that the session goes on.
    pub fn is_active(&self) -> (res: bool)
        ensures
            res == (self.spec_state() is SentData),
    {
        match &self.state {
            RrqHandlingState::SentData { .. } => true,
            _ => false,
        }
    }

    /// One step of the session. A datagram from another source than the peer
    /// is answered with a report of an unknown transfer identifier and
    /// changes nothing. The acknowledgement of the block that is out brings
    /// the next block out, or completes the transfer where the adapter has
    /// handed out its last block. Any other datagram is ignored. A timeout
    /// sends the block again, up to 5 sendings in all; after that the session
    /// has failed.
    pub fn step(&mut self, file: &mut File, event: &Event) -> (action: SenderAction)
        ensures
            old(self).wf() ==> final(self).wf(),
            Sender::stepped(*old(self), old(file)@, *event, *final(self), final(file)@, action),
            event matches Event::Datagram { source, .. } && source != old(self).spec_peer() ==> (
            *final(self) == *old(self) && final(file)@ == old(file)@ && action is Reject),
    {
        match event {
            Event::Datagram { source, bytes } => {
                if source.ip != self.peer.ip || source.port != self.peer.port {
                    return SenderAction::Reject { to: *source, datagram: unknown_tid_report() };
                }
                let current: u16 = match &self.state {
                    RrqHandlingState::SentData { block, .. } => *block,
                    _ => {
                        return SenderAction::Ignore;
                    },
                };
                match ACK::parse(bytes.as_slice()) {
                    Ok(ack) => {
                        if ack.block() != current {
                            return SenderAction::Ignore;
                        }
                    },
                    Err(_) => {
                        return SenderAction::Ignore;
                    },
                }
                if !file.has_next() {
                    self.state = RrqHandlingState::Completed;
                    return SenderAction::Finish;
                }
                if file.needs_input() {
                    return SenderAction::Refill;
                }
                let data = file.next_block();
                let mut state = RrqHandlingState::Completed;
                core::mem::swap(&mut self.state, &mut state);
                let mut state = state.next(data);
                let packet = state.prepare_packet();
                self.state = state;
                match packet {
                    Some(p) => SenderAction::Transmit(p.encode(&Mode::OCTET)),
                    None => SenderAction::Ignore,
                }
            },
            Event::Timeout => {
                let active = self.is_active();
                match self.state.prepare_packet() {
                    Some(p) => SenderAction::Transmit(p.encode(&Mode::OCTET)),
                    None => {
                        if active {
                            self.state = RrqHandlingState::Failed { reason: Failure::Timeout };
                            SenderAction::Abort
                        } else {
                            SenderAction::Ignore
                        }
                    },
                }
            },
        }
    }
}

/// What the receiving side asks its caller to do.
#[derive(Debug)]
pub enum ReceiverAction {
    /// Send the datagram to the peer, then wait.
    Transmit(Vec<u8>),
    /// Send the datagram to `to`, which is not the peer, then wait.
    Reject { to: PeerAddr, datagram: Vec<u8> },
    /// Append `bytes` to the file, then send `ack` to the peer. Where `last`
    /// is set the transfer is complete and the file is to be published; else
    /// wait.
    Store { bytes: Vec<u8>, ack: Vec<u8>, last: bool },
    /// Wait on.
    Ignore,
    /// The session gave up: send `report`, where there is one, to the peer.
    Abort { report: Option<Vec<u8>> },
}

impl ReceiverAction {
    /// The action is to send `bytes` to the peer.
    pub open spec fn is_transmit(&self, bytes: Seq<u8>) -> bool {
        self matches ReceiverAction::Transmit(d) && d@ == bytes
    }

    /// The action is to send `bytes` to `source`, which is not the peer.
    pub open spec fn is_reject(&self, source: PeerAddr, bytes: Seq<u8>) -> bool {
        self matches ReceiverAction::Reject { to, datagram } && to == source && datagram@ == bytes
    }

    /// The action is to append `content` to the file and to send `reply` to
    /// the peer; `end` says whether that completes the transfer.
    pub open spec fn is_store(&self, content: Seq<u8>, reply: Seq<u8>, end: bool) -> bool {
        self matches ReceiverAction::Store { bytes, ack, last } && bytes@ == content && ack@
            == reply && last == end
    }

    /// The action is to give up, and to send `reply`, if there is one, to the
    /// peer.
    pub open spec fn is_abort(&self, reply: Option<Seq<u8>>) -> bool {
        match self {
            ReceiverAction::Abort { report } => match reply {
                Some(bytes) => report matches Some(r) && r@ == bytes,
                None => report is None,
            },
            _ => false,
        }
    }
}

/// The receiving side of one write request.
#[derive(Debug)]
pub struct Receiver {
    peer: PeerAddr,
    state: WrqHandlingState,
}

impl Receiver {
    /// The peer of the session.
    pub closed spec fn spec_peer(&self) -> PeerAddr {
        self.peer
    }

    /// The state of the session.
    pub closed spec fn spec_state(&self) -> WrqHandlingState {
        self.state
    }

    /// The state of the session is well formed.
    pub open spec fn wf(&self) -> bool {
        self.spec_state().wf()
    }

    /// What one step makes of a session, of its file adapter and of an event.
    /// `before`, `file` and `event` are what the step found; `after`,
    /// `file_after` and `action` are what it left and asked for.
    pub open spec fn stepped(
        before: Receiver,
        file: FileView,
        event: Event,
        after: Receiver,
        file_after: FileView,
        action: ReceiverAction,
    ) -> bool {
        let unchanged = after == before && file_after == file;
        let state = before.spec_state();
        let same_peer = after.spec_peer() == before.spec_peer();
        match event {
            Event::Datagram { source, bytes } => {
                if source != before.spec_peer() {
                    unchanged && action.is_reject(
                        source,
                        Error::wire(TftpError::UnknownTid, unknown_tid_message()),
                    )
                } else if !state.is_active() {
                    unchanged && action is Ignore
                } else {
                    match Data::spec_parse(bytes@, Mode::OCTET) {
                        Err(_) => unchanged && action is Ignore,
                        Ok((block, payload)) => {
                            if block != spec_next_number(state.spec_block()) {
                                unchanged && action.is_transmit(ACK::wire(state.spec_block()))
                            } else {
                                match written(file.mode, file.carry, payload) {
                                    None => {
                                        &&& same_peer
                                        &&& after.spec_state() == (WrqHandlingState::Failed {
                                            reason: Failure::IllegalData,
                                        })
                                        &&& file_after == file
                                        &&& action.is_abort(
                                            Some(
                                                Error::wire(
                                                    TftpError::IllegalTftpOp,
                                                    illegal_data_message(),
                                                ),
                                            ),
                                        )
                                    },
                                    Some((out, carry)) => {
                                        if payload.len() < BLOCK_SIZE {
                                            &&& same_peer
                                            &&& after.spec_state() is Completed
                                            &&& file_after == (FileView { carry: false, ..file })
                                            &&& action.is_store(
                                                out + flushed(carry),
                                                ACK::wire(block),
                                                true,
                                            )
                                        } else {
                                            &&& same_peer
                                            &&& after.spec_state() == (
                                            WrqHandlingState::DataAccepted {
                                                block,
                                                trial_count: 1,
                                            })
                                            &&& file_after == (FileView { carry, ..file })
                                            &&& action.is_store(out, ACK::wire(block), false)
                                        }
                                    },
                                }
                            }
                        },
                    }
                }
            },
            Event::Timeout => {
                if !state.is_active() {
                    unchanged && action is Ignore
                } else if state.spec_trial_count() < MAX_TRIAL_COUNT {
                    &&& same_peer
                    &&& after.spec_state() == state.spec_retried()
                    &&& file_after == file
                    &&& action.is_transmit(ACK::wire(state.spec_block()))
                } else {
                    &&& same_peer
                    &&& after.spec_state() == (WrqHandlingState::Failed {
                        reason: Failure::Timeout,
                    })
                    &&& file_after == file
                    &&& action.is_abort(None)
                }
            },
        }
    }

    /// Opens the session: returns it with the request acknowledged once, and
    /// the datagram that acknowledges block 0.
    pub fn open(peer: PeerAddr) -> (res: (Receiver, Vec<u8>))
        ensures
            res.0.spec_peer() == peer,
            res.0.spec_state() == (WrqHandlingState::RequestAccepted { trial_count: 1 }),
            res.0.wf(),
            res.1@ == ACK::wire(0),
    {
        let state = WrqHandlingState::RequestAccepted { trial_count: 1 };
        (Receiver { peer, state }, ACK::new(0).encode())
    }

    pub fn peer(&self) -> (res: PeerAddr)
        ensures
            res == self.spec_peer(),
    {
        self.peer
    }

    pub fn state(&self) -> (res: WrqHandlingState)
        ensures
            res == self.spec_state(),
    {
        self.state
    }

    /// Whether the session goes on.
    pub fn is_active(&self) -> (res: bool)
        ensures
            res == self.spec_state().is_active(),
    {
        match self.state {
            WrqHandlingState::RequestAccepted { .. } => true,
            WrqHandlingState::DataAccepted { .. } => true,
            _ => false,
        }
    }

    /// One step of the session. A datagram from another source than the peer
    /// is answered with a report of an unknown transfer identifier and
    /// changes nothing. The awaited block is passed through the adapter and
    /// acknowledged, and what the adapter returns is to be appended to the
    /// file; a block of fewer than 512 bytes completes the transfer, and a CR
    /// that the adapter still holds goes to the file with it. A block with
    /// another number is answered with the last acknowledgement, and the
    /// count of sendings stays. A datagram that is no DATA packet is ignored.
    /// A payload that is not netascii, in a netascii transfer, ends the
    /// session with a report of an illegal operation. A timeout sends the
    /// last acknowledgement again, up to 5 sendings in all; after that the
    /// session has failed.
    pub fn step(&mut self, file: &mut File, event: &Event) -> (action: ReceiverAction)
        ensures
            old(self).wf() ==> final(self).wf(),
            Receiver::stepped(*old(self), old(file)@, *event, *final(self), final(file)@, action),
            event matches Event::Datagram { source, .. } && source != old(self).spec_peer() ==> (
            *final(self) == *old(self) && final(file)@ == old(file)@ && action is Reject),
    {
        match event {
            Event::Datagram { source, bytes } => {
                if source.ip != self.peer.ip || source.port != self.peer.port {
                    return ReceiverAction::Reject { to: *source, datagram: unknown_tid_report() };
                }
                if !self.is_active() {
                    return ReceiverAction::Ignore;
                }
                let packet = match Data::parse(bytes.as_slice(), &Mode::OCTET) {
                    Ok(p) => p,
                    Err(_) => {
                        return ReceiverAction::Ignore;
                    },
                };
                let current = self.state.block();
                if packet.block() != next_number(current) {
                    return ReceiverAction::Transmit(ACK::new(current).encode());
                }
                let payload = packet.data();
                match file.write(payload) {
                    Err(e) => {
                        self.state = WrqHandlingState::Failed { reason: Failure::IllegalData };
                        let report = Error::new(e, "illegal netascii data".to_owned()).encode();
                        ReceiverAction::Abort { report: Some(report) }
                    },
                    Ok(out) => {
                        let mut bytes = out;
                        let mut state = self.state.next();
                        let ack = match state.prepare_packet() {
                            Some(a) => a.encode(),
                            None => Vec::new(),
                        };
                        let last = payload.len() < BLOCK_SIZE;
                        if last {
                            let mut rest = file.flush();
                            bytes.append(&mut rest);
                            self.state = WrqHandlingState::Completed;
                        } else {
                            self.state = state;
                        }
                        ReceiverAction::Store { bytes, ack, last }
                    },
                }
            },
            Event::Timeout => {
                let active = self.is_active();
                match self.state.prepare_packet() {
                    Some(p) => ReceiverAction::Transmit(p.encode()),
                    None => {
                        if active {
                            self.state = WrqHandlingState::Failed { reason: Failure::Timeout };
                            ReceiverAction::Abort { report: None }
                        } else {
                            ReceiverAction::Ignore
                        }
                    },
                }
            },
        }
    }
}

/// The message of the report on a request whose filename names no file.
pub open spec fn illegal_filename_message() -> Seq<char> {
    "illegal filename"@
}

/// What the listener does with a datagram that arrived on the well-known port.
#[derive(Debug)]
pub enum Dispatch {
    /// Open a sending session, on an endpoint of its own, for the read request.
    SpawnSender(ReadPacket),
    /// Open a receiving session, on an endpoint of its own, for the write
    /// request.
    SpawnReceiver(WritePacket),
    /// Open no session, and answer the sender with `report`.
    Refuse { report: Vec<u8> },
    /// Drop the datagram: it opens no transfer.
    Drop(ParseError),
}

impl Dispatch {
    /// The request for which a session is opened, if one is.
    pub open spec fn spec_request(&self) -> Option<InitialPacket> {
        match self {
            Dispatch::SpawnSender(p) => Some(InitialPacket::RRQ(*p)),
            Dispatch::SpawnReceiver(p) => Some(InitialPacket::WRQ(*p)),
            _ => None,
        }
    }
}

/// Decides what the listener does with a datagram: a read request opens a
/// sending session, a write request a receiving session. A request whose
/// filename has no terminal component is answered with a report of an access
/// violation. Anything else is dropped, with the reason for which the codec
/// refused it.
pub fn dispatch(datagram: &[u8]) -> (res: Dispatch)
    ensures
        match InitialPacket::spec_parse(datagram@) {
            Ok((opcode, leaf, mode)) => res.spec_request() matches Some(p) && p.spec_opcode()
                == opcode && crate::text::is_text_of(p.spec_filename(), leaf) && p.spec_mode()
                == mode,
            Err(e) => if e == ParseError::IllegalFilename {
                res matches Dispatch::Refuse { report } && report@ == Error::wire(
                    TftpError::AccessViolation,
                    illegal_filename_message(),
                )
            } else {
                res matches Dispatch::Drop(x) && x == e
            },
        },
{
    match InitialPacket::parse(datagram) {
        Ok(InitialPacket::RRQ(p)) => Dispatch::SpawnSender(p),
        Ok(InitialPacket::WRQ(p)) => Dispatch::SpawnReceiver(p),
        Err(ParseError::IllegalFilename) => {
            let report = Error::new(
                ParseError::IllegalFilename.tftp_error(),
                "illegal filename".to_owned(),
            );
            Dispatch::Refuse { report: report.encode() }
        },
        Err(e) => Dispatch::Drop(e),
    }
}

/// The listener opens sessions for requests only: a datagram with another
/// opcode than that of a read or a write request, such as the DATA, ACK and
/// ERROR packets of a transfer in flight, is dropped.
pub proof fn lemma_listener_takes_requests_only(datagram: Seq<u8>)
    requires
        datagram.len() >= 2,
        be16(datagram[0], datagram[1]) != OPCODE_RRQ,
        be16(datagram[0], datagram[1]) != OPCODE_WRQ,
    ensures
        InitialPacket::spec_parse(datagram) == Err::<(u16, Seq<u8>, Mode), ParseError>(
            ParseError::IllegalOpcode,
        ),
{
}

/// Once the whole file is in the adapter, each acknowledgement of the block
/// that is out brings out the next of the blocks of the pending stream,
/// under the next number, and leaves the blocks after it to come; the
/// acknowledgement of the last of them completes the transfer.
pub proof fn lemma_sender_follows_blocks(
    before: Sender,
    file: FileView,
    event: Event,
    after: Sender,
    file_after: FileView,
    action: SenderAction,
)
    requires
        Sender::stepped(before, file, event, after, file_after, action),
        file.at_end,
        event matches Event::Datagram { source, bytes } && source == before.spec_peer()
            && before.spec_state() is SentData && ACK::spec_parse(bytes@) == Ok::<
            u16,
            ParseError,
        >(before.spec_state()->block),
    ensures
        file.finished ==> action is Finish && after.spec_state() is Completed,
        !file.finished ==> action.is_transmit(
            Data::wire(
                spec_next_number(before.spec_state()->block),
                blocks(file.pending)[0],
                Mode::OCTET,
            ),
        ) && file_after.drained() == file.drained().drop_first(),
{
    if !file.finished {
        crate::file::lemma_drained_is_blocks(file);
        assert(file.drained().drop_first() =~= file_after.drained());
    }
}

} // verus!
