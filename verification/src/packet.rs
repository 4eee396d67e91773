//! The wire codec: the five packet types, bit-exact, with no I/O.

use crate::error::{ParseError, StorageFailure, TftpError};
use crate::netascii;
use vstd::prelude::*;
use vstd::slice::{slice_subrange, slice_to_vec};
use crate::filename::{is_leaf, leaf_name, find_leaf, lemma_leaf_name_of_leaf};
use crate::text::{is_text_of, lossy_string};
use vstd::utf8::encode_utf8;

verus! {

/// The largest payload of a DATA packet.
pub const BLOCK_SIZE: usize = 512;

/// The 16-bit number that two bytes spell in network byte order.
pub open spec fn be16(hi: u8, lo: u8) -> u16 {
    (hi as int * 256 + lo as int) as u16
}

/// A 16-bit number in network byte order.
pub open spec fn be_bytes(x: u16) -> Seq<u8> {
    seq![(x / 256) as u8, (x % 256) as u8]
}

/// The two bytes of a 16-bit number spell that number.
pub proof fn lemma_be_roundtrip(x: u16)
    ensures
        be_bytes(x).len() == 2,
        be16(be_bytes(x)[0], be_bytes(x)[1]) == x,
{
}

/// Reads the 16-bit number at `at`.
fn read_u16(s: &[u8], at: usize) -> (res: u16)
    requires
        at + 2 <= s.len(),
    ensures
        res == be16(s@[at as int], s@[at + 1]),
{
    let hi: u16 = s[at] as u16;
    let lo: u16 = s[at + 1] as u16;
    hi * 256 + lo
}

/// Appends a 16-bit number in network byte order.
fn push_u16(buf: &mut Vec<u8>, x: u16)
    ensures
        final(buf)@ == old(buf)@ + be_bytes(x),
{
    let ghost before = buf@;
    buf.push((x / 256) as u8);
    buf.push((x % 256) as u8);
    assert(buf@ =~= before + be_bytes(x));
}

/// Appends a run of bytes.
fn push_all(buf: &mut Vec<u8>, data: &[u8])
    ensures
        final(buf)@ == old(buf)@ + data@,
{
    let ghost before = buf@;
    let mut i: usize = 0;
    while i < data.len()
        invariant
            i <= data.len(),
            buf@ == before + data@.take(i as int),
        decreases data.len() - i,
    {
        buf.push(data[i]);
        i += 1;
        assert(buf@ =~= before + data@.take(i as int));
    }
    assert(data@.take(i as int) =~= data@);
}

/// An ASCII letter in lower case; any other byte unchanged.
pub open spec fn lower(b: u8) -> u8 {
    if 0x41 <= b <= 0x5A {
        (b + 32) as u8
    } else {
        b
    }
}

/// A run of bytes with its ASCII letters in lower case.
pub open spec fn lowered(s: Seq<u8>) -> Seq<u8> {
    Seq::new(s.len(), |i: int| lower(s[i]))
}

/// Whether `s`, its ASCII letters taken in lower case, spells `name`.
fn spells(s: &[u8], name: &Vec<u8>) -> (res: bool)
    ensures
        res == (lowered(s@) == name@),
{
    if s.len() != name.len() {
        return false;
    }
    let mut i: usize = 0;
    while i < s.len()
        invariant
            i <= s.len(),
            s.len() == name.len(),
            forall|j: int| 0 <= j < i ==> lower(s@[j]) == name@[j],
        decreases s.len() - i,
    {
        let b: u8 = s[i];
        let l: u8 = if 0x41 <= b && b <= 0x5A {
            b + 32
        } else {
            b
        };
        if l != name[i] {
            assert(lowered(s@)[i as int] != name@[i as int]);
            return false;
        }
        i += 1;
    }
    assert(lowered(s@) =~= name@);
    true
}

/// The transfer modes. MAIL is not one of them.
#[derive(Debug, Clone, Copy, PartialEq, Eq, Structural)]
pub enum Mode {
    NETASCII,
    OCTET,
}

impl Mode {
    /// The wire form of a mode: its name in lower-case ASCII.
    pub open spec fn wire(self) -> Seq<u8> {
        match self {
            Mode::NETASCII => seq![0x6Eu8, 0x65u8, 0x74u8, 0x61u8, 0x73u8, 0x63u8, 0x69u8, 0x69u8],
            Mode::OCTET => seq![0x6Fu8, 0x63u8, 0x74u8, 0x65u8, 0x74u8],
        }
    }

    /// The mode that a run of bytes names, letters of either case.
    pub open spec fn spec_parse(s: Seq<u8>) -> Option<Mode> {
        if lowered(s) == Mode::NETASCII.wire() {
            Some(Mode::NETASCII)
        } else if lowered(s) == Mode::OCTET.wire() {
            Some(Mode::OCTET)
        } else {
            None
        }
    }

    /// The name of a mode as text.
    pub open spec fn spec_name(self) -> Seq<char> {
        match self {
            Mode::NETASCII => "netascii"@,
            Mode::OCTET => "octet"@,
        }
    }

    pub fn parse(s: &[u8]) -> (res: Option<Mode>)
        ensures
            res == Mode::spec_parse(s@),
    {
        if spells(s, &Mode::NETASCII.encode()) {
            Some(Mode::NETASCII)
        } else if spells(s, &Mode::OCTET.encode()) {
            Some(Mode::OCTET)
        } else {
            None
        }
    }

    pub fn encode(&self) -> (res: Vec<u8>)
        ensures
            res@ == self.wire(),
    {
        let res: Vec<u8> = match self {
            Mode::NETASCII => vec![0x6Eu8, 0x65u8, 0x74u8, 0x61u8, 0x73u8, 0x63u8, 0x69u8, 0x69u8],
            Mode::OCTET => vec![0x6Fu8, 0x63u8, 0x74u8, 0x65u8, 0x74u8],
        };
        assert(res@ =~= self.wire());
        res
    }

    /// The name of the mode as text.
    pub fn name(&self) -> (res: String)
        ensures
            res@ == self.spec_name(),
    {
        match self {
            Mode::NETASCII => "netascii".to_owned(),
            Mode::OCTET => "octet".to_owned(),
        }
    }
}

/// The wire form of a mode names that mode, and holds no NUL.
pub proof fn lemma_mode_roundtrip(m: Mode)
    ensures
        Mode::spec_parse(m.wire()) == Some(m),
        first_nul(m.wire(), 0) == m.wire().len(),
{
    let w = m.wire();
    assert(lowered(w) =~= w);
    assert(Mode::NETASCII.wire().len() != Mode::OCTET.wire().len());
    lemma_first_nul_is(w, 0, w.len() as int);
}

/// The place of the first NUL of `s` at or after `from`; the length of `s`
/// where there is none.
pub open spec fn first_nul(s: Seq<u8>, from: int) -> int
    decreases s.len() - from,
{
    if from >= s.len() {
        s.len() as int
    } else if s[from] == 0 {
        from
    } else {
        first_nul(s, from + 1)
    }
}

/// The place that no NUL precedes from `from` on, and that holds one unless it
/// is the end, is the place of the first NUL.
pub proof fn lemma_first_nul_is(s: Seq<u8>, from: int, at: int)
    requires
        0 <= from <= at <= s.len(),
        forall|j: int| from <= j < at ==> s[j] != 0,
        at < s.len() ==> s[at] == 0,
    ensures
        first_nul(s, from) == at,
    decreases at - from,
{
    if from < at {
        lemma_first_nul_is(s, from + 1, at);
    }
}

/// The first NUL lies at or after `from`, no NUL lies between, and it is a NUL
/// unless it is the end.
pub proof fn lemma_first_nul_bounds(s: Seq<u8>, from: int)
    requires
        0 <= from <= s.len(),
    ensures
        from <= first_nul(s, from) <= s.len(),
        forall|j: int| from <= j < first_nul(s, from) ==> s[j] != 0,
        first_nul(s, from) < s.len() ==> s[first_nul(s, from)] == 0,
    decreases s.len() - from,
{
    if from < s.len() && s[from] != 0 {
        lemma_first_nul_bounds(s, from + 1);
    }
}

/// Finds the first NUL at or after `from`.
fn find_nul(s: &[u8], from: usize) -> (at: usize)
    requires
        from <= s.len(),
    ensures
        at == first_nul(s@, from as int),
        from <= at <= s.len(),
{
    let mut i: usize = from;
    while i < s.len() && s[i] != 0
        invariant
            from <= i <= s.len(),
            forall|j: int| from <= j < i ==> s@[j] != 0,
        decreases s.len() - i,
    {
        i += 1;
    }
    proof {
        lemma_first_nul_is(s@, from as int, i as int);
    }
    i
}

pub const OPCODE_RRQ: u16 = 0x01;

pub const OPCODE_WRQ: u16 = 0x02;

pub const OPCODE_DATA: u16 = 0x03;

pub const OPCODE_ACK: u16 = 0x04;

pub const OPCODE_ERROR: u16 = 0x05;

/// The two fields of the body of a request, `filename NUL mode NUL`: the body
/// holds two NULs and ends with the second.
pub open spec fn request_fields(body: Seq<u8>) -> Option<(Seq<u8>, Seq<u8>)> {
    let z1 = first_nul(body, 0);
    let z2 = first_nul(body, z1 + 1);
    if z1 < body.len() && z2 + 1 == body.len() {
        Some((body.subrange(0, z1), body.subrange(z1 + 1, z2)))
    } else {
        None
    }
}

/// What a datagram holds as a request of the given opcode: the terminal
/// component of its filename and its mode; or why it is refused.
pub open spec fn spec_request(s: Seq<u8>, opcode: u16) -> Result<(Seq<u8>, Mode), ParseError> {
    if s.len() < 2 {
        Err(ParseError::TooShort)
    } else if be16(s[0], s[1]) != opcode {
        Err(ParseError::IllegalOpcode)
    } else {
        match request_fields(s.subrange(2, s.len() as int)) {
            None => Err(ParseError::IllegalFormat),
            Some((raw, mode)) => match leaf_name(raw) {
                None => Err(ParseError::IllegalFilename),
                Some(leaf) => match Mode::spec_parse(mode) {
                    None => Err(ParseError::UnknownMode),
                    Some(m) => Ok((leaf, m)),
                },
            },
        }
    }
}

/// The wire form of a request.
pub open spec fn request_wire(opcode: u16, filename: Seq<char>, mode: Mode) -> Seq<u8> {
    be_bytes(opcode) + encode_utf8(filename) + seq![0u8] + mode.wire() + seq![0u8]
}

fn parse_request(s: &[u8], opcode: u16) -> (res: Result<(String, Mode), ParseError>)
    ensures
        match spec_request(s@, opcode) {
            Ok((leaf, mode)) => res matches Ok(r) && is_text_of(r.0@, leaf) && r.1 == mode,
            Err(e) => res matches Err(x) && x == e,
        },
{
    if s.len() < 2 {
        return Err(ParseError::TooShort);
    }
    if read_u16(s, 0) != opcode {
        return Err(ParseError::IllegalOpcode);
    }
    let body = slice_subrange(s, 2, s.len());
    let z1 = find_nul(body, 0);
    if z1 >= body.len() {
        return Err(ParseError::IllegalFormat);
    }
    let z2 = find_nul(body, z1 + 1);
    if z2 >= body.len() || z2 != body.len() - 1 {
        return Err(ParseError::IllegalFormat);
    }
    let raw = slice_subrange(body, 0, z1);
    let mode_bytes = slice_subrange(body, z1 + 1, z2);
    match find_leaf(raw) {
        None => Err(ParseError::IllegalFilename),
        Some((from, to)) => match Mode::parse(mode_bytes) {
            None => Err(ParseError::UnknownMode),
            Some(mode) => Ok((lossy_string(slice_subrange(raw, from, to)), mode)),
        },
    }
}

fn encode_request(opcode: u16, filename: &str, mode: &Mode) -> (res: Vec<u8>)
    ensures
        res@ == request_wire(opcode, filename@, *mode),
{
    let mut res: Vec<u8> = Vec::new();
    push_u16(&mut res, opcode);
    push_all(&mut res, filename.as_bytes());
    res.push(0);
    let name = mode.encode();
    push_all(&mut res, name.as_slice());
    res.push(0);
    assert(res@ =~= request_wire(opcode, filename@, *mode));
    res
}

/// A write request.
#[derive(Debug)]
pub struct WritePacket {
    pub filename: String,
    pub mode: Mode,
}

impl WritePacket {
    /// The wire form of the request.
    pub open spec fn wire(&self) -> Seq<u8> {
        request_wire(OPCODE_WRQ, self.filename@, self.mode)
    }

    pub fn new(filename: String, mode: Mode) -> (res: WritePacket)
        ensures
            res.filename == filename,
            res.mode == mode,
    {
        WritePacket { filename, mode }
    }

    /// Reads a write request. The filename is cut down to its terminal
    /// component; a datagram is refused where it is too short, has another
    /// opcode, is not `filename NUL mode NUL`, has a filename without a
    /// terminal component, or a mode that is not known.
    pub fn parse(s: &[u8]) -> (res: Result<WritePacket, ParseError>)
        ensures
            match spec_request(s@, OPCODE_WRQ) {
                Ok((leaf, mode)) => res matches Ok(p) && is_text_of(p.filename@, leaf) && p.mode
                    == mode,
                Err(e) => res matches Err(x) && x == e,
            },
    {
        match parse_request(s, OPCODE_WRQ) {
            Ok((filename, mode)) => Ok(WritePacket { filename, mode }),
            Err(e) => Err(e),
        }
    }

    pub fn encode(&self) -> (res: Vec<u8>)
        ensures
            res@ == self.wire(),
    {
        encode_request(OPCODE_WRQ, self.filename.as_str(), &self.mode)
    }
}

/// A read request.
#[derive(Debug)]
pub struct ReadPacket {
    pub filename: String,
    pub mode: Mode,
}

impl ReadPacket {
    /// The wire form of the request.
    pub open spec fn wire(&self) -> Seq<u8> {
        request_wire(OPCODE_RRQ, self.filename@, self.mode)
    }

    pub fn new(filename: String, mode: Mode) -> (res: ReadPacket)
        ensures
            res.filename == filename,
            res.mode == mode,
    {
        ReadPacket { filename, mode }
    }

    /// Reads a read request. The filename is cut down to its terminal
    /// component; a datagram is refused where it is too short, has another
    /// opcode, is not `filename NUL mode NUL`, has a filename without a
    /// terminal component, or a mode that is not known.
    pub fn parse(s: &[u8]) -> (res: Result<ReadPacket, ParseError>)
        ensures
            match spec_request(s@, OPCODE_RRQ) {
                Ok((leaf, mode)) => res matches Ok(p) && is_text_of(p.filename@, leaf) && p.mode
                    == mode,
                Err(e) => res matches Err(x) && x == e,
            },
    {
        match parse_request(s, OPCODE_RRQ) {
            Ok((filename, mode)) => Ok(ReadPacket { filename, mode }),
            Err(e) => Err(e),
        }
    }

    pub fn encode(&self) -> (res: Vec<u8>)
        ensures
            res@ == self.wire(),
    {
        encode_request(OPCODE_RRQ, self.filename.as_str(), &self.mode)
    }
}

/// The packets that open a transfer.
#[derive(Debug)]
pub enum InitialPacket {
    WRQ(WritePacket),
    RRQ(ReadPacket),
}

impl InitialPacket {
    /// The opcode under which the packet travels.
    pub open spec fn spec_opcode(&self) -> u16 {
        match self {
            InitialPacket::WRQ(_) => OPCODE_WRQ,
            InitialPacket::RRQ(_) => OPCODE_RRQ,
        }
    }

    /// The filename of the request.
    pub open spec fn spec_filename(&self) -> Seq<char> {
        match self {
            InitialPacket::WRQ(p) => p.filename@,
            InitialPacket::RRQ(p) => p.filename@,
        }
    }

    /// The mode of the request.
    pub open spec fn spec_mode(&self) -> Mode {
        match self {
            InitialPacket::WRQ(p) => p.mode,
            InitialPacket::RRQ(p) => p.mode,
        }
    }

    /// What a datagram holds as the packet that opens a transfer: the opcode
    /// of a read or a write request, the terminal component of its filename
    /// and its mode; or why it is refused.
    pub open spec fn spec_parse(s: Seq<u8>) -> Result<(u16, Seq<u8>, Mode), ParseError> {
        if s.len() < 2 {
            Err(ParseError::TooShort)
        } else if be16(s[0], s[1]) == OPCODE_RRQ || be16(s[0], s[1]) == OPCODE_WRQ {
            match spec_request(s, be16(s[0], s[1])) {
                Ok((leaf, mode)) => Ok((be16(s[0], s[1]), leaf, mode)),
                Err(e) => Err(e),
            }
        } else {
            Err(ParseError::IllegalOpcode)
        }
    }

    /// Reads the packet that opens a transfer: a read request under opcode 1, a
    /// write request under opcode 2. Any other opcode is refused.
    pub fn parse(s: &[u8]) -> (res: Result<InitialPacket, ParseError>)
        ensures
            match InitialPacket::spec_parse(s@) {
                Ok((opcode, leaf, mode)) => res matches Ok(p) && p.spec_opcode() == opcode
                    && is_text_of(p.spec_filename(), leaf) && p.spec_mode() == mode,
                Err(e) => res matches Err(x) && x == e,
            },
    {
        if s.len() < 2 {
            return Err(ParseError::TooShort);
        }
        let opcode = read_u16(s, 0);
        if opcode == OPCODE_RRQ {
            match ReadPacket::parse(s) {
                Ok(p) => Ok(InitialPacket::RRQ(p)),
                Err(e) => Err(e),
            }
        } else if opcode == OPCODE_WRQ {
            match WritePacket::parse(s) {
                Ok(p) => Ok(InitialPacket::WRQ(p)),
                Err(e) => Err(e),
            }
        } else {
            Err(ParseError::IllegalOpcode)
        }
    }
}

/// An acknowledgement of one block.
#[derive(Debug, Clone, Copy)]
pub struct ACK {
    block: u16,
}

impl View for ACK {
    type V = u16;

    /// The block that is acknowledged.
    closed spec fn view(&self) -> u16 {
        self.block
    }
}

impl ACK {
    /// The block that a datagram acknowledges, or why it is refused. Bytes
    /// behind the block number are ignored.
    pub open spec fn spec_parse(s: Seq<u8>) -> Result<u16, ParseError> {
        if s.len() < 2 {
            Err(ParseError::TooShort)
        } else if be16(s[0], s[1]) != OPCODE_ACK {
            Err(ParseError::IllegalOpcode)
        } else if s.len() < 4 {
            Err(ParseError::TooShort)
        } else {
            Ok(be16(s[2], s[3]))
        }
    }

    /// The wire form of the acknowledgement of `block`.
    pub open spec fn wire(block: u16) -> Seq<u8> {
        be_bytes(OPCODE_ACK) + be_bytes(block)
    }

    pub fn new(block: u16) -> (res: ACK)
        ensures
            res@ == block,
    {
        ACK { block }
    }

    pub fn block(&self) -> (res: u16)
        ensures
            res == self@,
    {
        self.block
    }

    pub fn parse(s: &[u8]) -> (res: Result<ACK, ParseError>)
        ensures
            match ACK::spec_parse(s@) {
                Ok(block) => res matches Ok(p) && p@ == block,
                Err(e) => res matches Err(x) && x == e,
            },
    {
        if s.len() < 2 {
            return Err(ParseError::TooShort);
        }
        if read_u16(s, 0) != OPCODE_ACK {
            return Err(ParseError::IllegalOpcode);
        }
        if s.len() < 4 {
            return Err(ParseError::TooShort);
        }
        Ok(ACK { block: read_u16(s, 2) })
    }

    pub fn encode(&self) -> (res: Vec<u8>)
        ensures
            res@ == ACK::wire(self@),
    {
        let mut res: Vec<u8> = Vec::new();
        push_u16(&mut res, OPCODE_ACK);
        push_u16(&mut res, self.block);
        assert(res@ =~= ACK::wire(self@));
        res
    }
}

/// One block of a transfer.
#[derive(Debug)]
pub struct Data {
    block: u16,
    data: Vec<u8>,
}

impl Data {
    /// The number of the block.
    pub closed spec fn spec_block(&self) -> u16 {
        self.block
    }

    /// The payload of the block.
    pub closed spec fn spec_data(&self) -> Seq<u8> {
        self.data@
    }

    /// The local bytes that a netascii payload stands for; refused where a CR
    /// is followed by a byte other than NUL and LF, or by nothing.
    pub open spec fn spec_parse_netascii(payload: Seq<u8>) -> Result<Seq<u8>, ParseError> {
        match netascii::decoded(false, payload) {
            Some((out, carry)) => if carry {
                Err(ParseError::IllegalNetascii)
            } else {
                Ok(out)
            },
            None => Err(ParseError::IllegalNetascii),
        }
    }

    /// The block number and the payload that a datagram holds, or why it is
    /// refused. Under netascii the payload is decoded.
    pub open spec fn spec_parse(s: Seq<u8>, mode: Mode) -> Result<(u16, Seq<u8>), ParseError> {
        if s.len() < 2 {
            Err(ParseError::TooShort)
        } else if be16(s[0], s[1]) != OPCODE_DATA {
            Err(ParseError::IllegalOpcode)
        } else if s.len() < 4 {
            Err(ParseError::TooShort)
        } else if s.len() - 4 > BLOCK_SIZE {
            Err(ParseError::PayloadTooLong)
        } else if mode == Mode::NETASCII {
            match Data::spec_parse_netascii(s.subrange(4, s.len() as int)) {
                Ok(out) => Ok((be16(s[2], s[3]), out)),
                Err(e) => Err(e),
            }
        } else {
            Ok((be16(s[2], s[3]), s.subrange(4, s.len() as int)))
        }
    }

    /// The payload as it goes on the wire under a mode.
    pub open spec fn wire_payload(payload: Seq<u8>, mode: Mode) -> Seq<u8> {
        if mode == Mode::NETASCII {
            netascii::encoded(payload)
        } else {
            payload
        }
    }

    /// The wire form of a block under a mode.
    pub open spec fn wire(block: u16, payload: Seq<u8>, mode: Mode) -> Seq<u8> {
        be_bytes(OPCODE_DATA) + be_bytes(block) + Data::wire_payload(payload, mode)
    }

    pub fn new(block: u16, data: &[u8]) -> (res: Data)
        ensures
            res.spec_block() == block,
            res.spec_data() == data@,
    {
        Data { block, data: slice_to_vec(data) }
    }

    pub fn block(&self) -> (res: u16)
        ensures
            res == self.spec_block(),
    {
        self.block
    }

    pub fn data(&self) -> (res: &[u8])
        ensures
            res@ == self.spec_data(),
    {
        self.data.as_slice()
    }

    /// Reads a DATA packet. Under netascii the payload is decoded; under octet
    /// it is taken as it is. A payload of more than 512 bytes is refused.
    pub fn parse(s: &[u8], mode: &Mode) -> (res: Result<Data, ParseError>)
        ensures
            match Data::spec_parse(s@, *mode) {
                Ok((block, payload)) => res matches Ok(p) && p.spec_block() == block
                    && p.spec_data() == payload,
                Err(e) => res matches Err(x) && x == e,
            },
    {
        if s.len() < 2 {
            return Err(ParseError::TooShort);
        }
        if read_u16(s, 0) != OPCODE_DATA {
            return Err(ParseError::IllegalOpcode);
        }
        if s.len() < 4 {
            return Err(ParseError::TooShort);
        }
        if s.len() - 4 > BLOCK_SIZE {
            return Err(ParseError::PayloadTooLong);
        }
        let block = read_u16(s, 2);
        let payload = slice_subrange(s, 4, s.len());
        match mode {
            Mode::NETASCII => match Data::parse_netascii(payload) {
                Ok(data) => Ok(Data { block, data }),
                Err(e) => Err(e),
            },
            Mode::OCTET => Ok(Data { block, data: slice_to_vec(payload) }),
        }
    }

    /// Decodes a netascii payload that stands alone: a CR at its end is
    /// refused, as no later chunk can resolve it.
    pub fn parse_netascii(data: &[u8]) -> (res: Result<Vec<u8>, ParseError>)
        ensures
            match Data::spec_parse_netascii(data@) {
                Ok(out) => res matches Ok(v) && v@ == out,
                Err(e) => res matches Err(x) && x == e,
            },
    {
        match netascii::decode(false, data) {
            Ok((out, carry)) => if carry {
                Err(ParseError::IllegalNetascii)
            } else {
                Ok(out)
            },
            Err(_) => Err(ParseError::IllegalNetascii),
        }
    }

    pub fn encode(&self, mode: &Mode) -> (res: Vec<u8>)
        ensures
            res@ == Data::wire(self.spec_block(), self.spec_data(), *mode),
    {
        let mut res: Vec<u8> = Vec::new();
        push_u16(&mut res, OPCODE_DATA);
        push_u16(&mut res, self.block);
        match mode {
            Mode::NETASCII => netascii::encode_into(&mut res, self.data.as_slice()),
            Mode::OCTET => push_all(&mut res, self.data.as_slice()),
        }
        assert(res@ =~= Data::wire(self.spec_block(), self.spec_data(), *mode));
        res
    }

    /// The netascii form of a payload.
    pub fn encode_netascii(data: &[u8]) -> (res: Vec<u8>)
        ensures
            res@ == netascii::encoded(data@),
    {
        netascii::encode(data)
    }
}

/// An error report.
#[derive(Debug)]
pub struct Error {
    err: TftpError,
    msg: String,
}

impl Error {
    /// The error that is reported.
    pub closed spec fn spec_err(&self) -> TftpError {
        self.err
    }

    /// The message of the report.
    pub closed spec fn spec_message(&self) -> Seq<char> {
        self.msg@
    }

    /// The error and the bytes of the message that a datagram holds, or why it
    /// is refused.
    pub open spec fn spec_parse(s: Seq<u8>) -> Result<(TftpError, Seq<u8>), ParseError> {
        if s.len() < 2 {
            Err(ParseError::TooShort)
        } else if be16(s[0], s[1]) != OPCODE_ERROR {
            Err(ParseError::IllegalOpcode)
        } else if s.len() < 4 {
            Err(ParseError::TooShort)
        } else {
            match TftpError::spec_from_u16(be16(s[2], s[3])) {
                None => Err(ParseError::IllegalErrorCode),
                Some(err) => if s.len() < 5 || s.last() != 0 {
                    Err(ParseError::IllegalFormat)
                } else {
                    Ok((err, s.subrange(4, s.len() - 1)))
                },
            }
        }
    }

    /// The wire form of a report.
    pub open spec fn wire(err: TftpError, msg: Seq<char>) -> Seq<u8> {
        be_bytes(OPCODE_ERROR) + be_bytes(err.spec_error_code()) + encode_utf8(msg) + seq![0u8]
    }

    pub fn new(err: TftpError, msg: String) -> (res: Error)
        ensures
            res.spec_err() == err,
            res.spec_message() == msg@,
    {
        Error { err, msg }
    }

    /// The report that tells a peer of a storage failure: file not found,
    /// access violation, disk full, or an undefined error, each with its
    /// message.
    pub fn report(failure: StorageFailure) -> (res: Error)
        ensures
            res.spec_err() == failure.spec_tftp_error(),
            res.spec_message() == failure.spec_message(),
    {
        Error { err: failure.tftp_error(), msg: failure.message() }
    }

    pub fn error_code(&self) -> (res: u16)
        ensures
            res == self.spec_err().spec_error_code(),
    {
        self.err.error_code()
    }

    pub fn message(&self) -> (res: &str)
        ensures
            res@ == self.spec_message(),
    {
        self.msg.as_str()
    }

    /// Reads an ERROR packet: a known error code, then a message that a NUL
    /// ends.
    pub fn parse(data: &[u8]) -> (res: Result<Error, ParseError>)
        ensures
            match Error::spec_parse(data@) {
                Ok((err, msg)) => res matches Ok(p) && p.spec_err() == err && is_text_of(
                    p.spec_message(),
                    msg,
                ),
                Err(e) => res matches Err(x) && x == e,
            },
    {
        if data.len() < 2 {
            return Err(ParseError::TooShort);
        }
        if read_u16(data, 0) != OPCODE_ERROR {
            return Err(ParseError::IllegalOpcode);
        }
        if data.len() < 4 {
            return Err(ParseError::TooShort);
        }
        match TftpError::from_u16(read_u16(data, 2)) {
            None => Err(ParseError::IllegalErrorCode),
            Some(err) => {
                if data.len() < 5 || data[data.len() - 1] != 0 {
                    return Err(ParseError::IllegalFormat);
                }
                let msg = lossy_string(slice_subrange(data, 4, data.len() - 1));
                Ok(Error { err, msg })
            },
        }
    }

    pub fn encode(&self) -> (res: Vec<u8>)
        ensures
            res@ == Error::wire(self.spec_err(), self.spec_message()),
    {
        let mut res: Vec<u8> = Vec::new();
        push_u16(&mut res, OPCODE_ERROR);
        push_u16(&mut res, self.err.error_code());
        push_all(&mut res, self.msg.as_str().as_bytes());
        res.push(0);
        assert(res@ =~= Error::wire(self.spec_err(), self.spec_message()));
        res
    }
}


/// The wire form of an acknowledgement is read as that acknowledgement.
pub proof fn lemma_ack_roundtrip(block: u16)
    ensures
        ACK::wire(block).len() == 4,
        ACK::spec_parse(ACK::wire(block)) == Ok::<u16, ParseError>(block),
{
    let w = ACK::wire(block);
    assert(w =~= seq![0u8, 4u8, (block / 256) as u8, (block % 256) as u8]);
}

/// The wire form of a block under a mode, where its payload fits a packet, is
/// read under that mode as that block.
pub proof fn lemma_data_roundtrip(block: u16, payload: Seq<u8>, mode: Mode)
    requires
        Data::wire_payload(payload, mode).len() <= BLOCK_SIZE,
    ensures
        Data::spec_parse(Data::wire(block, payload, mode), mode) == Ok::<
            (u16, Seq<u8>),
            ParseError,
        >((block, payload)),
{
    let body = Data::wire_payload(payload, mode);
    let w = Data::wire(block, payload, mode);
    let head = seq![0u8, 3u8, (block / 256) as u8, (block % 256) as u8];
    assert(w =~= head + body);
    assert(w.subrange(4, w.len() as int) =~= body);
    if mode == Mode::NETASCII {
        netascii::lemma_roundtrip(payload);
    }
}

/// The wire form of a report is read as that report: its error, and the
/// bytes that encode its message.
pub proof fn lemma_error_roundtrip(err: TftpError, msg: Seq<char>)
    ensures
        Error::spec_parse(Error::wire(err, msg)) == Ok::<(TftpError, Seq<u8>), ParseError>(
            (err, encode_utf8(msg)),
        ),
{
    let code = err.spec_error_code();
    let text = encode_utf8(msg);
    let w = Error::wire(err, msg);
    let head = seq![0u8, 5u8, (code / 256) as u8, (code % 256) as u8];
    assert(w =~= head + text + seq![0u8]);
    assert(w.last() == 0);
    assert(w.subrange(4, w.len() - 1) =~= text);
    crate::error::lemma_error_code_roundtrip(err, code);
}

/// The wire form of a request is read as that request, where its filename is
/// a single component of a path and holds no NUL.
pub proof fn lemma_request_roundtrip(opcode: u16, filename: Seq<char>, mode: Mode)
    requires
        is_leaf(encode_utf8(filename)),
        forall|i: int| 0 <= i < encode_utf8(filename).len() ==> encode_utf8(filename)[i] != 0,
    ensures
        spec_request(request_wire(opcode, filename, mode), opcode) == Ok::<
            (Seq<u8>, Mode),
            ParseError,
        >((encode_utf8(filename), mode)),
{
    let name = encode_utf8(filename);
    let m = mode.wire();
    let w = request_wire(opcode, filename, mode);
    let head = seq![(opcode / 256) as u8, (opcode % 256) as u8];
    assert(w =~= head + name + seq![0u8] + m + seq![0u8]);
    let body = w.subrange(2, w.len() as int);
    assert(body =~= name + seq![0u8] + m + seq![0u8]);
    let z1 = name.len() as int;
    let z2 = z1 + 1 + m.len();
    lemma_first_nul_is(body, 0, z1);
    lemma_mode_roundtrip(mode);
    lemma_first_nul_bounds(m, 0);
    assert forall|j: int| z1 + 1 <= j < z2 implies body[j] != 0 by {
        assert(body[j] == m[j - z1 - 1]);
    }
    lemma_first_nul_is(body, z1 + 1, z2);
    assert(body.subrange(0, z1) =~= name);
    assert(body.subrange(z1 + 1, z2) =~= m);
    lemma_leaf_name_of_leaf(name);
}

} // verus!
