//! The file adapter: what lies between a local file and the 512-byte blocks of
//! a transfer. It holds no file handle. On the read side a caller hands it
//! what was read from the file and takes blocks out; on the write side a
//! caller hands it payloads and takes out what is to be appended to the file.
//! Under netascii it translates in both directions.

use crate::error::TftpError;
use crate::netascii;
use crate::packet::{Mode, BLOCK_SIZE};
use vstd::prelude::*;
use vstd::slice::slice_to_vec;

verus! {

/// The adapter of one file.
pub struct File {
    read_buf: Vec<u8>,
    carry: bool,
    mode: Mode,
    at_end: bool,
    is_finished: bool,
}

/// What an adapter holds.
pub struct FileView {
    /// The mode of the transfer.
    pub mode: Mode,
    /// Read side: the bytes in wire form that no block has taken yet.
    pub pending: Seq<u8>,
    /// Read side: the end of the file was seen.
    pub at_end: bool,
    /// Read side: the block that ends the stream was handed out.
    pub finished: bool,
    /// Write side: the last payload ended in a CR that nothing resolved yet.
    pub carry: bool,
}

/// The wire form of file content under a mode.
pub open spec fn stream(mode: Mode, content: Seq<u8>) -> Seq<u8> {
    if mode == Mode::NETASCII {
        netascii::encoded(content)
    } else {
        content
    }
}

/// The file content that a payload stands for under a mode, and whether the
/// payload ends in an unresolved CR. `carry` says that the payload before it
/// did. `None` where the payload is not netascii.
pub open spec fn written(mode: Mode, carry: bool, payload: Seq<u8>) -> Option<(Seq<u8>, bool)> {
    if mode == Mode::NETASCII {
        netascii::decoded(carry, payload)
    } else {
        Some((payload, carry))
    }
}

/// What is left to write when the stream ends: a CR that nothing resolved.
pub open spec fn flushed(carry: bool) -> Seq<u8> {
    if carry {
        seq![netascii::CR]
    } else {
        Seq::empty()
    }
}

/// The blocks that carry a stream: blocks of 512 bytes, then one shorter
/// block, which may be empty.
pub open spec fn blocks(s: Seq<u8>) -> Seq<Seq<u8>>
    decreases s.len(),
{
    if s.len() < BLOCK_SIZE {
        seq![s]
    } else {
        seq![s.take(BLOCK_SIZE as int)] + blocks(s.skip(BLOCK_SIZE as int))
    }
}

/// The content of a sequence of chunks, one after the other.
pub open spec fn joined(chunks: Seq<Seq<u8>>) -> Seq<u8>
    decreases chunks.len(),
{
    if chunks.len() == 0 {
        Seq::empty()
    } else {
        joined(chunks.drop_last()) + chunks.last()
    }
}

/// The file content that a sequence of payloads stands for when they are
/// written one by one, and the carry after the last.
pub open spec fn written_all(mode: Mode, payloads: Seq<Seq<u8>>) -> Option<(Seq<u8>, bool)>
    decreases payloads.len(),
{
    if payloads.len() == 0 {
        Some((Seq::empty(), false))
    } else {
        match written_all(mode, payloads.drop_last()) {
            None => None,
            Some((out, carry)) => match written(mode, carry, payloads.last()) {
                None => None,
                Some((more, c)) => Some((out + more, c)),
            },
        }
    }
}

impl FileView {
    /// More of the file is needed before the next block can be handed out.
    pub open spec fn needs_input(self) -> bool {
        !self.finished && !self.at_end && self.pending.len() < BLOCK_SIZE
    }

    /// The next block, where one can be handed out: 512 bytes as soon as they
    /// are there; what is left, once, after the end of the file.
    pub open spec fn next_block(self) -> Option<Seq<u8>> {
        if self.finished {
            None
        } else if self.pending.len() >= BLOCK_SIZE {
            Some(self.pending.take(BLOCK_SIZE as int))
        } else if self.at_end {
            Some(self.pending)
        } else {
            None
        }
    }

    /// The adapter after the next block was handed out.
    pub open spec fn after_block(self) -> FileView {
        if self.finished {
            self
        } else if self.pending.len() >= BLOCK_SIZE {
            FileView { pending: self.pending.skip(BLOCK_SIZE as int), ..self }
        } else if self.at_end {
            FileView { pending: Seq::empty(), finished: true, ..self }
        } else {
            self
        }
    }

    /// The adapter after it was handed `chunk`, read from the file. An empty
    /// chunk stands for the end of the file.
    pub open spec fn after_input(self, chunk: Seq<u8>) -> FileView {
        FileView {
            pending: self.pending + stream(self.mode, chunk),
            at_end: self.at_end || chunk.len() == 0,
            ..self
        }
    }

    /// All the blocks that the adapter hands out once the end of the file was
    /// seen.
    pub open spec fn drained(self) -> Seq<Seq<u8>>
        decreases self.pending.len(), (if self.finished { 0int } else { 1int }),
    {
        if self.finished || !self.at_end {
            Seq::empty()
        } else {
            seq![self.next_block().unwrap()] + self.after_block().drained()
        }
    }
}

impl View for File {
    type V = FileView;

    closed spec fn view(&self) -> FileView {
        FileView {
            mode: self.mode,
            pending: self.read_buf@,
            at_end: self.at_end,
            finished: self.is_finished,
            carry: self.carry,
        }
    }
}

impl File {
    /// An adapter that has seen nothing of its file yet.
    pub fn new(mode: Mode) -> (res: File)
        ensures
            res@ == (FileView {
                mode,
                pending: Seq::empty(),
                at_end: false,
                finished: false,
                carry: false,
            }),
    {
        File { read_buf: Vec::new(), carry: false, mode, at_end: false, is_finished: false }
    }

    pub fn mode(&self) -> (res: Mode)
        ensures
            res == self@.mode,
    {
        self.mode
    }

    /// True until the block that ends the stream was handed out.
    pub fn has_next(&self) -> (res: bool)
        ensures
            res == !self@.finished,
    {
        !self.is_finished
    }

    /// Whether more of the file must be handed in before the next block can
    /// be taken out.
    pub fn needs_input(&self) -> (res: bool)
        ensures
            res == self@.needs_input(),
    {
        !self.is_finished && !self.at_end && self.read_buf.len() < BLOCK_SIZE
    }

    /// Takes in what was read from the file, in wire form; an empty chunk
    /// stands for the end of the file. Returns by how many bytes the pending
    /// stream grew.
    pub fn read_data_from_inner(&mut self, chunk: &[u8]) -> (res: usize)
        ensures
            final(self)@ == old(self)@.after_input(chunk@),
            res == stream(old(self)@.mode, chunk@).len(),
    {
        let initial_len = self.read_buf.len();
        if chunk.len() == 0 {
            self.at_end = true;
        }
        match self.mode {
            Mode::NETASCII => netascii::encode_into(&mut self.read_buf, chunk),
            Mode::OCTET => {
                let mut i: usize = 0;
                while i < chunk.len()
                    invariant
                        i <= chunk.len(),
                        self.read_buf@ == old(self).read_buf@ + chunk@.take(i as int),
                        self.mode == old(self).mode,
                        self.carry == old(self).carry,
                        self.is_finished == old(self).is_finished,
                        self.at_end == (old(self).at_end || chunk@.len() == 0),
                    decreases chunk.len() - i,
                {
                    self.read_buf.push(chunk[i]);
                    i += 1;
                    assert(self.read_buf@ =~= old(self).read_buf@ + chunk@.take(i as int));
                }
                assert(chunk@.take(i as int) =~= chunk@);
            },
        }
        self.read_buf.len() - initial_len
    }

    /// Hands out the next block: 512 bytes as soon as that many are pending;
    /// after the end of the file what is left, which is shorter and ends the
    /// stream. `None`, and nothing changed, where more input is needed first or
    /// the stream has ended.
    pub fn next_block(&mut self) -> (res: Option<Vec<u8>>)
        ensures
            match old(self)@.next_block() {
                Some(block) => res matches Some(b) && b@ == block,
                None => res is None,
            },
            final(self)@ == old(self)@.after_block(),
    {
        if self.is_finished {
            return None;
        }
        if self.read_buf.len() >= BLOCK_SIZE {
            let mut block = self.read_buf.split_off(BLOCK_SIZE);
            core::mem::swap(&mut self.read_buf, &mut block);
            assert(block@ =~= old(self).read_buf@.take(BLOCK_SIZE as int));
            assert(self.read_buf@ =~= old(self).read_buf@.skip(BLOCK_SIZE as int));
            Some(block)
        } else if self.at_end {
            let mut block: Vec<u8> = Vec::new();
            core::mem::swap(&mut self.read_buf, &mut block);
            self.is_finished = true;
            Some(block)
        } else {
            None
        }
    }

    /// Takes in one payload and returns what is to be appended to the file:
    /// the payload itself under octet, its decoding under netascii, where a CR
    /// at the end of the payload is held back until the next payload resolves
    /// it. Fails with an illegal operation, and changes nothing, where a CR is
    /// followed by a byte other than NUL and LF.
    pub fn write(&mut self, data: &[u8]) -> (res: Result<Vec<u8>, TftpError>)
        ensures
            match written(old(self)@.mode, old(self)@.carry, data@) {
                Some((out, carry)) => res matches Ok(v) && v@ == out && final(self)@ == (FileView {
                    carry,
                    ..old(self)@
                }),
                None => res matches Err(e) && e == TftpError::IllegalTftpOp && final(self)@ == old(
                    self,
                )@,
            },
    {
        match self.mode {
            Mode::OCTET => Ok(slice_to_vec(data)),
            Mode::NETASCII => match netascii::decode(self.carry, data) {
                Ok((out, carry)) => {
                    self.carry = carry;
                    Ok(out)
                },
                Err(e) => Err(e),
            },
        }
    }

    /// Ends the writing: returns the CR that was held back, if any, to be
    /// appended to the file.
    pub fn flush(&mut self) -> (res: Vec<u8>)
        ensures
            res@ == flushed(old(self)@.carry),
            final(self)@ == (FileView { carry: false, ..old(self)@ }),
    {
        let mut res: Vec<u8> = Vec::new();
        if self.carry {
            res.push(netascii::CR);
            self.carry = false;
        }
        assert(res@ =~= flushed(old(self)@.carry));
        res
    }
}

/// A stream of `n` bytes goes out in `n / 512 + 1` blocks: each but the last
/// holds 512 bytes, and the last holds the `n % 512` that are left, which may
/// be none.
pub proof fn lemma_blocks_count(s: Seq<u8>)
    ensures
        blocks(s).len() == s.len() / BLOCK_SIZE as nat + 1,
        forall|i: int| 0 <= i < blocks(s).len() - 1 ==> (#[trigger] blocks(s)[i]).len() == BLOCK_SIZE,
        blocks(s).last().len() == s.len() % BLOCK_SIZE as nat,
    decreases s.len(),
{
    if s.len() >= BLOCK_SIZE {
        let rest = s.skip(BLOCK_SIZE as int);
        lemma_blocks_count(rest);
        let head = seq![s.take(BLOCK_SIZE as int)];
        assert(blocks(s) == head + blocks(rest));
        assert(blocks(s).last() == blocks(rest).last());
        assert forall|i: int| 0 <= i < blocks(s).len() - 1 implies (#[trigger] blocks(s)[i]).len()
            == BLOCK_SIZE by {
            if i > 0 {
                assert(blocks(s)[i] == blocks(rest)[i - 1]);
            }
        }
    }
}

/// The blocks of a stream, one after the other, are the stream.
pub proof fn lemma_blocks_joined(s: Seq<u8>)
    ensures
        joined(blocks(s)) == s,
    decreases s.len(),
{
    if s.len() < BLOCK_SIZE {
        lemma_joined_push_front(s, Seq::empty());
        assert(seq![s] + Seq::<Seq<u8>>::empty() =~= seq![s]);
        assert(s + joined(Seq::<Seq<u8>>::empty()) =~= s);
    } else {
        let head = s.take(BLOCK_SIZE as int);
        let rest = s.skip(BLOCK_SIZE as int);
        lemma_blocks_joined(rest);
        lemma_joined_push_front(head, blocks(rest));
        assert(head + rest =~= s);
    }
}

proof fn lemma_joined_push_front(head: Seq<u8>, chunks: Seq<Seq<u8>>)
    ensures
        joined(seq![head] + chunks) == head + joined(chunks),
    decreases chunks.len(),
{
    let all = seq![head] + chunks;
    if chunks.len() == 0 {
        assert(all.drop_last() =~= Seq::<Seq<u8>>::empty());
        assert(all.last() == head);
        assert(joined(all.drop_last()) =~= Seq::<u8>::empty());
        assert(joined(chunks) =~= Seq::<u8>::empty());
        assert(joined(all) =~= head + joined(chunks));
    } else {
        assert(all.drop_last() =~= seq![head] + chunks.drop_last());
        assert(all.last() == chunks.last());
        lemma_joined_push_front(head, chunks.drop_last());
        assert((head + joined(chunks.drop_last())) + chunks.last() =~= head + (joined(
            chunks.drop_last(),
        ) + chunks.last()));
    }
}

/// Once the end of the file was seen, the blocks that an adapter hands out
/// until it has finished are the blocks of its pending stream.
pub proof fn lemma_drained_is_blocks(v: FileView)
    requires
        v.at_end,
        !v.finished,
    ensures
        v.drained() == blocks(v.pending),
    decreases v.pending.len(),
{
    let next = v.after_block();
    if v.pending.len() >= BLOCK_SIZE {
        lemma_drained_is_blocks(next);
    } else {
        assert(next.drained() =~= Seq::<Seq<u8>>::empty());
        assert(v.drained() =~= blocks(v.pending));
    }
}

/// Handing in a file chunk by chunk leaves pending what handing it in at once
/// leaves.
pub proof fn lemma_input_in_chunks(v: FileView, a: Seq<u8>, b: Seq<u8>)
    ensures
        v.after_input(a).after_input(b).pending == v.after_input(a + b).pending,
{
    if v.mode == Mode::NETASCII {
        netascii::lemma_encoded_concat(a, b);
    }
    assert(v.after_input(a).after_input(b).pending =~= v.after_input(a + b).pending);
}

/// Payloads written one by one give the file what their content, joined and
/// written as one, gives it.
pub proof fn lemma_written_all_is_joined(mode: Mode, payloads: Seq<Seq<u8>>)
    ensures
        written_all(mode, payloads) == written(mode, false, joined(payloads)),
    decreases payloads.len(),
{
    if payloads.len() > 0 {
        let head = payloads.drop_last();
        lemma_written_all_is_joined(mode, head);
        if mode == Mode::NETASCII {
            netascii::lemma_decoded_concat(false, joined(head), payloads.last());
        }
    }
}

/// A file sent under a mode and written back under the same mode is the file:
/// the blocks of its stream, written one by one, give its content, and leave
/// no CR unresolved.
pub proof fn lemma_transfer_roundtrip(mode: Mode, content: Seq<u8>)
    ensures
        written_all(mode, blocks(stream(mode, content))) == Some((content, false)),
{
    let s = stream(mode, content);
    lemma_written_all_is_joined(mode, blocks(s));
    lemma_blocks_joined(s);
    if mode == Mode::NETASCII {
        netascii::lemma_roundtrip(content);
    }
}

} // verus!
