//! The netascii translator: local bytes to netascii and back, resumable at
//! any chunk boundary.

use crate::error::TftpError;
use vstd::prelude::*;

verus! {

pub const NUL: u8 = 0x00;

pub const LF: u8 = 0x0A;

pub const CR: u8 = 0x0D;

/// The netascii form of one local byte.
pub open spec fn encoded_byte(b: u8) -> Seq<u8> {
    if b == CR {
        seq![CR, NUL]
    } else if b == LF {
        seq![CR, LF]
    } else {
        seq![b]
    }
}

/// The netascii form of a run of local bytes.
pub open spec fn encoded(s: Seq<u8>) -> Seq<u8>
    decreases s.len(),
{
    if s.len() == 0 {
        Seq::empty()
    } else {
        encoded(s.drop_last()) + encoded_byte(s.last())
    }
}

/// What one netascii byte decodes to, and whether it leaves a CR unresolved.
/// `carry` says that the byte before it was an unresolved CR. `None` where the
/// byte may not follow a CR.
pub open spec fn decoded_byte(carry: bool, b: u8) -> Option<(Seq<u8>, bool)> {
    if carry {
        if b == NUL {
            Some((seq![CR], false))
        } else if b == LF {
            Some((seq![LF], false))
        } else {
            None
        }
    } else if b == CR {
        Some((Seq::empty(), true))
    } else {
        Some((seq![b], false))
    }
}

/// The local bytes that a chunk of netascii decodes to, and whether the chunk
/// ends in an unresolved CR. `carry` says that the chunk before it did.
/// `None` where a CR is followed by a byte other than NUL and LF.
pub open spec fn decoded(carry: bool, s: Seq<u8>) -> Option<(Seq<u8>, bool)>
    decreases s.len(),
{
    if s.len() == 0 {
        Some((Seq::empty(), carry))
    } else {
        match decoded(carry, s.drop_last()) {
            None => None,
            Some((out, c)) => match decoded_byte(c, s.last()) {
                None => None,
                Some((o, c2)) => Some((out + o, c2)),
            },
        }
    }
}

/// Decoding two chunks in turn, the second with the carry of the first.
pub open spec fn decoded_in_turn(carry: bool, a: Seq<u8>, b: Seq<u8>) -> Option<(Seq<u8>, bool)> {
    match decoded(carry, a) {
        None => None,
        Some((o1, c1)) => match decoded(c1, b) {
            None => None,
            Some((o2, c2)) => Some((o1 + o2, c2)),
        },
    }
}

/// Appends the netascii form of `data` to `buf`.
pub fn encode_into(buf: &mut Vec<u8>, data: &[u8])
    ensures
        final(buf)@ == old(buf)@ + encoded(data@),
{
    let ghost before = buf@;
    let mut i: usize = 0;
    while i < data.len()
        invariant
            i <= data.len(),
            buf@ == before + encoded(data@.take(i as int)),
        decreases data.len() - i,
    {
        let x: u8 = data[i];
        proof {
            let next = data@.take(i + 1);
            assert(next.drop_last() =~= data@.take(i as int));
            assert(next.last() == x);
        }
        if x == CR {
            buf.push(CR);
            buf.push(NUL);
        } else if x == LF {
            buf.push(CR);
            buf.push(LF);
        } else {
            buf.push(x);
        }
        i += 1;
        assert(buf@ =~= before + encoded(data@.take(i as int)));
    }
    assert(data@.take(i as int) =~= data@);
}

/// The netascii form of `data`.
pub fn encode(data: &[u8]) -> (res: Vec<u8>)
    ensures
        res@ == encoded(data@),
{
    let mut res: Vec<u8> = Vec::new();
    encode_into(&mut res, data);
    assert(res@ =~= encoded(data@));
    res
}

/// Decodes one chunk of netascii. `carry` says that the chunk before it ended
/// in an unresolved CR; the second component of the result says the same of
/// this chunk. Fails with an illegal operation exactly where a CR is followed
/// by a byte other than NUL and LF.
pub fn decode(carry: bool, data: &[u8]) -> (res: Result<(Vec<u8>, bool), TftpError>)
    ensures
        res is Ok <==> decoded(carry, data@) is Some,
        res matches Ok(r) ==> decoded(carry, data@) == Some((r.0@, r.1)),
        res matches Err(e) ==> e == TftpError::IllegalTftpOp,
{
    let mut out: Vec<u8> = Vec::new();
    let mut pending: bool = carry;
    let mut i: usize = 0;
    while i < data.len()
        invariant
            i <= data.len(),
            decoded(carry, data@.take(i as int)) == Some((out@, pending)),
        decreases data.len() - i,
    {
        let x: u8 = data[i];
        proof {
            let next = data@.take(i + 1);
            assert(next.drop_last() =~= data@.take(i as int));
            assert(next.last() == x);
        }
        if pending {
            if x == NUL {
                out.push(CR);
                pending = false;
            } else if x == LF {
                out.push(LF);
                pending = false;
            } else {
                proof {
                    lemma_decoded_prefix_fails(carry, data@, i + 1);
                }
                return Err(TftpError::IllegalTftpOp);
            }
        } else if x == CR {
            pending = true;
        } else {
            out.push(x);
        }
        i += 1;
        proof {
            assert(decoded(carry, data@.take(i as int)).unwrap().0 =~= out@);
        }
    }
    assert(data@.take(i as int) =~= data@);
    Ok((out, pending))
}

/// Once a prefix of a chunk fails to decode, the chunk fails.
pub proof fn lemma_decoded_prefix_fails(carry: bool, s: Seq<u8>, k: int)
    requires
        0 <= k <= s.len(),
        decoded(carry, s.take(k)) is None,
    ensures
        decoded(carry, s) is None,
    decreases s.len() - k,
{
    if k < s.len() {
        assert(s.take(k + 1).drop_last() =~= s.take(k));
        lemma_decoded_prefix_fails(carry, s, k + 1);
    } else {
        assert(s.take(k) =~= s);
    }
}

/// The translator is resumable: a stream cut in two at any place decodes, chunk
/// after chunk with the carry handed on, to what it decodes to in one piece.
pub proof fn lemma_decoded_concat(carry: bool, a: Seq<u8>, b: Seq<u8>)
    ensures
        decoded(carry, a + b) == decoded_in_turn(carry, a, b),
    decreases b.len(),
{
    if b.len() == 0 {
        assert(a + b =~= a);
        if let Some((o1, c1)) = decoded(carry, a) {
            assert(o1 + Seq::<u8>::empty() =~= o1);
        }
    } else {
        assert((a + b).drop_last() =~= a + b.drop_last());
        assert((a + b).last() == b.last());
        lemma_decoded_concat(carry, a, b.drop_last());
        if let Some((o1, c1)) = decoded(carry, a) {
            if let Some((o2, c2)) = decoded(c1, b.drop_last()) {
                if let Some((o, c3)) = decoded_byte(c2, b.last()) {
                    assert((o1 + o2) + o =~= o1 + (o2 + o));
                }
            }
        }
    }
}

/// Encoding goes byte by byte: the netascii form of two runs, one after the
/// other, is the two forms one after the other.
pub proof fn lemma_encoded_concat(a: Seq<u8>, b: Seq<u8>)
    ensures
        encoded(a + b) == encoded(a) + encoded(b),
    decreases b.len(),
{
    if b.len() == 0 {
        assert(a + b =~= a);
        assert(encoded(a) + encoded(b) =~= encoded(a));
    } else {
        assert((a + b).drop_last() =~= a + b.drop_last());
        assert((a + b).last() == b.last());
        lemma_encoded_concat(a, b.drop_last());
        assert((encoded(a) + encoded(b.drop_last())) + encoded_byte(b.last()) =~= encoded(a) + (
        encoded(b.drop_last()) + encoded_byte(b.last())));
    }
}

/// The netascii form of a run is at least as long as the run and at most twice
/// as long.
pub proof fn lemma_encoded_len(s: Seq<u8>)
    ensures
        s.len() <= encoded(s).len() <= 2 * s.len(),
    decreases s.len(),
{
    if s.len() > 0 {
        lemma_encoded_len(s.drop_last());
    }
}

/// Round trip: the netascii form of any run of bytes decodes to that run, and
/// leaves no CR unresolved.
pub proof fn lemma_roundtrip(x: Seq<u8>)
    ensures
        decoded(false, encoded(x)) == Some((x, false)),
    decreases x.len(),
{
    if x.len() > 0 {
        let head = x.drop_last();
        let tail = encoded_byte(x.last());
        lemma_roundtrip(head);
        lemma_decoded_concat(false, encoded(head), tail);
        lemma_decoded_pair(x.last());
        assert(head + seq![x.last()] =~= x);
    }
}

/// The netascii form of one byte decodes to that byte.
proof fn lemma_decoded_pair(b: u8)
    ensures
        decoded(false, encoded_byte(b)) == Some((seq![b], false)),
{
    let e = encoded_byte(b);
    if e.len() == 2 {
        assert(e.drop_last() =~= seq![CR]);
        assert(e.drop_last().drop_last() =~= Seq::<u8>::empty());
        assert(decoded(false, e.drop_last().drop_last()) == Some((Seq::<u8>::empty(), false)));
        assert(decoded(false, e.drop_last()).unwrap().0 =~= Seq::<u8>::empty());
        assert(decoded(false, e.drop_last()) == Some((Seq::<u8>::empty(), true)));
        assert(decoded(false, e).unwrap().0 =~= seq![b]);
    } else {
        assert(e.drop_last() =~= Seq::<u8>::empty());
        assert(decoded(false, e.drop_last()) == Some((Seq::<u8>::empty(), false)));
        assert(decoded(false, e).unwrap().0 =~= seq![b]);
    }
}

/// Round trip across a chunk boundary: cut the netascii form of a run at any
/// place, also between a CR and the byte that resolves it, and the two chunks
/// decode in turn to the run.
pub proof fn lemma_roundtrip_in_two_chunks(x: Seq<u8>, cut: int)
    requires
        0 <= cut <= encoded(x).len(),
    ensures
        decoded_in_turn(false, encoded(x).take(cut), encoded(x).skip(cut)) == Some((x, false)),
{
    let e = encoded(x);
    assert(e.take(cut) + e.skip(cut) =~= e);
    lemma_decoded_concat(false, e.take(cut), e.skip(cut));
    lemma_roundtrip(x);
}

} // verus!
