//! Names for staging files: the seconds of the epoch, a hyphen, and seven
//! lower-case letters picked at random.

use crate::text::{ascii_text, is_ascii_bytes, lemma_ascii_text, lossy_string};
use rand::seq::IteratorRandom;
use vstd::prelude::*;

verus! {

/// How many letters end a name.
pub const LETTERS: usize = 7;

pub const HYPHEN: u8 = 0x2D;

/// A number in decimal digits, without leading zeros.
pub open spec fn decimal(n: nat) -> Seq<u8>
    decreases n,
{
    if n < 10 {
        seq![(0x30 + n) as u8]
    } else {
        decimal(n / 10) + seq![(0x30 + n % 10) as u8]
    }
}

/// Whether every byte is a lower-case ASCII letter.
pub open spec fn are_lower_letters(s: Seq<u8>) -> bool {
    forall|i: int| 0 <= i < s.len() ==> 0x61 <= #[trigger] s[i] <= 0x7A
}

/// The bytes of the name made of a number of seconds and of letters.
pub open spec fn name_bytes(epoch_seconds: u64, letters: Seq<u8>) -> Seq<u8> {
    decimal(epoch_seconds as nat) + seq![HYPHEN] + letters
}

/// `IteratorRandom::choose_multiple` of the rand crate, on the letters from
/// `a` to `z`, with the thread's generator and an amount of 7. It returns as
/// many items as asked for where the iterator has that many, here 26, and
/// each is an item of the iterator. Which letters come, and in what order, is
/// left open.
#[verifier::external_body]
fn random_letters() -> (res: Vec<u8>)
    ensures
        res@.len() == LETTERS,
        are_lower_letters(res@),
{
    ('a'..='z').choose_multiple(&mut rand::thread_rng(), 7).into_iter().map(|c| c as u8).collect()
}

/// The decimal digits of a number.
pub fn decimal_digits(n: u64) -> (res: Vec<u8>)
    ensures
        res@ == decimal(n as nat),
    decreases n,
{
    if n < 10 {
        let mut res: Vec<u8> = Vec::new();
        res.push(0x30 + n as u8);
        assert(res@ =~= decimal(n as nat));
        res
    } else {
        let mut res = decimal_digits(n / 10);
        res.push(0x30 + (n % 10) as u8);
        assert(res@ =~= decimal(n as nat));
        res
    }
}

/// The name made of a number of seconds and of letters: the seconds in
/// decimal, a hyphen, the letters.
pub fn compose_name(epoch_seconds: u64, letters: &[u8]) -> (res: Vec<u8>)
    ensures
        res@ == name_bytes(epoch_seconds, letters@),
{
    let mut res = decimal_digits(epoch_seconds);
    res.push(HYPHEN);
    let mut i: usize = 0;
    while i < letters.len()
        invariant
            i <= letters.len(),
            res@ == decimal(epoch_seconds as nat) + seq![HYPHEN] + letters@.take(i as int),
        decreases letters.len() - i,
    {
        res.push(letters[i]);
        i += 1;
        assert(res@ =~= decimal(epoch_seconds as nat) + seq![HYPHEN] + letters@.take(i as int));
    }
    assert(letters@.take(i as int) =~= letters@);
    res
}

/// The decimal form of a number holds digits only.
pub proof fn lemma_decimal_is_digits(n: nat)
    ensures
        decimal(n).len() >= 1,
        forall|i: int| 0 <= i < decimal(n).len() ==> 0x30 <= #[trigger] decimal(n)[i] <= 0x39,
    decreases n,
{
    if n >= 10 {
        lemma_decimal_is_digits(n / 10);
    }
}

/// A fresh name for a staging file: the given seconds of the epoch in
/// decimal, a hyphen, and seven lower-case letters picked at random. Two calls
/// may differ; what holds of every outcome is the shape of the name.
pub fn generate_random_name(epoch_seconds: u64) -> (res: String)
    ensures
        exists|letters: Seq<u8>|
            letters.len() == LETTERS && are_lower_letters(letters) && res@ == ascii_text(
                #[trigger] name_bytes(epoch_seconds, letters),
            ),
{
    let letters = random_letters();
    let bytes = compose_name(epoch_seconds, letters.as_slice());
    let res = lossy_string(bytes.as_slice());
    proof {
        lemma_decimal_is_digits(epoch_seconds as nat);
        let digits = decimal(epoch_seconds as nat);
        assert forall|i: int| 0 <= i < bytes@.len() implies #[trigger] bytes@[i] < 0x80 by {
            if i < digits.len() {
                assert(bytes@[i] == digits[i]);
            } else if i > digits.len() {
                assert(bytes@[i] == letters@[i - digits.len() - 1]);
            }
        }
        assert(is_ascii_bytes(bytes@));
        lemma_ascii_text(res@, bytes@);
        assert(res@ == ascii_text(name_bytes(epoch_seconds, letters@)));
    }
    res
}

} // verus!
