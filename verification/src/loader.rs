// Program images: a flat file of big-endian 32-bit instruction words.
use vstd::prelude::*;
use vstd::string::StringExecFns;

use crate::bytes::{be_word, read_be_u32};

verus! {

/// The big-endian words of `bytes`, four bytes each.
pub open spec fn be_words(bytes: Seq<u8>) -> Seq<u32> {
    Seq::new(bytes.len() / 4, |i: int| be_word(bytes, 4 * i))
}

/// The message for an image whose size is not a whole number of words.
pub open spec fn ragged_image_message(filename: Seq<char>) -> Seq<char> {
    "Binary file size must be multiple of 4 bytes: "@ + filename
}

/// The program words of the image `bytes` read from `filename`; refused
/// when its size is not a multiple of four.
pub fn decode_binary(filename: &str, bytes: &Vec<u8>) -> (r: Result<Vec<u32>, String>)
    ensures
        match r {
            Ok(words) => bytes@.len() % 4 == 0 && words@ == be_words(bytes@),
            Err(e) => bytes@.len() % 4 != 0 && e@ == ragged_image_message(filename@),
        },
{
    if bytes.len() % 4 != 0 {
        let mut e = String::from_str("Binary file size must be multiple of 4 bytes: ");
        e.append(filename);
        return Err(e);
    }
    let n = bytes.len() / 4;
    let mut words: Vec<u32> = Vec::new();
    let mut i: usize = 0;
    while i < n
        invariant
            i <= n,
            n == bytes@.len() / 4,
            bytes@.len() % 4 == 0,
            words@ == be_words(bytes@).subrange(0, i as int),
        decreases n - i,
    {
        let len = bytes.len();
        assert(4 * i + 4 <= len) by (nonlinear_arith)
            requires
                i < n,
                n == len / 4,
        ;
        let w = read_be_u32(bytes, 4 * i);
        words.push(w);
        i = i + 1;
        assert(words@ =~= be_words(bytes@).subrange(0, i as int));
    }
    assert(be_words(bytes@).subrange(0, n as int) =~= be_words(bytes@));
    Ok(words)
}

} // verus!
