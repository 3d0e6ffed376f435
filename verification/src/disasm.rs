//! Listing the first instructions at an address.

use crate::ptr::Uintptr;
use vstd::prelude::*;

verus! {

/// The text that `disarm64` formats an instruction word as, where it decodes one.
pub uninterp spec fn instruction_text(word: u32) -> Option<Seq<char>>;

/// `disarm64::decoder::decode`, with the decoded instruction formatted by its
/// `Display` implementation; `None` where the word decodes to no instruction.
#[verifier::external_body]
pub fn decode_instruction(word: u32) -> (r: Option<String>)
    ensures
        match r {
            Some(s) => instruction_text(word) == Some(s@),
            None => instruction_text(word) is None,
        },
{
    disarm64::decoder::decode(word).map(|op| format!("{op}"))
}

/// Each of the eight words that start at `start`, with its address (`start`
/// plus four bytes per word, wrapping) and its decoded text, if any.
pub fn disassemble(start: Uintptr, words: &[u32; 8]) -> (r: Vec<(Uintptr, u32, Option<String>)>)
    ensures
        r@.len() == 8,
        forall|i: int|
            0 <= i < 8 ==> {
                &&& (#[trigger] r@[i]).0 == start.displaced(4 * i)
                &&& r@[i].1 == words[i]
                &&& (r@[i].2 matches Some(s) ==> instruction_text(words[i]) == Some(s@))
                &&& (r@[i].2 is None <==> instruction_text(words[i]) is None)
            },
{
    let mut r: Vec<(Uintptr, u32, Option<String>)> = Vec::new();
    let mut i: usize = 0;
    while i < 8
        invariant
            0 <= i <= 8,
            r@.len() == i,
            forall|j: int|
                0 <= j < i ==> {
                    &&& (#[trigger] r@[j]).0 == start.displaced(4 * j)
                    &&& r@[j].1 == words[j]
                    &&& (r@[j].2 matches Some(s) ==> instruction_text(words[j]) == Some(s@))
                    &&& (r@[j].2 is None <==> instruction_text(words[j]) is None)
                },
        decreases 8 - i,
    {
        let word = words[i];
        let text = decode_instruction(word);
        r.push((start + i * 4, word, text));
        i = i + 1;
    }
    r
}

} // verus!
