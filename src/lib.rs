//! An assembler for a small fantasy-console instruction set, and the
//! cartridge format that carries its programs.
use vstd::prelude::*;

pub mod optable;
pub mod symbols;
pub mod literal;
pub mod ops;
pub mod lexer;
pub mod memmap;
pub mod parser;
pub mod cartridge;

verus! {

/// Copies as much of `src` as fits to the front of `dest`, and returns how
/// many bytes that was.
pub fn bounded_copy(dest: &mut [u8], src: &[u8]) -> (r: usize)
    ensures
        r == if old(dest)@.len() < src@.len() {
            old(dest)@.len()
        } else {
            src@.len()
        },
        final(dest)@ == src@.take(r as int) + old(dest)@.skip(r as int),
{
    let ncopy = if dest.len() < src.len() {
        dest.len()
    } else {
        src.len()
    };
    let mut i: usize = 0;
    while i < ncopy
        invariant
            0 <= i <= ncopy,
            ncopy <= src@.len(),
            ncopy <= dest@.len(),
            dest@.len() == old(dest)@.len(),
            dest@ == src@.take(i as int) + old(dest)@.skip(i as int),
        decreases ncopy - i,
    {
        dest[i] = src[i];
        i = i + 1;
        assert(dest@ =~= src@.take(i as int) + old(dest)@.skip(i as int));
    }
    ncopy
}

} // verus!
