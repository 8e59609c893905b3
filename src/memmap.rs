use vstd::prelude::*;
use crate::ops::{ConstModel, Constants, ImmVal, ImmValView};

verus! {

/// Number of memory-mapped I/O names.
pub const MEMMAP_COUNT: usize = 30;

/// The memory-mapped I/O name at address `i`.
pub open spec fn memmap_name(i: int) -> Seq<char> {
    if i == 0 {
        seq!['T', 'E', 'X', 'T', '_', 'E', 'N', 'A', 'B', 'L', 'E']
    } else     if i == 1 {
        seq!['T', 'E', 'X', 'T', '_', 'C', 'H', 'A', 'R', '_', 'O', 'F', 'F', 'S', 'E', 'T']
    } else     if i == 2 {
        seq!['T', 'E', 'X', 'T', '_', 'B', 'U', 'F', 'F', 'E', 'R', '_', 'A', 'D', 'D', 'R']
    } else     if i == 3 {
        seq!['T', 'E', 'X', 'T', '_', 'B', 'U', 'F', 'F', 'E', 'R', '_', 'L', 'E', 'N']
    } else     if i == 4 {
        seq!['C', 'O', 'L', 'O', 'R', '_', 'B', 'U', 'F', 'F', 'E', 'R', '_', 'A', 'D', 'D', 'R']
    } else     if i == 5 {
        seq!['C', 'O', 'L', 'O', 'R', '_', 'B', 'U', 'F', 'F', 'E', 'R', '_', 'L', 'E', 'N']
    } else     if i == 6 {
        seq!['R', 'O', 'M', '_', 'B', 'A', 'N', 'K']
    } else     if i == 7 {
        seq!['V', 'I', 'D', 'E', 'O', '_', 'E', 'N', 'A', 'B', 'L', 'E']
    } else     if i == 8 {
        seq!['V', 'I', 'D', 'E', 'O', '_', 'C', 'O', 'L', 'O', 'R', 'M', 'A', 'P', '_', 'A', 'D', 'D', 'R']
    } else     if i == 9 {
        seq!['V', 'I', 'D', 'E', 'O', '_', 'S', 'P', 'R', 'I', 'T', 'E', '_', 'B', 'U', 'F', 'F', 'E', 'R', '_', 'A', 'D', 'D', 'R']
    } else     if i == 10 {
        seq!['V', 'I', 'D', 'E', 'O', '_', 'S', 'P', 'R', 'I', 'T', 'E', '_', 'C', 'O', 'U', 'N', 'T']
    } else     if i == 11 {
        seq!['A', 'U', 'D', 'I', 'O', '_', 'E', 'N', 'A', 'B', 'L', 'E']
    } else     if i == 12 {
        seq!['A', 'U', 'D', 'I', 'O', '_', 'B', 'U', 'F', 'F', '_', 'A', 'D', 'D', 'R']
    } else     if i == 13 {
        seq!['A', 'U', 'D', 'I', 'O', '_', 'B', 'U', 'F', 'F', '_', 'E', 'N', 'D']
    } else     if i == 14 {
        seq!['A', 'U', 'D', 'I', 'O', '_', 'B', 'U', 'F', 'F', '_', 'P', 'O', 'S']
    } else     if i == 15 {
        seq!['A', 'U', 'D', 'I', 'O', '_', 'A', 'M', 'P']
    } else     if i == 16 {
        seq!['A', 'U', 'D', 'I', 'O', '_', 'S', 'T', 'R', 'I', 'D', 'E']
    } else     if i == 17 {
        seq!['A', 'U', 'D', 'I', 'O', '_', 'W', 'R', 'A', 'P']
    } else     if i == 18 {
        seq!['N', 'E', 'T', '_', 'R', 'E', 'C', 'V', '_', 'S', 'T', 'A', 'T', 'U', 'S']
    } else     if i == 19 {
        seq!['N', 'E', 'T', '_', 'R', 'E', 'C', 'V', '_', 'B', 'U', 'F', 'F', 'E', 'R', '_', 'A', 'D', 'D', 'R']
    } else     if i == 20 {
        seq!['N', 'E', 'T', '_', 'R', 'E', 'C', 'V', '_', 'B', 'U', 'F', 'F', 'E', 'R', '_', 'L', 'E', 'N']
    } else     if i == 21 {
        seq!['N', 'E', 'T', '_', 'S', 'E', 'N', 'D', '_', 'S', 'T', 'A', 'T', 'U', 'S']
    } else     if i == 22 {
        seq!['N', 'E', 'T', '_', 'S', 'E', 'N', 'D', '_', 'B', 'U', 'F', 'F', 'E', 'R', '_', 'A', 'D', 'D', 'R']
    } else     if i == 23 {
        seq!['N', 'E', 'T', '_', 'S', 'E', 'N', 'D', '_', 'B', 'U', 'F', 'F', 'E', 'R', '_', 'L', 'E', 'N']
    } else     if i == 24 {
        seq!['I', 'N', 'P', 'U', 'T', '_', 'M', 'O', 'U', 'S', 'E', '_', 'X']
    } else     if i == 25 {
        seq!['I', 'N', 'P', 'U', 'T', '_', 'M', 'O', 'U', 'S', 'E', '_', 'Y']
    } else     if i == 26 {
        seq!['I', 'N', 'P', 'U', 'T', '_', 'M', 'O', 'U', 'S', 'E', '_', 'B', 'U', 'T', 'T', 'O', 'N']
    } else     if i == 27 {
        seq!['I', 'N', 'P', 'U', 'T', '_', 'T', 'E', 'X', 'T', 'C', 'H', 'A', 'R']
    } else     if i == 28 {
        seq!['I', 'N', 'P', 'U', 'T', '_', 'R', 'E', 'A', 'L', 'T', 'I', 'M', 'E']
    } else     if i == 29 {
        seq!['A', 'R', 'R', '_', 'I', 'N', 'P', 'U', 'T', '_', 'G', 'A', 'M', 'E', 'P', 'A', 'D', 'S']
    } else {
        Seq::empty()
    }
}

fn memmap_name_exec(i: usize) -> (r: Vec<char>)
    requires
        i < MEMMAP_COUNT,
    ensures
        r@ == memmap_name(i as int),
{
    match i {
        0 => vec!['T', 'E', 'X', 'T', '_', 'E', 'N', 'A', 'B', 'L', 'E'],
        1 => vec!['T', 'E', 'X', 'T', '_', 'C', 'H', 'A', 'R', '_', 'O', 'F', 'F', 'S', 'E', 'T'],
        2 => vec!['T', 'E', 'X', 'T', '_', 'B', 'U', 'F', 'F', 'E', 'R', '_', 'A', 'D', 'D', 'R'],
        3 => vec!['T', 'E', 'X', 'T', '_', 'B', 'U', 'F', 'F', 'E', 'R', '_', 'L', 'E', 'N'],
        4 => vec!['C', 'O', 'L', 'O', 'R', '_', 'B', 'U', 'F', 'F', 'E', 'R', '_', 'A', 'D', 'D', 'R'],
        5 => vec!['C', 'O', 'L', 'O', 'R', '_', 'B', 'U', 'F', 'F', 'E', 'R', '_', 'L', 'E', 'N'],
        6 => vec!['R', 'O', 'M', '_', 'B', 'A', 'N', 'K'],
        7 => vec!['V', 'I', 'D', 'E', 'O', '_', 'E', 'N', 'A', 'B', 'L', 'E'],
        8 => vec!['V', 'I', 'D', 'E', 'O', '_', 'C', 'O', 'L', 'O', 'R', 'M', 'A', 'P', '_', 'A', 'D', 'D', 'R'],
        9 => vec!['V', 'I', 'D', 'E', 'O', '_', 'S', 'P', 'R', 'I', 'T', 'E', '_', 'B', 'U', 'F', 'F', 'E', 'R', '_', 'A', 'D', 'D', 'R'],
        10 => vec!['V', 'I', 'D', 'E', 'O', '_', 'S', 'P', 'R', 'I', 'T', 'E', '_', 'C', 'O', 'U', 'N', 'T'],
        11 => vec!['A', 'U', 'D', 'I', 'O', '_', 'E', 'N', 'A', 'B', 'L', 'E'],
        12 => vec!['A', 'U', 'D', 'I', 'O', '_', 'B', 'U', 'F', 'F', '_', 'A', 'D', 'D', 'R'],
        13 => vec!['A', 'U', 'D', 'I', 'O', '_', 'B', 'U', 'F', 'F', '_', 'E', 'N', 'D'],
        14 => vec!['A', 'U', 'D', 'I', 'O', '_', 'B', 'U', 'F', 'F', '_', 'P', 'O', 'S'],
        15 => vec!['A', 'U', 'D', 'I', 'O', '_', 'A', 'M', 'P'],
        16 => vec!['A', 'U', 'D', 'I', 'O', '_', 'S', 'T', 'R', 'I', 'D', 'E'],
        17 => vec!['A', 'U', 'D', 'I', 'O', '_', 'W', 'R', 'A', 'P'],
        18 => vec!['N', 'E', 'T', '_', 'R', 'E', 'C', 'V', '_', 'S', 'T', 'A', 'T', 'U', 'S'],
        19 => vec!['N', 'E', 'T', '_', 'R', 'E', 'C', 'V', '_', 'B', 'U', 'F', 'F', 'E', 'R', '_', 'A', 'D', 'D', 'R'],
        20 => vec!['N', 'E', 'T', '_', 'R', 'E', 'C', 'V', '_', 'B', 'U', 'F', 'F', 'E', 'R', '_', 'L', 'E', 'N'],
        21 => vec!['N', 'E', 'T', '_', 'S', 'E', 'N', 'D', '_', 'S', 'T', 'A', 'T', 'U', 'S'],
        22 => vec!['N', 'E', 'T', '_', 'S', 'E', 'N', 'D', '_', 'B', 'U', 'F', 'F', 'E', 'R', '_', 'A', 'D', 'D', 'R'],
        23 => vec!['N', 'E', 'T', '_', 'S', 'E', 'N', 'D', '_', 'B', 'U', 'F', 'F', 'E', 'R', '_', 'L', 'E', 'N'],
        24 => vec!['I', 'N', 'P', 'U', 'T', '_', 'M', 'O', 'U', 'S', 'E', '_', 'X'],
        25 => vec!['I', 'N', 'P', 'U', 'T', '_', 'M', 'O', 'U', 'S', 'E', '_', 'Y'],
        26 => vec!['I', 'N', 'P', 'U', 'T', '_', 'M', 'O', 'U', 'S', 'E', '_', 'B', 'U', 'T', 'T', 'O', 'N'],
        27 => vec!['I', 'N', 'P', 'U', 'T', '_', 'T', 'E', 'X', 'T', 'C', 'H', 'A', 'R'],
        28 => vec!['I', 'N', 'P', 'U', 'T', '_', 'R', 'E', 'A', 'L', 'T', 'I', 'M', 'E'],
        29 => vec!['A', 'R', 'R', '_', 'I', 'N', 'P', 'U', 'T', '_', 'G', 'A', 'M', 'E', 'P', 'A', 'D', 'S'],
        _ => vec![],
    }
}

/// The constants for the memory-mapped I/O names: each name, after a '$',
/// stands for its address.
pub open spec fn memmap_bindings() -> ConstModel {
    Seq::new(
        MEMMAP_COUNT as nat,
        |i: int| (seq!['$'] + memmap_name(i), ImmValView::Int(i as i64)),
    )
}

/// Adds the memory-mapped I/O names to a constant table.
pub fn add_memmap_constants(constants: &mut Constants)
    ensures
        final(constants)@ == old(constants)@ + memmap_bindings(),
{
    let mut i: usize = 0;
    while i < MEMMAP_COUNT
        invariant
            0 <= i <= MEMMAP_COUNT,
            constants@ == old(constants)@ + memmap_bindings().take(i as int),
        decreases MEMMAP_COUNT - i,
    {
        let mut name: Vec<char> = vec!['$'];
        let mut tail = memmap_name_exec(i);
        name.append(&mut tail);
        assert(name@ =~= seq!['$'] + memmap_name(i as int));
        let ghost entry = (name@, ImmValView::Int(i as i64));
        assert(memmap_bindings().take(i + 1) =~= memmap_bindings().take(i as int).push(entry));
        constants.insert(name, ImmVal::Int(i as i64));
        i = i + 1;
        assert(constants@ =~= old(constants)@ + memmap_bindings().take(i as int));
    }
    assert(memmap_bindings().take(MEMMAP_COUNT as int) =~= memmap_bindings());
}

} // verus!
