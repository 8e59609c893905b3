use vstd::prelude::*;
use crate::symbols::chars_eq;

verus! {

/// The role an operand token plays in an instruction.
#[derive(Clone, Copy, Debug, PartialEq, Eq, Structural)]
pub enum OpArg {
    Rd,
    Rs1,
    Rs2,
    Im,
    Void,
}

/// What the assembler knows of one mnemonic: its opcode, how many operands
/// it takes, the role of each, and whether its immediate is pc-relative.
#[derive(Clone, Copy, Debug, PartialEq, Eq)]
pub struct OpInfo {
    pub opcode: u8,
    pub argct: usize,
    pub args: [OpArg; 3],
    pub rel: bool,
}

/// Number of rows in the opcode table.
pub const OP_COUNT: usize = 71;

/// Row `i` of the opcode table: the lower-case mnemonic and its descriptor.
pub open spec fn op_row(i: int) -> (Seq<char>, OpInfo) {
    if i == 0 {
        (seq!['k', 'i', 'l', 'l'], OpInfo { opcode: 0, argct: 2, args: [OpArg::Rd, OpArg::Im, OpArg::Void], rel: false })
    } else     if i == 1 {
        (seq!['s', 'p', 'a', 'w', 'n'], OpInfo { opcode: 1, argct: 3, args: [OpArg::Rs1, OpArg::Rs2, OpArg::Im], rel: true })
    } else     if i == 2 {
        (seq!['x', 'k', 'i', 'l', 'l'], OpInfo { opcode: 2, argct: 3, args: [OpArg::Rd, OpArg::Rs1, OpArg::Im], rel: false })
    } else     if i == 3 {
        (seq!['x', 'r', 'e', 's'], OpInfo { opcode: 3, argct: 3, args: [OpArg::Rd, OpArg::Rs1, OpArg::Im], rel: false })
    } else     if i == 4 {
        (seq!['c', 'r', 'i', 'd'], OpInfo { opcode: 4, argct: 1, args: [OpArg::Rd, OpArg::Void, OpArg::Void], rel: false })
    } else     if i == 5 {
        (seq!['c', 'r', 'c', 'f', 'g'], OpInfo { opcode: 5, argct: 2, args: [OpArg::Rd, OpArg::Rs1, OpArg::Void], rel: false })
    } else     if i == 6 {
        (seq!['c', 'r', 'c', 'n', 'd'], OpInfo { opcode: 6, argct: 2, args: [OpArg::Rd, OpArg::Rs1, OpArg::Void], rel: false })
    } else     if i == 7 {
        (seq!['c', 'r', 'c', 'l', 'k'], OpInfo { opcode: 7, argct: 2, args: [OpArg::Rd, OpArg::Rs1, OpArg::Void], rel: false })
    } else     if i == 8 {
        (seq!['c', 'r', 'c', 't'], OpInfo { opcode: 8, argct: 1, args: [OpArg::Rd, OpArg::Void, OpArg::Void], rel: false })
    } else     if i == 9 {
        (seq!['c', 'l', 'k'], OpInfo { opcode: 9, argct: 1, args: [OpArg::Rd, OpArg::Void, OpArg::Void], rel: false })
    } else     if i == 10 {
        (seq!['m', 'v'], OpInfo { opcode: 10, argct: 2, args: [OpArg::Rd, OpArg::Rs1, OpArg::Void], rel: false })
    } else     if i == 11 {
        (seq!['n', 'o', 'p'], OpInfo { opcode: 11, argct: 0, args: [OpArg::Void, OpArg::Void, OpArg::Void], rel: false })
    } else     if i == 12 {
        (seq!['a', 'd', 'd'], OpInfo { opcode: 12, argct: 3, args: [OpArg::Rd, OpArg::Rs1, OpArg::Rs2], rel: false })
    } else     if i == 13 {
        (seq!['a', 'd', 'd', 'i'], OpInfo { opcode: 13, argct: 3, args: [OpArg::Rd, OpArg::Rs1, OpArg::Im], rel: false })
    } else     if i == 14 {
        (seq!['s', 'u', 'b'], OpInfo { opcode: 14, argct: 3, args: [OpArg::Rd, OpArg::Rs1, OpArg::Rs2], rel: false })
    } else     if i == 15 {
        (seq!['s', 'u', 'b', 'i'], OpInfo { opcode: 15, argct: 3, args: [OpArg::Rd, OpArg::Rs1, OpArg::Im], rel: false })
    } else     if i == 16 {
        (seq!['m', 'u', 'l'], OpInfo { opcode: 16, argct: 3, args: [OpArg::Rd, OpArg::Rs1, OpArg::Rs2], rel: false })
    } else     if i == 17 {
        (seq!['m', 'u', 'l', 'i'], OpInfo { opcode: 17, argct: 3, args: [OpArg::Rd, OpArg::Rs1, OpArg::Im], rel: false })
    } else     if i == 18 {
        (seq!['d', 'i', 'v'], OpInfo { opcode: 18, argct: 3, args: [OpArg::Rd, OpArg::Rs1, OpArg::Rs2], rel: false })
    } else     if i == 19 {
        (seq!['d', 'i', 'v', 'i'], OpInfo { opcode: 19, argct: 3, args: [OpArg::Rd, OpArg::Rs1, OpArg::Im], rel: false })
    } else     if i == 20 {
        (seq!['m', 'o', 'd'], OpInfo { opcode: 20, argct: 3, args: [OpArg::Rd, OpArg::Rs1, OpArg::Rs2], rel: false })
    } else     if i == 21 {
        (seq!['m', 'o', 'd', 'i'], OpInfo { opcode: 21, argct: 3, args: [OpArg::Rd, OpArg::Rs1, OpArg::Im], rel: false })
    } else     if i == 22 {
        (seq!['p', 'o', 'w'], OpInfo { opcode: 22, argct: 3, args: [OpArg::Rd, OpArg::Rs1, OpArg::Rs2], rel: false })
    } else     if i == 23 {
        (seq!['p', 'o', 'w', 'i'], OpInfo { opcode: 23, argct: 3, args: [OpArg::Rd, OpArg::Rs1, OpArg::Im], rel: false })
    } else     if i == 24 {
        (seq!['m', 'i', 'n'], OpInfo { opcode: 24, argct: 3, args: [OpArg::Rd, OpArg::Rs1, OpArg::Rs2], rel: false })
    } else     if i == 25 {
        (seq!['m', 'i', 'n', 'i'], OpInfo { opcode: 25, argct: 3, args: [OpArg::Rd, OpArg::Rs1, OpArg::Im], rel: false })
    } else     if i == 26 {
        (seq!['m', 'a', 'x'], OpInfo { opcode: 26, argct: 3, args: [OpArg::Rd, OpArg::Rs1, OpArg::Rs2], rel: false })
    } else     if i == 27 {
        (seq!['m', 'a', 'x', 'i'], OpInfo { opcode: 27, argct: 3, args: [OpArg::Rd, OpArg::Rs1, OpArg::Im], rel: false })
    } else     if i == 28 {
        (seq!['e', 'q'], OpInfo { opcode: 28, argct: 3, args: [OpArg::Rd, OpArg::Rs1, OpArg::Rs2], rel: false })
    } else     if i == 29 {
        (seq!['e', 'q', 'i'], OpInfo { opcode: 29, argct: 3, args: [OpArg::Rd, OpArg::Rs1, OpArg::Im], rel: false })
    } else     if i == 30 {
        (seq!['n', 'e', 'q'], OpInfo { opcode: 30, argct: 3, args: [OpArg::Rd, OpArg::Rs1, OpArg::Rs2], rel: false })
    } else     if i == 31 {
        (seq!['n', 'e', 'q', 'i'], OpInfo { opcode: 31, argct: 3, args: [OpArg::Rd, OpArg::Rs1, OpArg::Im], rel: false })
    } else     if i == 32 {
        (seq!['g', 'e', 'q'], OpInfo { opcode: 32, argct: 3, args: [OpArg::Rd, OpArg::Rs1, OpArg::Rs2], rel: false })
    } else     if i == 33 {
        (seq!['g', 'e', 'q', 'i'], OpInfo { opcode: 33, argct: 3, args: [OpArg::Rd, OpArg::Rs1, OpArg::Im], rel: false })
    } else     if i == 34 {
        (seq!['l', 'e', 'q'], OpInfo { opcode: 34, argct: 3, args: [OpArg::Rd, OpArg::Rs1, OpArg::Rs2], rel: false })
    } else     if i == 35 {
        (seq!['l', 'e', 'q', 'i'], OpInfo { opcode: 35, argct: 3, args: [OpArg::Rd, OpArg::Rs1, OpArg::Im], rel: false })
    } else     if i == 36 {
        (seq!['l', 't'], OpInfo { opcode: 36, argct: 3, args: [OpArg::Rd, OpArg::Rs1, OpArg::Rs2], rel: false })
    } else     if i == 37 {
        (seq!['l', 't', 'i'], OpInfo { opcode: 37, argct: 3, args: [OpArg::Rd, OpArg::Rs1, OpArg::Im], rel: false })
    } else     if i == 38 {
        (seq!['g', 't'], OpInfo { opcode: 38, argct: 3, args: [OpArg::Rd, OpArg::Rs1, OpArg::Rs2], rel: false })
    } else     if i == 39 {
        (seq!['g', 't', 'i'], OpInfo { opcode: 39, argct: 3, args: [OpArg::Rd, OpArg::Rs1, OpArg::Im], rel: false })
    } else     if i == 40 {
        (seq!['a', 'n', 'd'], OpInfo { opcode: 40, argct: 3, args: [OpArg::Rd, OpArg::Rs1, OpArg::Rs2], rel: false })
    } else     if i == 41 {
        (seq!['a', 'n', 'd', 'i'], OpInfo { opcode: 41, argct: 3, args: [OpArg::Rd, OpArg::Rs1, OpArg::Im], rel: false })
    } else     if i == 42 {
        (seq!['o', 'r'], OpInfo { opcode: 42, argct: 3, args: [OpArg::Rd, OpArg::Rs1, OpArg::Rs2], rel: false })
    } else     if i == 43 {
        (seq!['o', 'r', 'i'], OpInfo { opcode: 43, argct: 3, args: [OpArg::Rd, OpArg::Rs1, OpArg::Im], rel: false })
    } else     if i == 44 {
        (seq!['x', 'o', 'r'], OpInfo { opcode: 44, argct: 3, args: [OpArg::Rd, OpArg::Rs1, OpArg::Rs2], rel: false })
    } else     if i == 45 {
        (seq!['x', 'o', 'r', 'i'], OpInfo { opcode: 45, argct: 3, args: [OpArg::Rd, OpArg::Rs1, OpArg::Im], rel: false })
    } else     if i == 46 {
        (seq!['l', 's', 'h'], OpInfo { opcode: 46, argct: 3, args: [OpArg::Rd, OpArg::Rs1, OpArg::Rs2], rel: false })
    } else     if i == 47 {
        (seq!['l', 's', 'h', 'i'], OpInfo { opcode: 47, argct: 3, args: [OpArg::Rd, OpArg::Rs1, OpArg::Im], rel: false })
    } else     if i == 48 {
        (seq!['r', 's', 'h'], OpInfo { opcode: 48, argct: 3, args: [OpArg::Rd, OpArg::Rs1, OpArg::Rs2], rel: false })
    } else     if i == 49 {
        (seq!['r', 's', 'h', 'i'], OpInfo { opcode: 49, argct: 3, args: [OpArg::Rd, OpArg::Rs1, OpArg::Im], rel: false })
    } else     if i == 50 {
        (seq!['l', 'i'], OpInfo { opcode: 50, argct: 2, args: [OpArg::Rd, OpArg::Im, OpArg::Void], rel: false })
    } else     if i == 51 {
        (seq!['a', 'i', 'p', 'c'], OpInfo { opcode: 51, argct: 2, args: [OpArg::Rd, OpArg::Im, OpArg::Void], rel: true })
    } else     if i == 52 {
        (seq!['j', 'a', 'l'], OpInfo { opcode: 52, argct: 2, args: [OpArg::Rd, OpArg::Im, OpArg::Void], rel: true })
    } else     if i == 53 {
        (seq!['j', 'a', 'l', 'r'], OpInfo { opcode: 53, argct: 3, args: [OpArg::Rd, OpArg::Rs1, OpArg::Im], rel: false })
    } else     if i == 54 {
        (seq!['b', 'e', 'q'], OpInfo { opcode: 54, argct: 3, args: [OpArg::Rs1, OpArg::Rs2, OpArg::Im], rel: true })
    } else     if i == 55 {
        (seq!['b', 'n', 'e'], OpInfo { opcode: 55, argct: 3, args: [OpArg::Rs1, OpArg::Rs2, OpArg::Im], rel: true })
    } else     if i == 56 {
        (seq!['b', 'l', 't'], OpInfo { opcode: 56, argct: 3, args: [OpArg::Rs1, OpArg::Rs2, OpArg::Im], rel: true })
    } else     if i == 57 {
        (seq!['b', 'g', 'e'], OpInfo { opcode: 57, argct: 3, args: [OpArg::Rs1, OpArg::Rs2, OpArg::Im], rel: true })
    } else     if i == 58 {
        (seq!['l', 'o', 'a', 'd'], OpInfo { opcode: 58, argct: 3, args: [OpArg::Rd, OpArg::Rs1, OpArg::Im], rel: false })
    } else     if i == 59 {
        (seq!['s', 't', 'o', 'r', 'e'], OpInfo { opcode: 59, argct: 3, args: [OpArg::Rd, OpArg::Rs1, OpArg::Im], rel: false })
    } else     if i == 60 {
        (seq!['p', 'u', 's', 'h', 'i'], OpInfo { opcode: 60, argct: 3, args: [OpArg::Rd, OpArg::Rs1, OpArg::Im], rel: false })
    } else     if i == 61 {
        (seq!['u', 'n', 'p', 'k', 'i'], OpInfo { opcode: 61, argct: 3, args: [OpArg::Rd, OpArg::Rs1, OpArg::Im], rel: false })
    } else     if i == 62 {
        (seq!['c', 'a', 's'], OpInfo { opcode: 62, argct: 3, args: [OpArg::Rd, OpArg::Rs1, OpArg::Rs2], rel: false })
    } else     if i == 63 {
        (seq!['s', 'm', 'p', 'r', 'm'], OpInfo { opcode: 63, argct: 3, args: [OpArg::Rd, OpArg::Rs1, OpArg::Im], rel: false })
    } else     if i == 64 {
        (seq!['s', 'r', 'p', 'r', 'm'], OpInfo { opcode: 64, argct: 3, args: [OpArg::Rd, OpArg::Rs1, OpArg::Im], rel: false })
    } else     if i == 65 {
        (seq!['s', 'w', 'p', 'r', 'm'], OpInfo { opcode: 65, argct: 3, args: [OpArg::Rd, OpArg::Rs1, OpArg::Im], rel: false })
    } else     if i == 66 {
        (seq!['s', 'x', 'p', 'r', 'm'], OpInfo { opcode: 66, argct: 3, args: [OpArg::Rd, OpArg::Rs1, OpArg::Im], rel: false })
    } else     if i == 67 {
        (seq!['a', 'b', 's'], OpInfo { opcode: 67, argct: 2, args: [OpArg::Rd, OpArg::Rs1, OpArg::Void], rel: false })
    } else     if i == 68 {
        (seq!['s', 'i', 'n'], OpInfo { opcode: 68, argct: 2, args: [OpArg::Rd, OpArg::Rs1, OpArg::Void], rel: false })
    } else     if i == 69 {
        (seq!['c', 'o', 's'], OpInfo { opcode: 69, argct: 2, args: [OpArg::Rd, OpArg::Rs1, OpArg::Void], rel: false })
    } else     if i == 70 {
        (seq!['a', 't', 'a', 'n'], OpInfo { opcode: 70, argct: 3, args: [OpArg::Rd, OpArg::Rs1, OpArg::Rs2], rel: false })
    } else {
        (Seq::empty(), OpInfo { opcode: 0, argct: 0, args: [OpArg::Void, OpArg::Void, OpArg::Void], rel: false })
    }
}

/// The descriptor of the first row at or after `i` whose mnemonic is `name`.
pub open spec fn find_op_from(name: Seq<char>, i: int) -> Option<OpInfo>
    decreases OP_COUNT - i,
{
    if i < 0 || i >= OP_COUNT {
        None
    } else if op_row(i).0 == name {
        Some(op_row(i).1)
    } else {
        find_op_from(name, i + 1)
    }
}

/// Looks a lower-case mnemonic up in the opcode table.
pub open spec fn find_op(name: Seq<char>) -> Option<OpInfo> {
    find_op_from(name, 0)
}

/// A descriptor is well formed when its first `argct` roles are operands
/// and the rest are `Void`.
pub open spec fn info_wf(info: OpInfo) -> bool {
    &&& info.argct <= 3
    &&& forall|k: int| 0 <= k < info.argct ==> info.args@[k] != OpArg::Void
}

fn op_row_exec(i: usize) -> (r: (Vec<char>, OpInfo))
    requires
        i < OP_COUNT,
    ensures
        r.0@ == op_row(i as int).0,
        r.1 == op_row(i as int).1,
{
    match i {
        0 => (vec!['k', 'i', 'l', 'l'], OpInfo { opcode: 0, argct: 2, args: [OpArg::Rd, OpArg::Im, OpArg::Void], rel: false }),
        1 => (vec!['s', 'p', 'a', 'w', 'n'], OpInfo { opcode: 1, argct: 3, args: [OpArg::Rs1, OpArg::Rs2, OpArg::Im], rel: true }),
        2 => (vec!['x', 'k', 'i', 'l', 'l'], OpInfo { opcode: 2, argct: 3, args: [OpArg::Rd, OpArg::Rs1, OpArg::Im], rel: false }),
        3 => (vec!['x', 'r', 'e', 's'], OpInfo { opcode: 3, argct: 3, args: [OpArg::Rd, OpArg::Rs1, OpArg::Im], rel: false }),
        4 => (vec!['c', 'r', 'i', 'd'], OpInfo { opcode: 4, argct: 1, args: [OpArg::Rd, OpArg::Void, OpArg::Void], rel: false }),
        5 => (vec!['c', 'r', 'c', 'f', 'g'], OpInfo { opcode: 5, argct: 2, args: [OpArg::Rd, OpArg::Rs1, OpArg::Void], rel: false }),
        6 => (vec!['c', 'r', 'c', 'n', 'd'], OpInfo { opcode: 6, argct: 2, args: [OpArg::Rd, OpArg::Rs1, OpArg::Void], rel: false }),
        7 => (vec!['c', 'r', 'c', 'l', 'k'], OpInfo { opcode: 7, argct: 2, args: [OpArg::Rd, OpArg::Rs1, OpArg::Void], rel: false }),
        8 => (vec!['c', 'r', 'c', 't'], OpInfo { opcode: 8, argct: 1, args: [OpArg::Rd, OpArg::Void, OpArg::Void], rel: false }),
        9 => (vec!['c', 'l', 'k'], OpInfo { opcode: 9, argct: 1, args: [OpArg::Rd, OpArg::Void, OpArg::Void], rel: false }),
        10 => (vec!['m', 'v'], OpInfo { opcode: 10, argct: 2, args: [OpArg::Rd, OpArg::Rs1, OpArg::Void], rel: false }),
        11 => (vec!['n', 'o', 'p'], OpInfo { opcode: 11, argct: 0, args: [OpArg::Void, OpArg::Void, OpArg::Void], rel: false }),
        12 => (vec!['a', 'd', 'd'], OpInfo { opcode: 12, argct: 3, args: [OpArg::Rd, OpArg::Rs1, OpArg::Rs2], rel: false }),
        13 => (vec!['a', 'd', 'd', 'i'], OpInfo { opcode: 13, argct: 3, args: [OpArg::Rd, OpArg::Rs1, OpArg::Im], rel: false }),
        14 => (vec!['s', 'u', 'b'], OpInfo { opcode: 14, argct: 3, args: [OpArg::Rd, OpArg::Rs1, OpArg::Rs2], rel: false }),
        15 => (vec!['s', 'u', 'b', 'i'], OpInfo { opcode: 15, argct: 3, args: [OpArg::Rd, OpArg::Rs1, OpArg::Im], rel: false }),
        16 => (vec!['m', 'u', 'l'], OpInfo { opcode: 16, argct: 3, args: [OpArg::Rd, OpArg::Rs1, OpArg::Rs2], rel: false }),
        17 => (vec!['m', 'u', 'l', 'i'], OpInfo { opcode: 17, argct: 3, args: [OpArg::Rd, OpArg::Rs1, OpArg::Im], rel: false }),
        18 => (vec!['d', 'i', 'v'], OpInfo { opcode: 18, argct: 3, args: [OpArg::Rd, OpArg::Rs1, OpArg::Rs2], rel: false }),
        19 => (vec!['d', 'i', 'v', 'i'], OpInfo { opcode: 19, argct: 3, args: [OpArg::Rd, OpArg::Rs1, OpArg::Im], rel: false }),
        20 => (vec!['m', 'o', 'd'], OpInfo { opcode: 20, argct: 3, args: [OpArg::Rd, OpArg::Rs1, OpArg::Rs2], rel: false }),
        21 => (vec!['m', 'o', 'd', 'i'], OpInfo { opcode: 21, argct: 3, args: [OpArg::Rd, OpArg::Rs1, OpArg::Im], rel: false }),
        22 => (vec!['p', 'o', 'w'], OpInfo { opcode: 22, argct: 3, args: [OpArg::Rd, OpArg::Rs1, OpArg::Rs2], rel: false }),
        23 => (vec!['p', 'o', 'w', 'i'], OpInfo { opcode: 23, argct: 3, args: [OpArg::Rd, OpArg::Rs1, OpArg::Im], rel: false }),
        24 => (vec!['m', 'i', 'n'], OpInfo { opcode: 24, argct: 3, args: [OpArg::Rd, OpArg::Rs1, OpArg::Rs2], rel: false }),
        25 => (vec!['m', 'i', 'n', 'i'], OpInfo { opcode: 25, argct: 3, args: [OpArg::Rd, OpArg::Rs1, OpArg::Im], rel: false }),
        26 => (vec!['m', 'a', 'x'], OpInfo { opcode: 26, argct: 3, args: [OpArg::Rd, OpArg::Rs1, OpArg::Rs2], rel: false }),
        27 => (vec!['m', 'a', 'x', 'i'], OpInfo { opcode: 27, argct: 3, args: [OpArg::Rd, OpArg::Rs1, OpArg::Im], rel: false }),
        28 => (vec!['e', 'q'], OpInfo { opcode: 28, argct: 3, args: [OpArg::Rd, OpArg::Rs1, OpArg::Rs2], rel: false }),
        29 => (vec!['e', 'q', 'i'], OpInfo { opcode: 29, argct: 3, args: [OpArg::Rd, OpArg::Rs1, OpArg::Im], rel: false }),
        30 => (vec!['n', 'e', 'q'], OpInfo { opcode: 30, argct: 3, args: [OpArg::Rd, OpArg::Rs1, OpArg::Rs2], rel: false }),
        31 => (vec!['n', 'e', 'q', 'i'], OpInfo { opcode: 31, argct: 3, args: [OpArg::Rd, OpArg::Rs1, OpArg::Im], rel: false }),
        32 => (vec!['g', 'e', 'q'], OpInfo { opcode: 32, argct: 3, args: [OpArg::Rd, OpArg::Rs1, OpArg::Rs2], rel: false }),
        33 => (vec!['g', 'e', 'q', 'i'], OpInfo { opcode: 33, argct: 3, args: [OpArg::Rd, OpArg::Rs1, OpArg::Im], rel: false }),
        34 => (vec!['l', 'e', 'q'], OpInfo { opcode: 34, argct: 3, args: [OpArg::Rd, OpArg::Rs1, OpArg::Rs2], rel: false }),
        35 => (vec!['l', 'e', 'q', 'i'], OpInfo { opcode: 35, argct: 3, args: [OpArg::Rd, OpArg::Rs1, OpArg::Im], rel: false }),
        36 => (vec!['l', 't'], OpInfo { opcode: 36, argct: 3, args: [OpArg::Rd, OpArg::Rs1, OpArg::Rs2], rel: false }),
        37 => (vec!['l', 't', 'i'], OpInfo { opcode: 37, argct: 3, args: [OpArg::Rd, OpArg::Rs1, OpArg::Im], rel: false }),
        38 => (vec!['g', 't'], OpInfo { opcode: 38, argct: 3, args: [OpArg::Rd, OpArg::Rs1, OpArg::Rs2], rel: false }),
        39 => (vec!['g', 't', 'i'], OpInfo { opcode: 39, argct: 3, args: [OpArg::Rd, OpArg::Rs1, OpArg::Im], rel: false }),
        40 => (vec!['a', 'n', 'd'], OpInfo { opcode: 40, argct: 3, args: [OpArg::Rd, OpArg::Rs1, OpArg::Rs2], rel: false }),
        41 => (vec!['a', 'n', 'd', 'i'], OpInfo { opcode: 41, argct: 3, args: [OpArg::Rd, OpArg::Rs1, OpArg::Im], rel: false }),
        42 => (vec!['o', 'r'], OpInfo { opcode: 42, argct: 3, args: [OpArg::Rd, OpArg::Rs1, OpArg::Rs2], rel: false }),
        43 => (vec!['o', 'r', 'i'], OpInfo { opcode: 43, argct: 3, args: [OpArg::Rd, OpArg::Rs1, OpArg::Im], rel: false }),
        44 => (vec!['x', 'o', 'r'], OpInfo { opcode: 44, argct: 3, args: [OpArg::Rd, OpArg::Rs1, OpArg::Rs2], rel: false }),
        45 => (vec!['x', 'o', 'r', 'i'], OpInfo { opcode: 45, argct: 3, args: [OpArg::Rd, OpArg::Rs1, OpArg::Im], rel: false }),
        46 => (vec!['l', 's', 'h'], OpInfo { opcode: 46, argct: 3, args: [OpArg::Rd, OpArg::Rs1, OpArg::Rs2], rel: false }),
        47 => (vec!['l', 's', 'h', 'i'], OpInfo { opcode: 47, argct: 3, args: [OpArg::Rd, OpArg::Rs1, OpArg::Im], rel: false }),
        48 => (vec!['r', 's', 'h'], OpInfo { opcode: 48, argct: 3, args: [OpArg::Rd, OpArg::Rs1, OpArg::Rs2], rel: false }),
        49 => (vec!['r', 's', 'h', 'i'], OpInfo { opcode: 49, argct: 3, args: [OpArg::Rd, OpArg::Rs1, OpArg::Im], rel: false }),
        50 => (vec!['l', 'i'], OpInfo { opcode: 50, argct: 2, args: [OpArg::Rd, OpArg::Im, OpArg::Void], rel: false }),
        51 => (vec!['a', 'i', 'p', 'c'], OpInfo { opcode: 51, argct: 2, args: [OpArg::Rd, OpArg::Im, OpArg::Void], rel: true }),
        52 => (vec!['j', 'a', 'l'], OpInfo { opcode: 52, argct: 2, args: [OpArg::Rd, OpArg::Im, OpArg::Void], rel: true }),
        53 => (vec!['j', 'a', 'l', 'r'], OpInfo { opcode: 53, argct: 3, args: [OpArg::Rd, OpArg::Rs1, OpArg::Im], rel: false }),
        54 => (vec!['b', 'e', 'q'], OpInfo { opcode: 54, argct: 3, args: [OpArg::Rs1, OpArg::Rs2, OpArg::Im], rel: true }),
        55 => (vec!['b', 'n', 'e'], OpInfo { opcode: 55, argct: 3, args: [OpArg::Rs1, OpArg::Rs2, OpArg::Im], rel: true }),
        56 => (vec!['b', 'l', 't'], OpInfo { opcode: 56, argct: 3, args: [OpArg::Rs1, OpArg::Rs2, OpArg::Im], rel: true }),
        57 => (vec!['b', 'g', 'e'], OpInfo { opcode: 57, argct: 3, args: [OpArg::Rs1, OpArg::Rs2, OpArg::Im], rel: true }),
        58 => (vec!['l', 'o', 'a', 'd'], OpInfo { opcode: 58, argct: 3, args: [OpArg::Rd, OpArg::Rs1, OpArg::Im], rel: false }),
        59 => (vec!['s', 't', 'o', 'r', 'e'], OpInfo { opcode: 59, argct: 3, args: [OpArg::Rd, OpArg::Rs1, OpArg::Im], rel: false }),
        60 => (vec!['p', 'u', 's', 'h', 'i'], OpInfo { opcode: 60, argct: 3, args: [OpArg::Rd, OpArg::Rs1, OpArg::Im], rel: false }),
        61 => (vec!['u', 'n', 'p', 'k', 'i'], OpInfo { opcode: 61, argct: 3, args: [OpArg::Rd, OpArg::Rs1, OpArg::Im], rel: false }),
        62 => (vec!['c', 'a', 's'], OpInfo { opcode: 62, argct: 3, args: [OpArg::Rd, OpArg::Rs1, OpArg::Rs2], rel: false }),
        63 => (vec!['s', 'm', 'p', 'r', 'm'], OpInfo { opcode: 63, argct: 3, args: [OpArg::Rd, OpArg::Rs1, OpArg::Im], rel: false }),
        64 => (vec!['s', 'r', 'p', 'r', 'm'], OpInfo { opcode: 64, argct: 3, args: [OpArg::Rd, OpArg::Rs1, OpArg::Im], rel: false }),
        65 => (vec!['s', 'w', 'p', 'r', 'm'], OpInfo { opcode: 65, argct: 3, args: [OpArg::Rd, OpArg::Rs1, OpArg::Im], rel: false }),
        66 => (vec!['s', 'x', 'p', 'r', 'm'], OpInfo { opcode: 66, argct: 3, args: [OpArg::Rd, OpArg::Rs1, OpArg::Im], rel: false }),
        67 => (vec!['a', 'b', 's'], OpInfo { opcode: 67, argct: 2, args: [OpArg::Rd, OpArg::Rs1, OpArg::Void], rel: false }),
        68 => (vec!['s', 'i', 'n'], OpInfo { opcode: 68, argct: 2, args: [OpArg::Rd, OpArg::Rs1, OpArg::Void], rel: false }),
        69 => (vec!['c', 'o', 's'], OpInfo { opcode: 69, argct: 2, args: [OpArg::Rd, OpArg::Rs1, OpArg::Void], rel: false }),
        70 => (vec!['a', 't', 'a', 'n'], OpInfo { opcode: 70, argct: 3, args: [OpArg::Rd, OpArg::Rs1, OpArg::Rs2], rel: false }),
        _ => (vec![], OpInfo { opcode: 0, argct: 0, args: [OpArg::Void, OpArg::Void, OpArg::Void], rel: false }),
    }
}

/// Looks a lower-case mnemonic up in the opcode table.
pub fn lookup_op(name: &Vec<char>) -> (r: Option<OpInfo>)
    ensures
        r == find_op(name@),
{
    let mut i: usize = 0;
    while i < OP_COUNT
        invariant
            0 <= i <= OP_COUNT,
            find_op(name@) == find_op_from(name@, i as int),
        decreases OP_COUNT - i,
    {
        let (row_name, info) = op_row_exec(i);
        if chars_eq(&row_name, name) {
            return Some(info);
        }
        i = i + 1;
    }
    None
}

/// Every row of the table is well formed.
pub proof fn lemma_rows_wf(i: int)
    requires
        0 <= i < OP_COUNT,
    ensures
        info_wf(op_row(i).1),
{
}

/// Whatever the table yields for a name is a well-formed row.
pub proof fn lemma_find_op_wf(name: Seq<char>, i: int)
    ensures
        find_op_from(name, i) matches Some(info) ==> info_wf(info),
    decreases OP_COUNT - i,
{
    if 0 <= i < OP_COUNT {
        lemma_rows_wf(i);
        if op_row(i).0 != name {
            lemma_find_op_wf(name, i + 1);
        }
    }
}

} // verus!
