use vstd::prelude::*;
use vstd::arithmetic::div_mod::lemma_fundamental_div_mod;
use crate::literal::{chars_of, push_utf8, utf8_of};
use crate::ops::COp;

verus! {

/// An instruction as it is written out: its register fields, and its
/// immediate as the bit pattern of an IEEE 754 double.
#[derive(Clone, Copy, Debug, PartialEq, Eq, Structural)]
pub struct RawOp {
    pub op: COp,
    pub imm: u64,
}

// ---- little-endian integers ----

/// The `n` low bytes of `x`, least significant first.
pub open spec fn le_bytes(x: nat, n: nat) -> Seq<u8>
    decreases n,
{
    if n == 0 {
        Seq::empty()
    } else {
        seq![(x % 256) as u8] + le_bytes(x / 256, (n - 1) as nat)
    }
}

/// The number that bytes stand for, least significant first.
pub open spec fn le_value(b: Seq<u8>) -> nat
    decreases b.len(),
{
    if b.len() == 0 {
        0
    } else {
        (b[0] + 256 * le_value(b.drop_first())) as nat
    }
}

pub proof fn lemma_le_bytes_len(x: nat, n: nat)
    ensures
        le_bytes(x, n).len() == n,
    decreases n,
{
    if n > 0 {
        lemma_le_bytes_len(x / 256, (n - 1) as nat);
    }
}

/// Reading back `n` bytes of `x` gives `x`, when it fits.
pub proof fn lemma_le_round_trip(x: nat, n: nat)
    requires
        x < pow256(n),
    ensures
        le_value(le_bytes(x, n)) == x,
    decreases n,
{
    if n > 0 {
        lemma_fundamental_div_mod(x as int, 256);
        assert(x / 256 < pow256((n - 1) as nat)) by (nonlinear_arith)
            requires
                x < 256 * pow256((n - 1) as nat),
        ;
        lemma_le_round_trip(x / 256, (n - 1) as nat);
        let b = le_bytes(x, n);
        assert(b.drop_first() =~= le_bytes(x / 256, (n - 1) as nat));
    } else {
        assert(x == 0);
    }
}

pub open spec fn pow256(n: nat) -> nat
    decreases n,
{
    if n == 0 {
        1
    } else {
        256 * pow256((n - 1) as nat)
    }
}

fn push_le(out: &mut Vec<u8>, x: u64, n: usize)
    ensures
        final(out)@ == old(out)@ + le_bytes(x as nat, n as nat),
{
    let mut v: u64 = x;
    let mut k: usize = 0;
    let ghost start = old(out)@;
    assert(le_bytes(x as nat, n as nat) == le_bytes(x as nat, n as nat).take(0) + le_bytes(
        x as nat,
        n as nat,
    ));
    while k < n
        invariant
            0 <= k <= n,
            start == old(out)@,
            start + le_bytes(x as nat, n as nat) == out@ + le_bytes(v as nat, (n - k) as nat),
        decreases n - k,
    {
        let ghost before = out@;
        out.push((v % 256) as u8);
        assert(le_bytes(v as nat, (n - k) as nat) =~= seq![(v % 256) as u8] + le_bytes(
            (v / 256) as nat,
            (n - k - 1) as nat,
        ));
        assert(before + le_bytes(v as nat, (n - k) as nat) =~= out@ + le_bytes(
            (v / 256) as nat,
            (n - k - 1) as nat,
        ));
        v = v / 256;
        k = k + 1;
    }
    assert(le_bytes(v as nat, 0) =~= Seq::<u8>::empty());
    assert(out@ + Seq::<u8>::empty() =~= out@);
}

// ---- the program layout ----

/// The immediates of a program, eight bytes each.
pub open spec fn imm_region(ops: Seq<RawOp>) -> Seq<u8>
    decreases ops.len(),
{
    if ops.len() == 0 {
        Seq::empty()
    } else {
        imm_region(ops.drop_last()) + le_bytes(ops.last().imm as nat, 8)
    }
}

/// The four register bytes of one instruction.
pub open spec fn op_bytes(o: COp) -> Seq<u8> {
    seq![o.opcode, o.rd, o.rs1, o.rs2]
}

/// The register bytes of a program, four bytes each.
pub open spec fn reg_region(ops: Seq<RawOp>) -> Seq<u8>
    decreases ops.len(),
{
    if ops.len() == 0 {
        Seq::empty()
    } else {
        reg_region(ops.drop_last()) + op_bytes(ops.last().op)
    }
}

/// The bytes of a program: its instruction count, then every immediate,
/// then every instruction's register bytes.
pub open spec fn program_bytes(ops: Seq<RawOp>) -> Seq<u8> {
    le_bytes(ops.len(), 4) + imm_region(ops) + reg_region(ops)
}

/// Writes a program out.
pub fn serialize_ops(oplist: &Vec<RawOp>) -> (r: Vec<u8>)
    requires
        oplist@.len() <= u32::MAX,
    ensures
        r@ == program_bytes(oplist@),
{
    let mut data: Vec<u8> = Vec::new();
    push_le(&mut data, oplist.len() as u64, 4);
    let mut i: usize = 0;
    assert(oplist@.take(0) =~= Seq::<RawOp>::empty());
    while i < oplist.len()
        invariant
            0 <= i <= oplist@.len(),
            data@ == le_bytes(oplist@.len(), 4) + imm_region(oplist@.take(i as int)),
        decreases oplist.len() - i,
    {
        push_le(&mut data, oplist[i].imm, 8);
        i = i + 1;
        assert(oplist@.take(i as int).drop_last() =~= oplist@.take(i - 1));
    }
    assert(oplist@.take(i as int) =~= oplist@);
    let ghost head = data@;
    let mut i: usize = 0;
    assert(head + reg_region(oplist@.take(0)) =~= head);
    while i < oplist.len()
        invariant
            0 <= i <= oplist@.len(),
            data@ == head + reg_region(oplist@.take(i as int)),
        decreases oplist.len() - i,
    {
        let o = oplist[i].op;
        data.push(o.opcode);
        data.push(o.rd);
        data.push(o.rs1);
        data.push(o.rs2);
        i = i + 1;
        assert(oplist@.take(i as int).drop_last() =~= oplist@.take(i - 1));
        assert(data@ =~= head + reg_region(oplist@.take(i as int)));
    }
    assert(oplist@.take(i as int) =~= oplist@);
    data
}

// ---- reading a program back ----

/// The instruction count of a program's bytes.
pub open spec fn program_count(b: Seq<u8>) -> nat {
    le_value(b.subrange(0, 4))
}

/// Reads a program back from its bytes: the count, then the immediates,
/// then the register bytes. `None` when the length does not match the count.
pub open spec fn decode_program(b: Seq<u8>) -> Option<Seq<RawOp>> {
    if b.len() < 4 {
        None
    } else {
        let n = program_count(b);
        if b.len() != 4 + 12 * n {
            None
        } else {
            Some(
                Seq::new(
                    n,
                    |i: int|
                        {
                            let r = 4 + 8 * n + 4 * i;
                            RawOp {
                                op: COp {
                                    opcode: b[r],
                                    rd: b[r + 1],
                                    rs1: b[r + 2],
                                    rs2: b[r + 3],
                                },
                                imm: le_value(b.subrange(4 + 8 * i, 4 + 8 * i + 8)) as u64,
                            }
                        },
                ),
            )
        }
    }
}

proof fn lemma_imm_region(ops: Seq<RawOp>, i: int)
    requires
        0 <= i < ops.len(),
    ensures
        imm_region(ops).len() == 8 * ops.len(),
        imm_region(ops).subrange(8 * i, 8 * i + 8) == le_bytes(ops[i].imm as nat, 8),
    decreases ops.len(),
{
    let pre = ops.drop_last();
    lemma_le_bytes_len(ops.last().imm as nat, 8);
    lemma_imm_region_len(pre);
    if i < ops.len() - 1 {
        lemma_imm_region(pre, i);
        assert(imm_region(ops).subrange(8 * i, 8 * i + 8) =~= imm_region(pre).subrange(
            8 * i,
            8 * i + 8,
        ));
    } else {
        assert(imm_region(ops).subrange(8 * i, 8 * i + 8) =~= le_bytes(ops.last().imm as nat, 8));
    }
}

proof fn lemma_imm_region_len(ops: Seq<RawOp>)
    ensures
        imm_region(ops).len() == 8 * ops.len(),
    decreases ops.len(),
{
    if ops.len() > 0 {
        lemma_imm_region_len(ops.drop_last());
        lemma_le_bytes_len(ops.last().imm as nat, 8);
    }
}

proof fn lemma_reg_region(ops: Seq<RawOp>, i: int, j: int)
    requires
        0 <= i < ops.len(),
        0 <= j < 4,
    ensures
        reg_region(ops).len() == 4 * ops.len(),
        reg_region(ops)[4 * i + j] == op_bytes(ops[i].op)[j],
    decreases ops.len(),
{
    let pre = ops.drop_last();
    lemma_reg_region_len(pre);
    if i < ops.len() - 1 {
        lemma_reg_region(pre, i, j);
    }
}

proof fn lemma_reg_region_len(ops: Seq<RawOp>)
    ensures
        reg_region(ops).len() == 4 * ops.len(),
    decreases ops.len(),
{
    if ops.len() > 0 {
        lemma_reg_region_len(ops.drop_last());
    }
}

proof fn lemma_pow256_values()
    ensures
        pow256(4) == 0x1_0000_0000,
        pow256(8) == 0x1_0000_0000_0000_0000,
{
    assert(pow256(0) == 1);
    assert(pow256(1) == 0x100);
    assert(pow256(2) == 0x1_0000);
    assert(pow256(3) == 0x100_0000);
    assert(pow256(4) == 0x1_0000_0000);
    assert(pow256(5) == 0x100_0000_0000);
    assert(pow256(6) == 0x1_0000_0000_0000);
    assert(pow256(7) == 0x100_0000_0000_0000);
    assert(pow256(8) == 0x1_0000_0000_0000_0000);
}

/// Reading the bytes of a program back gives the same instructions, in the
/// same order.
pub proof fn lemma_program_round_trip(ops: Seq<RawOp>)
    requires
        ops.len() <= u32::MAX,
    ensures
        decode_program(program_bytes(ops)) == Some(ops),
{
    let b = program_bytes(ops);
    let n = ops.len();
    lemma_pow256_values();
    lemma_le_bytes_len(n, 4);
    lemma_imm_region_len(ops);
    lemma_reg_region_len(ops);
    assert(b.subrange(0, 4) =~= le_bytes(n, 4));
    lemma_le_round_trip(n, 4);
    assert(program_count(b) == n);
    let d = decode_program(b).unwrap();
    assert forall|i: int| 0 <= i < n implies d[i] == ops[i] by {
        lemma_imm_region(ops, i);
        assert(b.subrange(4 + 8 * i, 4 + 8 * i + 8) =~= imm_region(ops).subrange(8 * i, 8 * i + 8));
        lemma_le_round_trip(ops[i].imm as nat, 8);
        let r = 4 + 8 * n + 4 * i;
        lemma_reg_region(ops, i, 0);
        lemma_reg_region(ops, i, 1);
        lemma_reg_region(ops, i, 2);
        lemma_reg_region(ops, i, 3);
        assert(b[r] == reg_region(ops)[4 * i]);
        assert(b[r + 1] == reg_region(ops)[4 * i + 1]);
        assert(b[r + 2] == reg_region(ops)[4 * i + 2]);
        assert(b[r + 3] == reg_region(ops)[4 * i + 3]);
    }
    assert(d =~= ops);
}

// ---- the cartridge body ----

/// A LEB128 varint: seven bits a byte, least significant first, the top
/// bit set on every byte but the last.
pub open spec fn varint(v: nat) -> Seq<u8>
    decreases v,
{
    if v < 128 {
        seq![v as u8]
    } else {
        seq![(v % 128 + 128) as u8] + varint(v / 128)
    }
}

/// A length-delimited protobuf field: its key, its length, its bytes.
pub open spec fn length_delimited(tag: nat, value: Seq<u8>) -> Seq<u8> {
    varint(tag * 8 + 2) + varint(value.len()) + value
}

/// A protobuf `bytes` or `string` field of proto3, which is left out when
/// it is empty.
pub open spec fn field(tag: nat, value: Seq<u8>) -> Seq<u8> {
    if value.len() == 0 {
        Seq::empty()
    } else {
        length_delimited(tag, value)
    }
}

/// The cartridge body: metadata, program and video ROM as fields 1, 2
/// and 3 of a protobuf message.
pub open spec fn cart_body(metadata: Seq<u8>, program: Seq<u8>, videorom: Seq<u8>) -> Seq<u8> {
    field(1, metadata) + field(2, program) + field(3, videorom)
}

/// Relies on prost::encoding::bytes::encode: it appends the field key
/// `tag << 3 | 2` and the value's length, both as LEB128 varints, then the
/// value. The key is asserted to be in prost's tag range.
#[verifier::external_body]
fn encode_bytes_field(tag: u32, value: &Vec<u8>, buf: &mut Vec<u8>)
    requires
        1 <= tag <= 0x1FFF_FFFF,
    ensures
        final(buf)@ == old(buf)@ + length_delimited(tag as nat, value@),
{
    prost::encoding::bytes::encode(tag, value, buf)
}

fn push_field(tag: u32, value: &Vec<u8>, buf: &mut Vec<u8>)
    requires
        1 <= tag <= 0x1FFF_FFFF,
    ensures
        final(buf)@ == old(buf)@ + field(tag as nat, value@),
{
    if value.len() == 0 {
        assert(old(buf)@ + Seq::<u8>::empty() =~= old(buf)@);
    } else {
        encode_bytes_field(tag, value, buf);
    }
}

/// The UTF-8 encoding of a text.
pub open spec fn utf8(s: Seq<char>) -> Seq<u8>
    decreases s.len(),
{
    if s.len() == 0 {
        Seq::empty()
    } else {
        utf8(s.drop_last()) + utf8_of(s.last())
    }
}

fn utf8_bytes(s: &String) -> (r: Vec<u8>)
    ensures
        r@ == utf8(s@),
{
    let c = chars_of(s.as_str());
    let mut r: Vec<u8> = Vec::new();
    let mut i: usize = 0;
    while i < c.len()
        invariant
            0 <= i <= c@.len(),
            c@ == s@,
            r@ == utf8(c@.take(i as int)),
        decreases c.len() - i,
    {
        push_utf8(&mut r, c[i]);
        i = i + 1;
        assert(c@.take(i as int).drop_last() =~= c@.take(i - 1));
    }
    assert(c@.take(i as int) =~= c@);
    r
}

/// The metadata text that stands in for none: an empty JSON object.
pub open spec fn empty_metadata() -> Seq<u8> {
    seq![123u8, 125u8]
}

/// The metadata bytes of a cartridge.
pub open spec fn metadata_bytes(metadata: Option<String>) -> Seq<u8> {
    match metadata {
        Some(m) => utf8(m@),
        None => empty_metadata(),
    }
}

/// The video ROM bytes of a cartridge.
pub open spec fn videorom_bytes(videorom: Option<Vec<u8>>) -> Seq<u8> {
    match videorom {
        Some(v) => v@,
        None => Seq::empty(),
    }
}

// ---- the container ----

/// What zstd makes of the bytes at the given compression level.
pub uninterp spec fn zstd_compressed(data: Seq<u8>, level: i32) -> Seq<u8>;

/// The zstd compression level of cartridge bodies.
pub const COMPRESSION_LEVEL: i32 = 18;

/// Relies on zstd::stream::copy_encode: it appends to the destination the
/// zstd frame of all the source's bytes at the given level, which starts
/// with the frame's four-byte magic number. Into a `Vec` at a level of 1 to
/// 22 it fails on no input: the context it creates panics only where zstd
/// cannot allocate it, as a `Vec` would on running out of memory.
#[verifier::external_body]
fn zstd_encode(src: &Vec<u8>, level: i32) -> (r: Vec<u8>)
    requires
        1 <= level <= 22,
    ensures
        r@ == zstd_compressed(src@, level),
        r@.len() > 0,
{
    let mut dest: Vec<u8> = Vec::new();
    zstd::stream::copy_encode(src.as_slice(), &mut dest, level).expect("zstd compression into memory");
    dest
}

/// A cartridge body compressed at this library's level.
pub open spec fn compressed_body(body: Seq<u8>) -> Seq<u8> {
    zstd_compressed(body, COMPRESSION_LEVEL)
}

/// Compresses bytes at the cartridge compression level.
pub fn compress_bytes(src: &Vec<u8>) -> (r: Vec<u8>)
    ensures
        r@ == compressed_body(src@),
        r@.len() > 0,
{
    zstd_encode(src, COMPRESSION_LEVEL)
}

/// The tag of a cartridge: "ECJRV004" in ASCII.
pub open spec fn cart_magic() -> Seq<u8> {
    seq![69u8, 67u8, 74u8, 82u8, 86u8, 48u8, 48u8, 52u8]
}

/// A cartridge: the tag, the body's length, the stored length (0 for a body
/// stored as it is), then what is stored.
pub open spec fn container(body_len: nat, stored_len: nat, payload: Seq<u8>) -> Seq<u8> {
    cart_magic() + le_bytes(body_len, 4) + le_bytes(stored_len, 4) + payload
}

/// The bytes of a cartridge: the body of metadata, program and video ROM,
/// stored compressed where that is asked for, else as it is.
pub open spec fn packed_as(body: Seq<u8>, compress: bool, r: Seq<u8>) -> bool {
    r == framed(body, if compress { Some(compressed_body(body)) } else { None })
}

/// The body of a cartridge with these contents.
pub open spec fn body_of(metadata: Option<String>, videorom: Option<Vec<u8>>, program: Seq<RawOp>) -> Seq<
    u8,
> {
    cart_body(metadata_bytes(metadata), program_bytes(program), videorom_bytes(videorom))
}

/// The contents fit a cartridge: the instruction count and the body's
/// length fit in four bytes each.
pub open spec fn fits_cartridge(
    metadata: Option<String>,
    videorom: Option<Vec<u8>>,
    program: Seq<RawOp>,
) -> bool {
    program.len() <= u32::MAX && body_of(metadata, videorom, program).len() <= u32::MAX
}

/// A cartridge around `body`: compressed as `compressed`, where that is
/// given and its length is neither 0, which would read as "stored as it
/// is", nor too long for four bytes; else the body as it is.
pub open spec fn framed(body: Seq<u8>, compressed: Option<Seq<u8>>) -> Seq<u8> {
    match compressed {
        Some(z) => if 0 < z.len() <= u32::MAX {
            container(body.len(), z.len(), z)
        } else {
            container(body.len(), 0, body)
        },
        None => container(body.len(), 0, body),
    }
}

pub open spec fn option_view(v: Option<Vec<u8>>) -> Option<Seq<u8>> {
    match v {
        Some(x) => Some(x@),
        None => None,
    }
}

proof fn lemma_varint_len(v: nat)
    ensures
        1 <= varint(v).len(),
    decreases v,
{
    if v >= 128 {
        lemma_varint_len(v / 128);
    }
}

fn varint_len(v: u64) -> (r: u64)
    ensures
        r as nat == varint(v as nat).len(),
        r as nat <= v as nat + 1,
{
    let mut x: u64 = v;
    let mut n: u64 = 1;
    while x >= 128
        invariant
            1 <= n,
            n as nat + x as nat <= v as nat + 1,
            varint(v as nat).len() == (n - 1) + varint(x as nat).len(),
        decreases x,
    {
        x = x / 128;
        n = n + 1;
    }
    n
}

fn field_len(l: u64) -> (r: u128)
    ensures
        r <= 2 * l as u128 + 2,
        forall|tag: nat, v: Seq<u8>|
            1 <= tag <= 3 && v.len() == l ==> #[trigger] field(tag, v).len() == r,
{
    if l == 0 {
        0
    } else {
        let k = varint_len(l);
        assert(varint(10).len() == 1 && varint(18).len() == 1 && varint(26).len() == 1);
        1 + k as u128 + l as u128
    }
}

/// Whether contents fit a cartridge: the instruction count and the body's
/// length fit in four bytes each.
pub fn cartridge_fits(metadata: &Option<String>, videorom: &Option<Vec<u8>>, program: &Vec<RawOp>) -> (r:
    bool)
    ensures
        r == fits_cartridge(*metadata, *videorom, program@),
{
    if program.len() as u64 > 0xFFFF_FFFF {
        return false;
    }
    let meta_len: u64 = match metadata {
        Some(m) => utf8_bytes(m).len() as u64,
        None => 2,
    };
    let rom_len: u64 = match videorom {
        Some(v) => v.len() as u64,
        None => 0,
    };
    let prog_len: u64 = 4 + 12 * program.len() as u64;
    proof {
        lemma_imm_region_len(program@);
        lemma_reg_region_len(program@);
        lemma_le_bytes_len(program@.len(), 4);
    }
    let f1 = field_len(meta_len);
    let f2 = field_len(prog_len);
    let f3 = field_len(rom_len);
    assert(field(1, metadata_bytes(*metadata)).len() == f1);
    assert(field(2, program_bytes(program@)).len() == f2);
    assert(field(3, videorom_bytes(*videorom)).len() == f3);
    f1 + f2 + f3 <= 0xFFFF_FFFF
}

/// Encodes the body of a cartridge: the metadata ("{}" where there is
/// none), the program's bytes, and the video ROM (empty where there is
/// none).
pub fn cartridge_body(metadata: Option<String>, videorom: Option<Vec<u8>>, program: &Vec<RawOp>) -> (r:
    Vec<u8>)
    requires
        program@.len() <= u32::MAX,
    ensures
        r@ == body_of(metadata, videorom, program@),
{
    let ghost mb = metadata_bytes(metadata);
    let ghost rb = videorom_bytes(videorom);
    let meta: Vec<u8> = match &metadata {
        Some(m) => utf8_bytes(m),
        None => vec![123u8, 125u8],
    };
    let rom: Vec<u8> = match videorom {
        Some(v) => v,
        None => Vec::new(),
    };
    let prog = serialize_ops(program);
    let mut body: Vec<u8> = Vec::new();
    push_field(1, &meta, &mut body);
    push_field(2, &prog, &mut body);
    push_field(3, &rom, &mut body);
    assert(body@ =~= cart_body(mb, program_bytes(program@), rb));
    body
}

/// Frames a cartridge body: the tag and the body's length, then the
/// compressed body and its length where `compressed` holds one that is
/// neither empty nor too long for four bytes, else 0 and the body itself.
pub fn frame_cartridge(body: Vec<u8>, compressed: Option<Vec<u8>>) -> (r: Vec<u8>)
    requires
        body@.len() <= u32::MAX,
    ensures
        r@ == framed(body@, option_view(compressed)),
{
    let mut body = body;
    let mut out: Vec<u8> = vec![69u8, 67u8, 74u8, 82u8, 86u8, 48u8, 48u8, 52u8];
    push_le(&mut out, body.len() as u64, 4);
    match compressed {
        Some(mut c) => {
            if c.len() > 0 && c.len() as u64 <= 0xFFFF_FFFF {
                push_le(&mut out, c.len() as u64, 4);
                out.append(&mut c);
                return out;
            }
        },
        None => {},
    }
    push_le(&mut out, 0, 4);
    out.append(&mut body);
    out
}

/// Packs metadata, a program and video ROM into a cartridge. Uncompressed,
/// the body is stored as it is; compressed, zstd's frame of it replaces it
/// (where that frame's length fits the four-byte field, which it does for
/// any body that is not near the format's limit).
pub fn pack_cartridge(
    metadata: Option<String>,
    videorom: Option<Vec<u8>>,
    program: &Vec<RawOp>,
    compress: bool,
) -> (r: Vec<u8>)
    requires
        fits_cartridge(metadata, videorom, program@),
    ensures
        packed_as(body_of(metadata, videorom, program@), compress, r@),
        !compress ==> r@ == container(
            body_of(metadata, videorom, program@).len(),
            0,
            body_of(metadata, videorom, program@),
        ),
        compress && compressed_body(body_of(metadata, videorom, program@)).len() <= u32::MAX
            ==> r@ == container(
            body_of(metadata, videorom, program@).len(),
            compressed_body(body_of(metadata, videorom, program@)).len(),
            compressed_body(body_of(metadata, videorom, program@)),
        ) && compressed_body(body_of(metadata, videorom, program@)).len() > 0,
{
    let body = cartridge_body(metadata, videorom, program);
    if compress {
        let z = compress_bytes(&body);
        frame_cartridge(body, Some(z))
    } else {
        frame_cartridge(body, None)
    }
}

/// Contents left out are the same as "{}" for the metadata and no bytes
/// for the video ROM.
pub proof fn lemma_default_contents(
    metadata: String,
    videorom: Vec<u8>,
    program: Seq<RawOp>,
)
    requires
        metadata@ == seq!['{', '}'],
        videorom@.len() == 0,
    ensures
        body_of(None, None, program) == body_of(Some(metadata), Some(videorom), program),
{
    let m = metadata@;
    assert(m.drop_last() =~= seq!['{']);
    assert(m.drop_last().drop_last() =~= Seq::<char>::empty());
    assert(('{' as u32) == 123);
    assert(('}' as u32) == 125);
    assert(utf8_of('{') =~= seq![123u8]);
    assert(utf8_of('}') =~= seq![125u8]);
    let e = m.drop_last();
    assert(e.len() == 1 && e.last() == '{');
    assert(utf8(e.drop_last()) == Seq::<u8>::empty());
    assert(utf8(e) == utf8(e.drop_last()) + utf8_of('{'));
    assert(utf8(e) =~= seq![123u8]);
    assert(utf8(m) =~= empty_metadata());
    assert(videorom@ =~= Seq::<u8>::empty());
}

// ---- reading a cartridge back ----

/// Reads a LEB128 varint: its value and how many bytes it took.
pub open spec fn read_varint(b: Seq<u8>) -> Option<(nat, nat)>
    decreases b.len(),
{
    if b.len() == 0 {
        None
    } else if b[0] < 128 {
        Some((b[0] as nat, 1))
    } else {
        match read_varint(b.drop_first()) {
            Some((v, k)) => Some((((b[0] - 128) + 128 * v) as nat, k + 1)),
            None => None,
        }
    }
}

/// Reads the fields of a cartridge body onto `acc` (metadata, program and
/// video ROM); `None` for anything but length-delimited fields 1 to 3.
pub open spec fn read_fields(b: Seq<u8>, acc: (Seq<u8>, Seq<u8>, Seq<u8>)) -> Option<
    (Seq<u8>, Seq<u8>, Seq<u8>),
>
    decreases b.len(),
{
    if b.len() == 0 {
        Some(acc)
    } else {
        match read_varint(b) {
            None => None,
            Some((key, k1)) => match read_varint(b.skip(k1 as int)) {
                None => None,
                Some((len, k2)) => {
                    let start = k1 + k2;
                    let end = start + len;
                    if key % 8 != 2 || end > b.len() || start == 0 {
                        None
                    } else {
                        let v = b.subrange(start as int, end as int);
                        let rest = b.skip(end as int);
                        if key / 8 == 1 {
                            read_fields(rest, (v, acc.1, acc.2))
                        } else if key / 8 == 2 {
                            read_fields(rest, (acc.0, v, acc.2))
                        } else if key / 8 == 3 {
                            read_fields(rest, (acc.0, acc.1, v))
                        } else {
                            None
                        }
                    }
                },
            },
        }
    }
}

/// Reads a cartridge body: absent fields are empty.
pub open spec fn read_body(b: Seq<u8>) -> Option<(Seq<u8>, Seq<u8>, Seq<u8>)> {
    read_fields(b, (Seq::empty(), Seq::empty(), Seq::empty()))
}

/// Reads a cartridge's header: the body's length, the stored length, and
/// what is stored.
pub open spec fn read_header(b: Seq<u8>) -> Option<(nat, nat, Seq<u8>)> {
    if b.len() < 16 || b.subrange(0, 8) != cart_magic() {
        None
    } else {
        Some((le_value(b.subrange(8, 12)), le_value(b.subrange(12, 16)), b.skip(16)))
    }
}

proof fn lemma_read_varint(v: nat, rest: Seq<u8>)
    ensures
        read_varint(varint(v) + rest) == Some((v, varint(v).len())),
    decreases v,
{
    let b = varint(v) + rest;
    if v < 128 {
        assert(b[0] == v as u8);
    } else {
        lemma_read_varint(v / 128, rest);
        assert(b.drop_first() =~= varint(v / 128) + rest);
        lemma_fundamental_div_mod(v as int, 128);
    }
}

proof fn lemma_read_field(tag: nat, value: Seq<u8>, rest: Seq<u8>, acc: (Seq<u8>, Seq<u8>, Seq<u8>))
    requires
        1 <= tag <= 3,
        value.len() > 0,
    ensures
        read_fields(length_delimited(tag, value) + rest, acc) == read_fields(
            rest,
            if tag == 1 {
                (value, acc.1, acc.2)
            } else if tag == 2 {
                (acc.0, value, acc.2)
            } else {
                (acc.0, acc.1, value)
            },
        ),
{
    let key = tag * 8 + 2;
    let b = length_delimited(tag, value) + rest;
    let k1 = varint(key).len();
    let k2 = varint(value.len()).len();
    lemma_read_varint(key, varint(value.len()) + value + rest);
    assert(b =~= varint(key) + (varint(value.len()) + value + rest));
    assert(b.skip(k1 as int) =~= varint(value.len()) + (value + rest));
    lemma_read_varint(value.len(), value + rest);
    assert(b.subrange((k1 + k2) as int, (k1 + k2 + value.len()) as int) =~= value);
    assert(b.skip((k1 + k2 + value.len()) as int) =~= rest);
    assert(key % 8 == 2 && key / 8 == tag) by (nonlinear_arith)
        requires
            key == tag * 8 + 2,
    ;
    lemma_varint_len(key);
}

/// Reading a cartridge body back gives its metadata, program and video ROM.
pub proof fn lemma_body_round_trip(metadata: Seq<u8>, program: Seq<u8>, videorom: Seq<u8>)
    ensures
        read_body(cart_body(metadata, program, videorom)) == Some((metadata, program, videorom)),
{
    let e = Seq::<u8>::empty();
    let acc0 = (e, e, e);
    let f1 = field(1, metadata);
    let f2 = field(2, program);
    let f3 = field(3, videorom);
    let acc1 = (metadata, e, e);
    let acc2 = (metadata, program, e);
    let acc3 = (metadata, program, videorom);
    assert(read_fields(e, acc3) == Some(acc3));
    if videorom.len() > 0 {
        lemma_read_field(3, videorom, e, acc2);
        assert(f3 + e =~= f3);
    } else {
        assert(videorom =~= e);
    }
    assert(read_fields(f3, acc2) == Some(acc3));
    if program.len() > 0 {
        lemma_read_field(2, program, f3, acc1);
    } else {
        assert(program =~= e);
        assert(f2 + f3 =~= f3);
    }
    assert(read_fields(f2 + f3, acc1) == Some(acc3));
    if metadata.len() > 0 {
        lemma_read_field(1, metadata, f2 + f3, acc0);
    } else {
        assert(metadata =~= e);
        assert(f1 + (f2 + f3) =~= f2 + f3);
    }
    assert(f1 + f2 + f3 =~= f1 + (f2 + f3));
}

/// Reading a cartridge's header back gives the lengths and what is stored.
pub proof fn lemma_header_round_trip(body_len: nat, stored_len: nat, payload: Seq<u8>)
    requires
        body_len <= u32::MAX,
        stored_len <= u32::MAX,
    ensures
        read_header(container(body_len, stored_len, payload)) == Some(
            (body_len, stored_len, payload),
        ),
{
    let b = container(body_len, stored_len, payload);
    lemma_pow256_values();
    lemma_le_bytes_len(body_len, 4);
    lemma_le_bytes_len(stored_len, 4);
    assert(b.subrange(0, 8) =~= cart_magic());
    assert(b.subrange(8, 12) =~= le_bytes(body_len, 4));
    assert(b.subrange(12, 16) =~= le_bytes(stored_len, 4));
    assert(b.skip(16) =~= payload);
    lemma_le_round_trip(body_len, 4);
    lemma_le_round_trip(stored_len, 4);
}

/// A packed cartridge reads back to what was packed. Its header gives the
/// body's length and what is stored; where the stored length is 0 what is
/// stored is the body itself, else it is the body compressed. The body
/// reads back to the metadata, the program's bytes and the video ROM, and
/// those bytes to the program. Without compression the stored length is 0.
pub proof fn lemma_cartridge_round_trip(
    metadata: Seq<u8>,
    program: Seq<RawOp>,
    videorom: Seq<u8>,
    compress: bool,
    r: Seq<u8>,
)
    requires
        program.len() <= u32::MAX,
        cart_body(metadata, program_bytes(program), videorom).len() <= u32::MAX,
        packed_as(cart_body(metadata, program_bytes(program), videorom), compress, r),
    ensures
        ({
            let body = cart_body(metadata, program_bytes(program), videorom);
            &&& read_header(r) matches Some((body_len, stored_len, payload))
            &&& body_len == body.len()
            &&& stored_len == 0 ==> payload == body
            &&& stored_len != 0 ==> compress && payload == compressed_body(body)
            &&& compress && 0 < compressed_body(body).len() <= u32::MAX ==> stored_len
                == compressed_body(body).len() && payload == compressed_body(body)
            &&& !compress ==> stored_len == 0
            &&& read_body(body) == Some((metadata, program_bytes(program), videorom))
            &&& decode_program(program_bytes(program)) == Some(program)
        }),
{
    let body = cart_body(metadata, program_bytes(program), videorom);
    let z = compressed_body(body);
    if compress && 0 < z.len() <= u32::MAX {
        assert(r == container(body.len(), z.len(), z));
        lemma_header_round_trip(body.len(), z.len(), z);
    } else {
        assert(r == container(body.len(), 0, body));
        lemma_header_round_trip(body.len(), 0, body);
    }
    lemma_body_round_trip(metadata, program_bytes(program), videorom);
    lemma_program_round_trip(program);
}

} // verus!
