use asmjr::bounded_copy;
use asmjr::cartridge::{
    cartridge_body, cartridge_fits, compress_bytes, frame_cartridge, pack_cartridge,
    serialize_ops, RawOp,
};
use asmjr::ops::COp;

fn raw(opcode: u8, rd: u8, rs1: u8, rs2: u8, imm: f64) -> RawOp {
    RawOp { op: COp { opcode, rd, rs1, rs2 }, imm: imm.to_bits() }
}

fn decode_program(b: &[u8]) -> Vec<RawOp> {
    let n = u32::from_le_bytes([b[0], b[1], b[2], b[3]]) as usize;
    assert_eq!(b.len(), 4 + 12 * n);
    (0..n)
        .map(|i| {
            let mut imm = [0u8; 8];
            imm.copy_from_slice(&b[4 + 8 * i..12 + 8 * i]);
            let r = 4 + 8 * n + 4 * i;
            RawOp {
                op: COp { opcode: b[r], rd: b[r + 1], rs1: b[r + 2], rs2: b[r + 3] },
                imm: u64::from_le_bytes(imm),
            }
        })
        .collect()
}

fn read_varint(b: &[u8], pos: &mut usize) -> u64 {
    let mut v: u64 = 0;
    let mut shift = 0;
    loop {
        let byte = b[*pos];
        *pos += 1;
        v |= ((byte & 0x7f) as u64) << shift;
        if byte < 0x80 {
            return v;
        }
        shift += 7;
    }
}

fn read_body(b: &[u8]) -> (Vec<u8>, Vec<u8>, Vec<u8>) {
    let mut fields = (Vec::new(), Vec::new(), Vec::new());
    let mut pos = 0;
    while pos < b.len() {
        let key = read_varint(b, &mut pos);
        assert_eq!(key & 7, 2);
        let len = read_varint(b, &mut pos) as usize;
        let v = b[pos..pos + len].to_vec();
        pos += len;
        match key >> 3 {
            1 => fields.0 = v,
            2 => fields.1 = v,
            3 => fields.2 = v,
            _ => panic!("unknown field"),
        }
    }
    fields
}

fn sample_program(n: usize) -> Vec<RawOp> {
    (0..n)
        .map(|i| raw((i % 71) as u8, i as u8, (2 * i) as u8, 255, i as f64 * -1.5))
        .collect()
}

#[test]
fn program_layout() {
    let bytes = serialize_ops(&vec![raw(12, 1, 2, 3, 1.0)]);
    let mut expected = vec![1, 0, 0, 0];
    expected.extend_from_slice(&1.0f64.to_le_bytes());
    expected.extend_from_slice(&[12, 1, 2, 3]);
    assert_eq!(bytes, expected);
}

#[test]
fn program_round_trip() {
    for n in [0, 1, 2, 300] {
        let prog = sample_program(n);
        let bytes = serialize_ops(&prog);
        assert_eq!(bytes.len(), 4 + 12 * n);
        assert_eq!(decode_program(&bytes), prog);
    }
}

#[test]
fn uncompressed_cartridge_round_trip() {
    let prog = sample_program(3);
    let meta = "{\"author\":\"é\"}".to_string();
    let rom = vec![1u8, 2, 3, 250];
    let cart = pack_cartridge(Some(meta.clone()), Some(rom.clone()), &prog, false);
    assert_eq!(&cart[0..8], b"ECJRV004");
    let body_len = u32::from_le_bytes(cart[8..12].try_into().unwrap()) as usize;
    assert_eq!(&cart[12..16], &[0, 0, 0, 0]);
    assert_eq!(cart.len(), 16 + body_len);
    let (m, p, r) = read_body(&cart[16..]);
    assert_eq!(m, meta.as_bytes());
    assert_eq!(decode_program(&p), prog);
    assert_eq!(r, rom);
}

#[test]
fn compressed_cartridge_round_trip() {
    let prog = sample_program(50);
    let rom = vec![7u8; 4096];
    let cart = pack_cartridge(None, Some(rom.clone()), &prog, true);
    assert_eq!(&cart[0..8], b"ECJRV004");
    let body_len = u32::from_le_bytes(cart[8..12].try_into().unwrap()) as usize;
    let stored_len = u32::from_le_bytes(cart[12..16].try_into().unwrap()) as usize;
    assert_ne!(stored_len, 0);
    assert_eq!(cart.len(), 16 + stored_len);
    assert!(stored_len < body_len);
    let body = zstd::stream::decode_all(&cart[16..]).unwrap();
    assert_eq!(body.len(), body_len);
    let (m, p, r) = read_body(&body);
    assert_eq!(m, b"{}");
    assert_eq!(decode_program(&p), prog);
    assert_eq!(r, rom);
}

#[test]
fn defaults_and_empty_fields() {
    let cart = pack_cartridge(None, None, &vec![], false);
    // the empty video ROM is left out of the body
    let mut body = vec![0x0a, 2, b'{', b'}', 0x12, 4, 0, 0, 0, 0];
    let mut expected = b"ECJRV004".to_vec();
    expected.extend_from_slice(&(body.len() as u32).to_le_bytes());
    expected.extend_from_slice(&[0, 0, 0, 0]);
    expected.append(&mut body);
    assert_eq!(cart, expected);
}

#[test]
fn compressor_output() {
    let data = vec![42u8; 1000];
    let c = compress_bytes(&data);
    assert_ne!(c, data);
    assert_eq!(zstd::stream::decode_all(&c[..]).unwrap(), data);
}

#[test]
fn bounded_copy_truncates() {
    let mut dest = [9u8; 4];
    assert_eq!(bounded_copy(&mut dest, &[1, 2]), 2);
    assert_eq!(dest, [1, 2, 9, 9]);
    assert_eq!(bounded_copy(&mut dest, &[5, 6, 7, 8, 9, 10]), 4);
    assert_eq!(dest, [5, 6, 7, 8]);
}

#[test]
fn compressed_cartridge_is_exact() {
    let prog = sample_program(20);
    let body = cartridge_body(None, None, &prog);
    let z = compress_bytes(&body);
    let mut expected = b"ECJRV004".to_vec();
    expected.extend_from_slice(&(body.len() as u32).to_le_bytes());
    expected.extend_from_slice(&(z.len() as u32).to_le_bytes());
    expected.extend_from_slice(&z);
    assert_eq!(pack_cartridge(None, None, &prog, true), expected);
    assert_eq!(frame_cartridge(body.clone(), Some(z)), expected);
    assert_eq!(
        pack_cartridge(Some("{}".to_string()), Some(vec![]), &prog, true),
        pack_cartridge(None, None, &prog, true)
    );
    // an empty compressed body would read as "stored as it is"
    let plain = frame_cartridge(body.clone(), Some(vec![]));
    assert_eq!(&plain[12..16], &[0, 0, 0, 0]);
    assert_eq!(&plain[16..], &body[..]);
}

#[test]
fn size_check() {
    let prog = sample_program(3);
    assert!(cartridge_fits(&None, &None, &prog));
    assert!(cartridge_fits(&Some("{}".to_string()), &Some(vec![1, 2, 3]), &prog));
    let body = cartridge_body(Some("m".to_string()), Some(vec![9; 300]), &prog);
    assert_eq!(body.len(), (1 + 1 + 1) + (1 + 1 + 40) + (1 + 2 + 300));
}
