use asmjr::literal::{is_float_literal_exec, string_literal_to_immediate};
use asmjr::ops::{parse_immediate, parse_op, Aliases, COp, Constants, Imm, ImmVal, Op, OpErr};

fn packed(bytes: &[u8]) -> f64 {
    let mut val: f64 = 0.0;
    let mut mult: f64 = 1.0;
    for c in bytes {
        val += (*c as f64) * mult;
        mult *= 256.0;
    }
    val
}

fn imm_value(imm: &Imm) -> f64 {
    let value = match &imm.val {
        ImmVal::Int(v) => *v as f64,
        ImmVal::Float(text) => text.iter().collect::<String>().parse::<f64>().unwrap(),
        ImmVal::Chars(bytes) => packed(bytes),
    };
    value - (imm.minus as f64)
}

fn lit(s: &str) -> Option<f64> {
    string_literal_to_immediate(s).map(|b| packed(&b))
}

fn imm(token: &str, pc: u32, rel: bool, constants: &Constants) -> Result<f64, OpErr> {
    parse_immediate(token, pc, rel, constants).map(|i| imm_value(&i))
}

fn op_value(op: &Op) -> (COp, f64) {
    (op.op, imm_value(&op.imm))
}

fn test_constants() -> Constants {
    let mut constants = Constants::new();
    constants.insert_str("THETA", ImmVal::Int(17));
    constants.insert_str("LABELONE", ImmVal::Int(40));
    constants
}

#[test]
fn test_string_literal() {
    assert_eq!(lit(r#""""#), Some(0.0));
    assert_eq!(lit(r#""a""#), Some(b'a' as f64));
    assert_eq!(lit(r#""\"""#), Some(b'"' as f64));
    assert_eq!(lit(r#""\\""#), Some(b'\\' as f64));
    assert_eq!(lit(r#""ab""#), Some((b'a' as f64) + 256.0 * (b'b' as f64)));
    // space is 0x20, P is 0x50: literals are encoded little endian
    assert_eq!(lit(r#""     P""#), Some(0x502020202020i64 as f64));
    assert_eq!(lit(r#""abcdef""#), Some(0x666564636261i64 as f64));
    assert_eq!(
        lit(r#""\\\\""#),
        Some((b'\\' as f64) + 256.0 * (b'\\' as f64))
    );

    assert!(lit("a").is_none());
    assert!(lit(r#""a"#).is_none());
}

#[test]
fn test_immediate() {
    let constants = test_constants();

    assert_eq!(imm("+30", 0, false, &constants), Ok(30.0));
    assert_eq!(imm("+30.0", 0, false, &constants), Ok(30.0));
    assert_eq!(imm("-30", 0, false, &constants), Ok(-30.0));
    assert_eq!(imm("-30.0", 0, false, &constants), Ok(-30.0));
    assert_eq!(imm("0xFF", 0, false, &constants), Ok(255.0));
    assert_eq!(imm("THETA", 0, false, &constants), Ok(17.0));
    assert_eq!(imm("56.25", 0, false, &constants), Ok(56.25));
    assert_eq!(
        imm(r#""abcdef""#, 0, false, &constants),
        Ok(0x666564636261i64 as f64)
    );
    assert_eq!(imm("LABELONE", 30, false, &constants), Ok(40.0));
    assert_eq!(imm("LABELONE", 30, true, &constants), Ok(10.0));
    assert_eq!(imm("LABELONE", 50, true, &constants), Ok(-10.0));
}

#[test]
fn test_op() {
    let constants = test_constants();

    let mut aliases = Aliases::new();
    aliases.insert_str("zero", 0);
    aliases.insert_str("x1", 1);
    aliases.insert_str("x2", 2);

    // too many arguments for NOP
    assert!(parse_op(&vec!["nop", "x1", "zero", "3"], 0, &constants, &aliases).is_err());
    // too few arguments for add
    assert!(parse_op(&vec!["add", "x1", "zero"], 0, &constants, &aliases).is_err());
    // THETA shouldn't parse as a register for ADD
    assert!(parse_op(&vec!["add", "x1", "zero", "THETA"], 0, &constants, &aliases).is_err());
    // blorp isn't a valid opcode
    assert!(parse_op(&vec!["blorp", "x1", "zero", "THETA"], 0, &constants, &aliases).is_err());
    assert_eq!(
        parse_op(&vec!["add", "x1", "zero", "3"], 0, &constants, &aliases).map(|o| op_value(&o)),
        Ok((COp { opcode: 12, rd: 1, rs1: 0, rs2: 3 }, 0.0))
    );
    assert_eq!(
        parse_op(&vec!["Muli", "x2", "x1", "THETA"], 0, &constants, &aliases)
            .map(|o| op_value(&o)),
        Ok((COp { opcode: 17, rd: 2, rs1: 1, rs2: 0 }, 17.0))
    );
    // BEQ is a relative jump, so the immediate should become label-pc = 30
    assert_eq!(
        parse_op(&vec!["BEQ", "2", "3", "LABELONE"], 10, &constants, &aliases)
            .map(|o| op_value(&o)),
        Ok((COp { opcode: 54, rd: 0, rs1: 2, rs2: 3 }, 30.0))
    );
    assert_eq!(
        parse_op(&vec!["jalr", "x1", "3", "LABELONE"], 10, &constants, &aliases)
            .map(|o| op_value(&o)),
        Ok((COp { opcode: 53, rd: 1, rs1: 3, rs2: 0 }, 40.0))
    );
}

#[test]
fn doubly_negated_literals_follow_parse_int() {
    let constants = Constants::new();
    assert_eq!(imm("--5", 0, false, &constants), Ok(5.0));
    assert_eq!(imm("0x-5", 0, false, &constants), Ok(-5.0));
    assert_eq!(imm("-0x-_5", 0, false, &constants), Ok(5.0));
    // the one value whose negation overflows is no literal
    assert_eq!(
        imm("--9223372036854775808", 0, false, &constants),
        Err(OpErr::InvalidImmediate("--9223372036854775808".to_string()))
    );
    assert_eq!(
        imm("-0x-8000_0000_0000_0000", 0, false, &constants),
        Err(OpErr::InvalidImmediate("-0x-8000_0000_0000_0000".to_string()))
    );
    assert_eq!(imm("--9223372036854775807", 0, false, &constants), Ok(9223372036854775807.0));
}

#[test]
fn mnemonics_lower_by_unicode_case_mapping() {
    let constants = Constants::new();
    let mut aliases = Aliases::new();
    aliases.insert_str("x1", 1);
    // the Kelvin sign lower-cases to 'k'
    let op = parse_op(&vec!["\u{212A}ILL", "x1", "0"], 0, &constants, &aliases).unwrap();
    assert_eq!(op.op.opcode, 0);
    assert_eq!(
        parse_op(&vec!["BL\u{D6}RP"], 0, &constants, &aliases),
        Err(OpErr::InvalidOpcode("bl\u{F6}rp".to_string()))
    );
}

#[test]
fn register_literals() {
    let constants = Constants::new();
    let aliases = Aliases::new();
    let op = parse_op(&vec!["mv", "0xff", "1_0"], 0, &constants, &aliases).unwrap();
    assert_eq!((op.op.rd, op.op.rs1), (255, 10));
    assert_eq!(
        parse_op(&vec!["mv", "-1", "1"], 0, &constants, &aliases),
        Err(OpErr::InvalidRegister("-1".to_string()))
    );
    assert_eq!(
        parse_op(&vec!["mv", "256", "1"], 0, &constants, &aliases),
        Err(OpErr::InvalidRegister("256".to_string()))
    );
}

#[test]
fn float_grammar_matches_std() {
    let tokens = [
        "inf", "Infinity", "-INF", "+nan", "NaN", ".5", "5.", "1E+5", "1e-5", "e5", ".", "0x1",
        "1_0", "1.2.3", "+", "-", "", "1e", "1e+", "--1", "+.5e3", "infinit", "5", "-0", " 5",
        "1.5E10", "١",
    ];
    for t in tokens {
        let chars: Vec<char> = t.chars().collect();
        assert_eq!(
            is_float_literal_exec(&chars),
            t.parse::<f64>().is_ok(),
            "{:?}",
            t
        );
    }
}
