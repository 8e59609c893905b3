use asmjr::literal::chars_of;
use asmjr::ops::{parse_op, Aliases, Constants, Imm, ImmVal, Op, OpErr};
use asmjr::optable::{lookup_op, OpArg};
use asmjr::parser::{default_aliases, parse, ParseErr};

fn imm_value(imm: &Imm) -> f64 {
    let value = match &imm.val {
        ImmVal::Int(v) => *v as f64,
        ImmVal::Float(text) => text.iter().collect::<String>().parse::<f64>().unwrap(),
        ImmVal::Chars(bytes) => {
            let mut val: f64 = 0.0;
            let mut mult: f64 = 1.0;
            for c in bytes {
                val += (*c as f64) * mult;
                mult *= 256.0;
            }
            val
        }
    };
    value - (imm.minus as f64)
}

fn assemble(src: &str) -> Vec<Op> {
    match parse(src) {
        Ok(ops) => ops,
        Err(e) => panic!("{}", e.to_string()),
    }
}

const MNEMONICS: [&str; 71] = [
    "kill", "spawn", "xkill", "xres", "crid", "crcfg", "crcnd", "crclk", "crct", "clk", "mv",
    "nop", "add", "addi", "sub", "subi", "mul", "muli", "div", "divi", "mod", "modi", "pow",
    "powi", "min", "mini", "max", "maxi", "eq", "eqi", "neq", "neqi", "geq", "geqi", "leq",
    "leqi", "lt", "lti", "gt", "gti", "and", "andi", "or", "ori", "xor", "xori", "lsh", "lshi",
    "rsh", "rshi", "li", "aipc", "jal", "jalr", "beq", "bne", "blt", "bge", "load", "store",
    "pushi", "unpki", "cas", "smprm", "srprm", "swprm", "sxprm", "abs", "sin", "cos", "atan",
];

fn operands_for(name: &str) -> Vec<&'static str> {
    let info = lookup_op(&chars_of(name)).expect("a mnemonic of the table");
    let mut v = Vec::new();
    for k in 0..info.argct {
        v.push(match info.args[k] {
            OpArg::Im => "7",
            _ => "x3",
        });
    }
    v
}

#[test]
fn every_mnemonic_encodes_its_opcode() {
    for (i, name) in MNEMONICS.iter().enumerate() {
        let line = format!("{} {}", name, operands_for(name).join(", "));
        let ops = assemble(&line);
        assert_eq!(ops.len(), 1, "{}", line);
        assert_eq!(ops[0].op.opcode as usize, i, "{}", line);
    }
}

#[test]
fn wrong_operand_count_is_reported() {
    let constants = Constants::new();
    let aliases = default_aliases();
    for name in MNEMONICS.iter() {
        let expected = operands_for(name).len();
        let mut toks = vec![*name];
        for _ in 0..expected + 1 {
            toks.push("x1");
        }
        assert_eq!(
            parse_op(&toks, 0, &constants, &aliases),
            Err(OpErr::InvalidArgumentCount(expected + 1, expected))
        );
        if expected > 0 {
            toks.truncate(expected);
            assert_eq!(
                parse_op(&toks, 0, &constants, &aliases),
                Err(OpErr::InvalidArgumentCount(expected - 1, expected))
            );
        }
    }
}

#[test]
fn wrong_operand_count_aborts_assembly() {
    match parse("nop\nadd x1 x2\nnop") {
        Err(ParseErr::Line(pos, line, msg)) => {
            assert_eq!(pos, 1);
            assert_eq!(line, "add x1 x2");
            assert_eq!(msg, "Wrong number of arguments: got 2, expected 3");
        }
        other => panic!("unexpected {:?}", other),
    }
}

#[test]
fn relative_jump_to_label() {
    let ops = assemble("start:\nnop\njal x1 target\nnop\nnop\ntarget:\nnop");
    assert_eq!(ops.len(), 5);
    assert_eq!(ops[1].op.opcode, 52);
    assert_eq!(ops[1].op.rd, 1);
    // target is instruction 4, the jump is instruction 1
    assert_eq!(imm_value(&ops[1].imm), 3.0);
    let back = assemble("top:\nnop\nnop\njal ra top");
    assert_eq!(imm_value(&back[2].imm), -2.0);
}

#[test]
fn string_literal_immediate() {
    let ops = assemble("li x1 \"AB\"");
    assert_eq!(ops[0].op.opcode, 50);
    assert_eq!(ops[0].op.rd, 1);
    assert_eq!(imm_value(&ops[0].imm), 16961.0);
    assert_eq!(ops[0].imm.val, ImmVal::Chars(vec![65, 66]));
}

#[test]
fn mnemonic_case_is_ignored() {
    let constants = Constants::new();
    let aliases = default_aliases();
    for name in ["ADD", "Add", "add", "aDd"] {
        let op = parse_op(&vec![name, "x1", "x2", "x3"], 0, &constants, &aliases).unwrap();
        assert_eq!(op.op.opcode, 12);
    }
}

#[test]
fn forward_label_reference() {
    let src = "beq x1 x2 end\nnop\n; skip ahead\nnop\nend:\nkill x0 0";
    let ops = assemble(src);
    assert_eq!(ops.len(), 4);
    assert_eq!(ops[0].op.opcode, 54);
    assert_eq!(ops[0].op.rs1, 1);
    assert_eq!(ops[0].op.rs2, 2);
    assert_eq!(imm_value(&ops[0].imm), 3.0);
    // an absolute reference keeps the address
    let ops = assemble("li x5 end\nnop\nend:\nnop");
    assert_eq!(imm_value(&ops[0].imm), 2.0);
}

#[test]
fn aliases_and_constants() {
    let src = ".alias acc x7\n.alias acc2 acc\n.const SPEED 2.5\n.const LIMIT 0x10\nmuli acc2 acc SPEED\naddi acc acc LIMIT";
    let ops = assemble(src);
    assert_eq!(ops[0].op.rd, 7);
    assert_eq!(ops[0].op.rs1, 7);
    assert_eq!(imm_value(&ops[0].imm), 2.5);
    assert_eq!(imm_value(&ops[1].imm), 16.0);
    // a later definition wins
    let ops = assemble(".alias r x1\n.alias r x2\nmv r r");
    assert_eq!(ops[0].op.rd, 2);
}

#[test]
fn builtin_names() {
    let ops = assemble("mv t10 tp\nmv x255 sp\nli gp $ARR_INPUT_GAMEPADS\nli zero $TEXT_ENABLE");
    assert_eq!((ops[0].op.rd, ops[0].op.rs1), (15, 4));
    assert_eq!((ops[1].op.rd, ops[1].op.rs1), (255, 2));
    assert_eq!(imm_value(&ops[2].imm), 29.0);
    assert_eq!(imm_value(&ops[3].imm), 0.0);
    // memory-mapped names are absolute, even for a relative instruction
    let ops = assemble("nop\njal ra $ROM_BANK");
    assert_eq!(imm_value(&ops[1].imm), 6.0 - 1.0);
}

#[test]
fn literals_of_every_kind() {
    let ops = assemble("li x1 0b101\nli x1 0o17\nli x1 -0x10\nli x1 1e3\nli x1 .5\nli x1 -inf\nli x1 \"a\\\"b\"");
    assert_eq!(imm_value(&ops[0].imm), 5.0);
    assert_eq!(imm_value(&ops[1].imm), 15.0);
    assert_eq!(imm_value(&ops[2].imm), -16.0);
    assert_eq!(imm_value(&ops[3].imm), 1000.0);
    assert_eq!(imm_value(&ops[4].imm), 0.5);
    assert_eq!(imm_value(&ops[5].imm), f64::NEG_INFINITY);
    assert_eq!(ops[6].imm.val, ImmVal::Chars(vec![b'a', b'"', b'b']));
    let ops = assemble("li 0x1F 0\nli 255 0");
    assert_eq!(ops[0].op.rd, 31);
    assert_eq!(ops[1].op.rd, 255);
}

#[test]
fn error_kinds() {
    let line_err = |src: &str| match parse(src) {
        Err(ParseErr::Line(pos, _, msg)) => (pos, msg),
        other => panic!("unexpected {:?}", other),
    };
    assert_eq!(
        line_err(".alias a nowhere"),
        (0, "Invalid alias: \"nowhere\"".to_string())
    );
    assert_eq!(
        line_err("nop\nBLORP x1"),
        (1, "Unrecognized opcode: [blorp]".to_string())
    );
    assert_eq!(
        line_err("li x1 missing"),
        (0, "Immediate \"missing\" is not a literal or known label".to_string())
    );
    assert_eq!(
        line_err("mv x1 x256"),
        (0, "Register \"x256\" is not a literal or known alias".to_string())
    );
    assert_eq!(
        line_err(".const K nothing"),
        (0, "Immediate \"nothing\" is not a literal or known label".to_string())
    );
    // a constant may only use constants defined before it
    assert!(matches!(parse(".const A B\n.const B 1"), Err(ParseErr::Line(0, _, _))));
}

#[test]
fn malformed_lines() {
    for src in ["li x1 \"open", "nop\nlabel: nop", ".alias x", "3abc x1", "li x1 \"a\"b"] {
        match parse(src) {
            Err(ParseErr::Generic(_)) => {}
            other => panic!("{:?} gave {:?}", src, other),
        }
    }
    // malformed lines are found before any line is assembled
    match parse("blorp\nli x1 \"open") {
        Err(e) => assert_eq!(e.to_string(), "Parse error: malformed line 2: li x1 \"open"),
        Ok(_) => panic!("accepted"),
    }
}

#[test]
fn error_messages() {
    let e = parse("nop\n\nmv x1").unwrap_err();
    assert_eq!(
        e.to_string(),
        "Parse error on line 3 [\"mv x1\"]: Wrong number of arguments: got 1, expected 2"
    );
    assert_eq!(OpErr::Impossible.to_string(), "This shouldn't be possible!");
    assert_eq!(OpErr::EmptyOp.to_string(), "Empty opcode (grammar problem?)");
}

#[test]
fn empty_and_comment_only_sources() {
    assert_eq!(assemble("").len(), 0);
    assert_eq!(assemble("; nothing\n   \n# still nothing\n").len(), 0);
    let ops = assemble("  add x1, x2, x3   ; sum\n");
    assert_eq!(ops.len(), 1);
    assert_eq!((ops[0].op.rd, ops[0].op.rs1, ops[0].op.rs2), (1, 2, 3));
}

#[test]
fn empty_op_tokens() {
    let constants = Constants::new();
    let aliases = Aliases::new();
    assert_eq!(parse_op(&vec![], 0, &constants, &aliases), Err(OpErr::EmptyOp));
}
