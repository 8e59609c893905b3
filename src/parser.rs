use vstd::prelude::*;
use crate::lexer::{
    classify_line, lemma_split_lines_nonempty, line_kind, lines_of, split_lines, Line, LineView,
};
use crate::literal::{
    chars_of, decimal, decimal_string, register_literal, register_literal_of, string_of,
};
use crate::memmap::{add_memmap_constants, memmap_bindings};
use crate::ops::{
    copy_vec, encode_op, imm_integer, immediate_spec, lemma_relative_reference,
    lemma_wrong_operand_count, mnemonic_key, op_err_message,
    op_spec, refers_to, resolve_immediate,
    AliasModel, Aliases, ConstModel, Constants, ImmVal, ImmValView, Op, OpErr, OpErrView, OpView,
};
use crate::optable::find_op;
use crate::symbols::lookup_in;

verus! {

/// Number of numbered registers, `x0` and on.
pub const MAX_REGISTERS: usize = 256;

/// Number of temporary registers, `t0` and on.
pub const TEMP_REGISTERS: usize = 11;

/// The built-in register names: `zero`, `ra`, `sp`, `gp`, `tp` for 0 to 4,
/// `x0` to `x255` for each register, and `t0` to `t10` for 5 to 15.
pub open spec fn default_alias_bindings() -> AliasModel {
    seq![
        (seq!['z', 'e', 'r', 'o'], 0u8),
        (seq!['r', 'a'], 1u8),
        (seq!['s', 'p'], 2u8),
        (seq!['g', 'p'], 3u8),
        (seq!['t', 'p'], 4u8),
    ] + Seq::new(MAX_REGISTERS as nat, |i: int| (seq!['x'] + decimal(i as nat), i as u8))
        + Seq::new(TEMP_REGISTERS as nat, |i: int| (seq!['t'] + decimal(i as nat), (5 + i) as u8))
}

/// A fresh alias table that holds the built-in register names.
pub fn default_aliases() -> (r: Aliases)
    ensures
        r@ == default_alias_bindings(),
{
    let mut aliases: Aliases = Aliases::new();
    aliases.insert(vec!['z', 'e', 'r', 'o'], 0);
    aliases.insert(vec!['r', 'a'], 1);
    aliases.insert(vec!['s', 'p'], 2);
    aliases.insert(vec!['g', 'p'], 3);
    aliases.insert(vec!['t', 'p'], 4);
    let ghost head = aliases@;
    let ghost xs = Seq::new(MAX_REGISTERS as nat, |i: int| (seq!['x'] + decimal(i as nat), i as u8));
    let ghost ts = Seq::new(
        TEMP_REGISTERS as nat,
        |i: int| (seq!['t'] + decimal(i as nat), (5 + i) as u8),
    );
    let mut reg_idx: usize = 0;
    assert(aliases@ =~= head + xs.take(0));
    while reg_idx < MAX_REGISTERS
        invariant
            0 <= reg_idx <= MAX_REGISTERS,
            xs == Seq::new(MAX_REGISTERS as nat, |i: int| (seq!['x'] + decimal(i as nat), i as u8)),
            aliases@ == head + xs.take(reg_idx as int),
        decreases MAX_REGISTERS - reg_idx,
    {
        let mut name: Vec<char> = vec!['x'];
        let mut digits = string_of_decimal(reg_idx);
        name.append(&mut digits);
        assert(name@ =~= seq!['x'] + decimal(reg_idx as nat));
        assert(xs.take(reg_idx + 1) =~= xs.take(reg_idx as int).push(xs[reg_idx as int]));
        aliases.insert(name, reg_idx as u8);
        reg_idx = reg_idx + 1;
        assert(aliases@ =~= head + xs.take(reg_idx as int));
    }
    assert(xs.take(MAX_REGISTERS as int) =~= xs);
    let ghost mid = aliases@;
    let mut temp_idx: usize = 0;
    assert(aliases@ =~= mid + ts.take(0));
    while temp_idx < TEMP_REGISTERS
        invariant
            0 <= temp_idx <= TEMP_REGISTERS,
            ts == Seq::new(
                TEMP_REGISTERS as nat,
                |i: int| (seq!['t'] + decimal(i as nat), (5 + i) as u8),
            ),
            aliases@ == mid + ts.take(temp_idx as int),
        decreases TEMP_REGISTERS - temp_idx,
    {
        let mut name: Vec<char> = vec!['t'];
        let mut digits = string_of_decimal(temp_idx);
        name.append(&mut digits);
        assert(name@ =~= seq!['t'] + decimal(temp_idx as nat));
        assert(ts.take(temp_idx + 1) =~= ts.take(temp_idx as int).push(ts[temp_idx as int]));
        aliases.insert(name, (5 + temp_idx) as u8);
        temp_idx = temp_idx + 1;
        assert(aliases@ =~= mid + ts.take(temp_idx as int));
    }
    assert(ts.take(TEMP_REGISTERS as int) =~= ts);
    assert(aliases@ =~= default_alias_bindings());
    aliases
}

fn string_of_decimal(n: usize) -> (r: Vec<char>)
    ensures
        r@ == decimal(n as nat),
{
    chars_of(decimal_string(n as u128).as_str())
}

/// The register an alias definition's value names: a byte literal, else an
/// alias defined before.
pub open spec fn alias_value(v: Seq<char>, aliases: AliasModel) -> Option<u8> {
    match register_literal(v) {
        Some(r) => Some(r),
        None => lookup_in(aliases, v),
    }
}

/// Defines the alias `name` as the register that `value` names.
pub fn add_alias(aliases: &mut Aliases, name: &Vec<char>, value: &Vec<char>) -> (r: Result<
    (),
    OpErr,
>)
    ensures
        match alias_value(value@, old(aliases)@) {
            Some(v) => r is Ok && final(aliases)@ == old(aliases)@.push((name@, v)),
            None => r matches Err(e) && e@ == OpErrView::InvalidAlias(value@) && final(aliases)@
                == old(aliases)@,
        },
{
    if let Some(v) = register_literal_of(value) {
        aliases.insert(copy_vec(name), v);
        return Ok(());
    }
    match aliases.lookup(value) {
        Some(v) => {
            let v = *v;
            aliases.insert(copy_vec(name), v);
            Ok(())
        },
        None => Err(OpErr::InvalidAlias(string_of(value))),
    }
}

/// Defines the constant `name` as the value of the immediate `value`.
pub fn add_constant(constants: &mut Constants, name: &Vec<char>, value: &Vec<char>) -> (r: Result<
    (),
    OpErr,
>)
    ensures
        match immediate_spec(value@, 0, false, old(constants)@) {
            Ok(i) => r is Ok && final(constants)@ == old(constants)@.push((name@, i.val)),
            Err(e) => r matches Err(x) && x@ == e && final(constants)@ == old(constants)@,
        },
{
    match resolve_immediate(value, 0, false, constants) {
        Ok(imm) => {
            constants.insert(copy_vec(name), imm.val);
            Ok(())
        },
        Err(e) => Err(e),
    }
}

/// Why a source text could not be assembled.
#[derive(Debug)]
pub enum ParseErr {
    /// A malformed line.
    Generic(String),
    /// A line that could not be assembled: its 0-based position, its text,
    /// and the reason.
    Line(usize, String, String),
}

pub enum ParseErrView {
    Generic(Seq<char>),
    Line(usize, Seq<char>, Seq<char>),
}

impl View for ParseErr {
    type V = ParseErrView;

    open spec fn view(&self) -> ParseErrView {
        match self {
            ParseErr::Generic(s) => ParseErrView::Generic(s@),
            ParseErr::Line(p, l, m) => ParseErrView::Line(*p, l@, m@),
        }
    }
}

/// The message that explains a parse error; lines count from 1.
pub open spec fn parse_err_message(e: ParseErrView) -> Seq<char> {
    match e {
        ParseErrView::Generic(s) => "Parse error: "@ + s,
        ParseErrView::Line(pos, line, msg) => "Parse error on line "@ + decimal((pos + 1) as nat) + " [\""@
            + line + "\"]: "@ + msg,
    }
}

impl ParseErr {
    /// The message that explains this error.
    pub fn to_string(&self) -> (r: String)
        ensures
            r@ == parse_err_message(self@),
    {
        match self {
            ParseErr::Generic(s) => {
                let mut r = String::from_str("Parse error: ");
                r.append(s.as_str());
                r
            },
            ParseErr::Line(pos, line, msg) => {
                let mut r = String::from_str("Parse error on line ");
                r.append(decimal_string(*pos as u128 + 1).as_str());
                r.append(" [\"");
                r.append(line.as_str());
                r.append("\"]: ");
                r.append(msg.as_str());
                r
            },
        }
    }
}

/// The error for line `linepos` with text `line`, failed for `operr`.
pub open spec fn line_error(operr: OpErrView, linepos: usize, line: Seq<char>) -> ParseErrView {
    ParseErrView::Line(linepos, line, op_err_message(operr))
}

pub fn parse_err(operr: OpErr, linepos: usize, line: &Vec<char>) -> (r: ParseErr)
    ensures
        r@ == line_error(operr@, linepos, line@),
{
    ParseErr::Line(linepos, string_of(line), operr.to_string())
}

/// The message for a malformed line at 0-based position `k`.
pub open spec fn syntax_message(k: nat, line: Seq<char>) -> Seq<char> {
    "malformed line "@ + decimal(k + 1) + ": "@ + line
}

/// The label pass: the label bindings met so far, and the address of the
/// next instruction.
pub open spec fn label_pass(ls: Seq<LineView>) -> (ConstModel, nat)
    decreases ls.len(),
{
    if ls.len() == 0 {
        (Seq::empty(), 0)
    } else {
        let (b, pc) = label_pass(ls.drop_last());
        match ls.last() {
            LineView::Label(n) => (b.push((n, ImmValView::Int(pc as i64))), pc),
            LineView::Instr(_) => (b, pc + 1),
            _ => (b, pc),
        }
    }
}

proof fn lemma_label_pass_pc(ls: Seq<LineView>)
    ensures
        label_pass(ls).1 <= ls.len(),
    decreases ls.len(),
{
    if ls.len() > 0 {
        lemma_label_pass_pc(ls.drop_last());
    }
}

pub open spec fn lines_view(ls: Seq<Line>) -> Seq<LineView> {
    ls.map_values(|l: Line| l@)
}

/// Binds each label to the address of the next instruction after it, in a
/// fresh constant table.
pub fn find_labels(lines: &Vec<Line>) -> (r: Constants)
    requires
        lines@.len() <= u32::MAX,
    ensures
        r@ == label_pass(lines_view(lines@)).0,
{
    let ghost lv = lines_view(lines@);
    let mut labels: Constants = Constants::new();
    let mut pc: u32 = 0;
    let mut k: usize = 0;
    assert(lv.take(0) =~= Seq::<LineView>::empty());
    while k < lines.len()
        invariant
            0 <= k <= lines@.len(),
            lines@.len() <= u32::MAX,
            lv == lines_view(lines@),
            label_pass(lv.take(k as int)) == (labels@, pc as nat),
        decreases lines.len() - k,
    {
        proof {
            lemma_label_pass_pc(lv.take(k as int));
        }
        assert(lv.take(k + 1).drop_last() =~= lv.take(k as int));
        assert(lv.take(k + 1).last() == lines@[k as int]@);
        match &lines[k] {
            Line::Label(name) => {
                labels.insert(copy_vec(name), ImmVal::Int(pc as i64));
            },
            Line::Instr(_) => {
                pc = pc + 1;
            },
            _ => {},
        }
        k = k + 1;
    }
    assert(lv.take(k as int) =~= lv);
    labels
}

/// The main pass from line `k` on, with the tables and instructions so far.
pub open spec fn main_pass(
    ls: Seq<LineView>,
    texts: Seq<Seq<char>>,
    k: int,
    constants: ConstModel,
    aliases: AliasModel,
    ops: Seq<OpView>,
) -> Result<Seq<OpView>, ParseErrView>
    decreases ls.len() - k,
{
    if k < 0 || k >= ls.len() {
        Ok(ops)
    } else {
        match ls[k] {
            LineView::Alias(n, v) => match alias_value(v, aliases) {
                Some(r) => main_pass(ls, texts, k + 1, constants, aliases.push((n, r)), ops),
                None => Err(line_error(OpErrView::InvalidAlias(v), k as usize, texts[k])),
            },
            LineView::Constant(n, v) => match immediate_spec(v, 0, false, constants) {
                Ok(i) => main_pass(ls, texts, k + 1, constants.push((n, i.val)), aliases, ops),
                Err(e) => Err(line_error(e, k as usize, texts[k])),
            },
            LineView::Instr(t) => match op_spec(t, ops.len() as u32, constants, aliases) {
                Ok(o) => main_pass(ls, texts, k + 1, constants, aliases, ops.push(o)),
                Err(e) => Err(line_error(e, k as usize, texts[k])),
            },
            _ => main_pass(ls, texts, k + 1, constants, aliases, ops),
        }
    }
}

/// The position of the first malformed line at or after `k`, if any.
pub open spec fn first_malformed(lines: Seq<Seq<char>>, k: int) -> Option<int>
    decreases lines.len() - k,
{
    if k < 0 || k >= lines.len() {
        None
    } else if line_kind(lines[k]) is None {
        Some(k)
    } else {
        first_malformed(lines, k + 1)
    }
}

/// The kinds of well-formed lines.
pub open spec fn kinds(lines: Seq<Seq<char>>) -> Seq<LineView> {
    Seq::new(lines.len(), |k: int| line_kind(lines[k]).unwrap())
}

/// What assembling a source text gives: a syntax error for the first
/// malformed line; else the main pass over all lines, with the constants
/// seeded by the label pass and the memory-mapped names, and the aliases by
/// the built-in register names.
pub open spec fn assemble_spec(src: Seq<char>) -> Result<Seq<OpView>, ParseErrView> {
    let lines = split_lines(src);
    match first_malformed(lines, 0) {
        Some(k) => Err(ParseErrView::Generic(syntax_message(k as nat, lines[k]))),
        None => {
            let ls = kinds(lines);
            main_pass(
                ls,
                lines,
                0,
                label_pass(ls).0 + memmap_bindings(),
                default_alias_bindings(),
                Seq::empty(),
            )
        },
    }
}

pub open spec fn ops_view(ops: Seq<Op>) -> Seq<OpView> {
    ops.map_values(|o: Op| o@)
}

pub open spec fn parse_result_view(r: Result<Vec<Op>, ParseErr>) -> Result<
    Seq<OpView>,
    ParseErrView,
> {
    match r {
        Ok(v) => Ok(ops_view(v@)),
        Err(e) => Err(e@),
    }
}

fn syntax_error(k: usize, line: &Vec<char>) -> (r: ParseErr)
    ensures
        r@ == ParseErrView::Generic(syntax_message(k as nat, line@)),
{
    let mut s = String::from_str("malformed line ");
    s.append(decimal_string(k as u128 + 1).as_str());
    s.append(": ");
    s.append(string_of(line).as_str());
    ParseErr::Generic(s)
}

/// Assembles a source text into instructions.
pub fn parse(src: &str) -> (r: Result<Vec<Op>, ParseErr>)
    requires
        src@.len() < u32::MAX,
    ensures
        parse_result_view(r) == assemble_spec(src@),
{
    let text = chars_of(src);
    let raw = lines_of(&text);
    let ghost lines = split_lines(src@);
    assert(raw@.map_values(|l: Vec<char>| l@) == lines);
    proof {
        lemma_split_lines_len(src@);
    }
    // classify every line before assembling any
    let mut lines_k: Vec<Line> = Vec::new();
    let mut k: usize = 0;
    while k < raw.len()
        invariant
            0 <= k <= raw@.len(),
            lines == split_lines(src@),
            lines == raw@.map_values(|l: Vec<char>| l@),
            first_malformed(lines, 0) == first_malformed(lines, k as int),
            lines_k@.len() == k,
            forall|j: int| 0 <= j < k ==> line_kind(lines[j]) == Some((#[trigger] lines_k@[j])@),
        decreases raw.len() - k,
    {
        assert(lines[k as int] == raw@[k as int]@);
        match classify_line(&raw[k]) {
            Some(l) => {
                lines_k.push(l);
            },
            None => {
                assert(first_malformed(lines, k as int) == Some(k as int));
                let e = syntax_error(k, &raw[k]);
                return Err(e);
            },
        }
        k = k + 1;
    }
    let ghost ls = kinds(lines);
    assert(lines_view(lines_k@) =~= ls);
    let mut constants = find_labels(&lines_k);
    add_memmap_constants(&mut constants);
    let mut aliases = default_aliases();
    let mut ops: Vec<Op> = Vec::new();
    let mut k: usize = 0;
    assert(ops_view(ops@) =~= Seq::<OpView>::empty());
    while k < lines_k.len()
        invariant
            0 <= k <= lines_k@.len(),
            lines_k@.len() == raw@.len(),
            lines_k@.len() <= u32::MAX,
            ops@.len() <= k,
            ls == lines_view(lines_k@),
            lines == raw@.map_values(|l: Vec<char>| l@),
            assemble_spec(src@) == main_pass(
                ls,
                lines,
                k as int,
                constants@,
                aliases@,
                ops_view(ops@),
            ),
        decreases lines_k.len() - k,
    {
        let pc = ops.len() as u32;
        assert(ls[k as int] == lines_k@[k as int]@);
        assert(lines[k as int] == raw@[k as int]@);
        match &lines_k[k] {
            Line::Alias(name, value) => {
                match add_alias(&mut aliases, name, value) {
                    Ok(()) => {},
                    Err(e) => {
                        return Err(parse_err(e, k, &raw[k]));
                    },
                }
            },
            Line::Constant(name, value) => {
                match add_constant(&mut constants, name, value) {
                    Ok(()) => {},
                    Err(e) => {
                        return Err(parse_err(e, k, &raw[k]));
                    },
                }
            },
            Line::Instr(tokens) => {
                match encode_op(tokens, pc, &constants, &aliases) {
                    Ok(op) => {
                        let ghost before = ops_view(ops@);
                        ops.push(op);
                        assert(ops_view(ops@) =~= before.push(op@));
                    },
                    Err(e) => {
                        return Err(parse_err(e, k, &raw[k]));
                    },
                }
            },
            _ => {},
        }
        k = k + 1;
    }
    Ok(ops)
}

proof fn lemma_split_lines_len(s: Seq<char>)
    ensures
        split_lines(s).len() <= s.len() + 1,
    decreases s.len(),
{
    if s.len() > 0 {
        lemma_split_lines_len(s.drop_last());
        lemma_split_lines_nonempty(s.drop_last());
    }
}

proof fn lemma_lookup_skips(b: ConstModel, extra: ConstModel, name: Seq<char>)
    requires
        forall|j: int| 0 <= j < extra.len() ==> (#[trigger] extra[j]).0 != name,
    ensures
        lookup_in(b + extra, name) == lookup_in(b, name),
    decreases extra.len(),
{
    if extra.len() > 0 {
        assert((b + extra).drop_last() =~= b + extra.drop_last());
        assert(extra[extra.len() - 1].0 != name);
        lemma_lookup_skips(b, extra.drop_last(), name);
    } else {
        assert(b + extra =~= b);
    }
}

/// The label pass binds a label to the number of instructions before its
/// last definition, wherever in the text it is referred to.
pub proof fn lemma_label_address(ls: Seq<LineView>, d: int, name: Seq<char>)
    requires
        0 <= d < ls.len(),
        ls[d] == LineView::Label(name),
        forall|e: int| d < e < ls.len() ==> ls[e] != LineView::Label(name),
    ensures
        lookup_in(label_pass(ls).0, name) == Some(ImmValView::Int(label_pass(ls.take(d)).1 as i64)),
    decreases ls.len(),
{
    let pre = ls.drop_last();
    if d == ls.len() - 1 {
        assert(pre =~= ls.take(d));
    } else {
        assert(pre.take(d) =~= ls.take(d));
        lemma_label_address(pre, d, name);
        let (b, pc) = label_pass(pre);
        match ls.last() {
            LineView::Label(n) => {
                assert(b.push((n, ImmValView::Int(pc as i64))).drop_last() =~= b);
            },
            _ => {},
        }
    }
}

/// A label can be referred to on any line, before its definition or after:
/// where the main pass meets a pc-relative instruction whose immediate
/// names the label, with a constant table that holds the label pass's
/// bindings and after them only other names, it appends the instruction
/// with the label's address less the instruction's own, which is the number
/// of instructions before it, and goes on.
pub proof fn lemma_label_reference(
    ls: Seq<LineView>,
    texts: Seq<Seq<char>>,
    k: int,
    extra: ConstModel,
    aliases: AliasModel,
    ops: Seq<OpView>,
    d: int,
    name: Seq<char>,
)
    requires
        0 <= d < ls.len(),
        ls[d] == LineView::Label(name),
        forall|e: int| d < e < ls.len() ==> ls[e] != LineView::Label(name),
        forall|j: int| 0 <= j < extra.len() ==> (#[trigger] extra[j]).0 != name,
        0 <= k < ls.len(),
        ls[k] matches LineView::Instr(t) && refers_to(t, aliases, name),
        ls.len() <= u32::MAX,
        ops.len() <= u32::MAX,
    ensures
        exists|o: OpView|
            {
                &&& imm_integer(o.imm) == Some(label_pass(ls.take(d)).1 - ops.len())
                &&& main_pass(ls, texts, k, label_pass(ls).0 + extra, aliases, ops) == main_pass(
                    ls,
                    texts,
                    k + 1,
                    label_pass(ls).0 + extra,
                    aliases,
                    ops.push(o),
                )
            },
{
    let constants = label_pass(ls).0 + extra;
    lemma_label_address(ls, d, name);
    lemma_lookup_skips(label_pass(ls).0, extra, name);
    lemma_label_pass_pc(ls.take(d));
    let a = label_pass(ls.take(d)).1 as i64;
    let t = ls[k]->Instr_0;
    lemma_relative_reference(t, ops.len() as u32, constants, aliases, name, a);
    let o = op_spec(t, ops.len() as u32, constants, aliases)->Ok_0;
    assert(imm_integer(o.imm) == Some(label_pass(ls.take(d)).1 - ops.len()));
}

/// A line with the wrong number of operands for its mnemonic ends the main
/// pass with that error, on that line: nothing is appended, and no program
/// comes out.
pub proof fn lemma_wrong_count_aborts(
    ls: Seq<LineView>,
    texts: Seq<Seq<char>>,
    k: int,
    constants: ConstModel,
    aliases: AliasModel,
    ops: Seq<OpView>,
)
    requires
        0 <= k < ls.len(),
        ls[k] is Instr,
        ls[k]->Instr_0.len() > 0,
        find_op(mnemonic_key(ls[k]->Instr_0[0])) is Some,
        ls[k]->Instr_0.len() - 1 != find_op(mnemonic_key(ls[k]->Instr_0[0])).unwrap().argct,
    ensures
        main_pass(ls, texts, k, constants, aliases, ops) == Err::<Seq<OpView>, ParseErrView>(
            line_error(
                OpErrView::InvalidArgumentCount(
                    (ls[k]->Instr_0.len() - 1) as usize,
                    find_op(mnemonic_key(ls[k]->Instr_0[0])).unwrap().argct,
                ),
                k as usize,
                texts[k],
            ),
        ),
{
    let t = ls[k]->Instr_0;
    lemma_wrong_operand_count(t, ops.len() as u32, constants, aliases);
}

} // verus!
