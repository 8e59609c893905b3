use vstd::prelude::*;
use crate::literal::{
    chars_of, decimal, decimal_string, is_float_literal, is_float_literal_exec, register_literal, register_literal_of,
    signed_literal, signed_literal_of, string_literal, string_literal_bytes, string_of,
};
use crate::optable::{find_op, info_wf, lemma_find_op_wf, lookup_op, OpArg, OpInfo};
use crate::symbols::{lookup_in, SymbolTable};
pub use crate::literal::string_literal_to_immediate;

verus! {

/// The register fields of an encoded instruction.
#[derive(Clone, Copy, Debug, Default, PartialEq, Eq, Structural)]
pub struct COp {
    pub opcode: u8,
    pub rd: u8,
    pub rs1: u8,
    pub rs2: u8,
}

/// `op` with the register of role `arg` set to `register`.
pub open spec fn with_arg(op: COp, arg: OpArg, register: u8) -> COp {
    match arg {
        OpArg::Rd => COp { rd: register, ..op },
        OpArg::Rs1 => COp { rs1: register, ..op },
        OpArg::Rs2 => COp { rs2: register, ..op },
        _ => op,
    }
}

impl COp {
    pub fn set_arg(&mut self, arg: &OpArg, register: u8)
        ensures
            *final(self) == with_arg(*old(self), *arg, register),
    {
        match arg {
            OpArg::Rd => self.rd = register,
            OpArg::Rs1 => self.rs1 = register,
            OpArg::Rs2 => self.rs2 = register,
            _ => {},
        }
    }
}

/// Where an immediate's number comes from. A floating-point literal is
/// kept as written: turning it into a double is left to whoever writes the
/// instruction out.
#[derive(Clone, Debug, PartialEq)]
pub enum ImmVal {
    /// An integer literal, a label address or a memory-mapped name.
    Int(i64),
    /// A floating-point literal, verbatim.
    Float(Vec<char>),
    /// The bytes of a quoted literal, least significant first.
    Chars(Vec<u8>),
}

pub enum ImmValView {
    Int(i64),
    Float(Seq<char>),
    Chars(Seq<u8>),
}

impl View for ImmVal {
    type V = ImmValView;

    open spec fn view(&self) -> ImmValView {
        match self {
            ImmVal::Int(v) => ImmValView::Int(*v),
            ImmVal::Float(t) => ImmValView::Float(t@),
            ImmVal::Chars(b) => ImmValView::Chars(b@),
        }
    }
}

pub fn copy_vec<T: Copy>(v: &Vec<T>) -> (r: Vec<T>)
    ensures
        r@ == v@,
{
    let mut r: Vec<T> = Vec::new();
    let mut i: usize = 0;
    while i < v.len()
        invariant
            0 <= i <= v@.len(),
            r@ == v@.take(i as int),
        decreases v.len() - i,
    {
        r.push(v[i]);
        i = i + 1;
        assert(r@ =~= v@.take(i as int));
    }
    assert(v@.take(i as int) =~= v@);
    r
}

impl ImmVal {
    /// A copy of this value.
    pub fn duplicate(&self) -> (r: ImmVal)
        ensures
            r@ == self@,
    {
        match self {
            ImmVal::Int(v) => ImmVal::Int(*v),
            ImmVal::Float(t) => ImmVal::Float(copy_vec(t)),
            ImmVal::Chars(b) => ImmVal::Chars(copy_vec(b)),
        }
    }
}

/// An instruction's immediate: a value, less the instruction's own address
/// when it is a pc-relative reference to a label or constant.
#[derive(Clone, Debug, PartialEq)]
pub struct Imm {
    pub val: ImmVal,
    pub minus: u32,
}

pub struct ImmView {
    pub val: ImmValView,
    pub minus: u32,
}

impl View for Imm {
    type V = ImmView;

    open spec fn view(&self) -> ImmView {
        ImmView { val: self.val@, minus: self.minus }
    }
}

/// The integer an immediate stands for, when it is not a floating-point
/// literal.
pub open spec fn imm_integer(i: ImmView) -> Option<int> {
    match i.val {
        ImmValView::Int(v) => Some(v - i.minus),
        ImmValView::Chars(b) => Some(crate::literal::packed_value(b) - i.minus),
        ImmValView::Float(_) => None,
    }
}

/// The immediate of an instruction that has none.
pub open spec fn zero_imm() -> ImmView {
    ImmView { val: ImmValView::Int(0), minus: 0 }
}

/// One assembled instruction.
#[derive(Clone, Debug, PartialEq)]
pub struct Op {
    pub op: COp,
    pub imm: Imm,
}

pub struct OpView {
    pub op: COp,
    pub imm: ImmView,
}

impl View for Op {
    type V = OpView;

    open spec fn view(&self) -> OpView {
        OpView { op: self.op, imm: self.imm@ }
    }
}

/// Why one line could not be encoded.
#[derive(Debug, PartialEq)]
pub enum OpErr {
    Impossible,
    EmptyOp,
    InvalidAlias(String),
    InvalidOpcode(String),
    InvalidArgumentCount(usize, usize),
    InvalidImmediate(String),
    InvalidRegister(String),
}

pub enum OpErrView {
    Impossible,
    EmptyOp,
    InvalidAlias(Seq<char>),
    InvalidOpcode(Seq<char>),
    InvalidArgumentCount(usize, usize),
    InvalidImmediate(Seq<char>),
    InvalidRegister(Seq<char>),
}

impl View for OpErr {
    type V = OpErrView;

    open spec fn view(&self) -> OpErrView {
        match self {
            OpErr::Impossible => OpErrView::Impossible,
            OpErr::EmptyOp => OpErrView::EmptyOp,
            OpErr::InvalidAlias(s) => OpErrView::InvalidAlias(s@),
            OpErr::InvalidOpcode(s) => OpErrView::InvalidOpcode(s@),
            OpErr::InvalidArgumentCount(a, b) => OpErrView::InvalidArgumentCount(*a, *b),
            OpErr::InvalidImmediate(s) => OpErrView::InvalidImmediate(s@),
            OpErr::InvalidRegister(s) => OpErrView::InvalidRegister(s@),
        }
    }
}

/// The view of a result: the view of what it holds.
pub open spec fn result_view<T: View>(r: Result<T, OpErr>) -> Result<T::V, OpErrView> {
    match r {
        Ok(v) => Ok(v@),
        Err(e) => Err(e@),
    }
}

/// Table of aliases: register names.
pub type Aliases = SymbolTable<u8>;

/// Table of constants: label addresses and named values.
pub type Constants = SymbolTable<ImmVal>;

/// The bindings of an alias table.
pub type AliasModel = Seq<(Seq<char>, u8)>;

/// The bindings of a constant table.
pub type ConstModel = Seq<(Seq<char>, ImmValView)>;

/// What a register token resolves to: a byte literal, else an alias.
pub open spec fn register_spec(t: Seq<char>, aliases: AliasModel) -> Result<u8, OpErrView> {
    match register_literal(t) {
        Some(v) => Ok(v),
        None => match lookup_in(aliases, t) {
            Some(v) => Ok(v),
            None => Err(OpErrView::InvalidRegister(t)),
        },
    }
}

/// What an immediate token resolves to: a quoted literal, a floating-point
/// literal, an integer literal, else a constant, which a pc-relative
/// instruction takes less its own address `pc`.
pub open spec fn immediate_spec(t: Seq<char>, pc: u32, rel: bool, constants: ConstModel) -> Result<
    ImmView,
    OpErrView,
> {
    match string_literal(t) {
        Some(b) => Ok(ImmView { val: ImmValView::Chars(b), minus: 0 }),
        None => if is_float_literal(t) {
            Ok(ImmView { val: ImmValView::Float(t), minus: 0 })
        } else {
            match signed_literal(t) {
                Some(v) => Ok(ImmView { val: ImmValView::Int(v), minus: 0 }),
                None => match lookup_in(constants, t) {
                    Some(v) => Ok(ImmView { val: v, minus: if rel { pc } else { 0 } }),
                    None => Err(OpErrView::InvalidImmediate(t)),
                },
            }
        },
    }
}

/// Resolves a register token.
pub fn parse_register(token: &Vec<char>, aliases: &Aliases) -> (r: Result<u8, OpErr>)
    ensures
        result_view_u8(r) == register_spec(token@, aliases@),
{
    if let Some(v) = register_literal_of(token) {
        return Ok(v);
    }
    match aliases.lookup(token) {
        Some(v) => Ok(*v),
        None => Err(OpErr::InvalidRegister(string_of(token))),
    }
}

pub open spec fn result_view_u8(r: Result<u8, OpErr>) -> Result<u8, OpErrView> {
    match r {
        Ok(v) => Ok(v),
        Err(e) => Err(e@),
    }
}

/// Resolves an immediate token of an instruction at address `pc`.
pub fn resolve_immediate(token: &Vec<char>, pc: u32, rel: bool, constants: &Constants) -> (r:
    Result<Imm, OpErr>)
    ensures
        result_view(r) == immediate_spec(token@, pc, rel, constants@),
{
    if let Some(b) = string_literal_bytes(token) {
        return Ok(Imm { val: ImmVal::Chars(b), minus: 0 });
    }
    if is_float_literal_exec(token) {
        return Ok(Imm { val: ImmVal::Float(copy_vec(token)), minus: 0 });
    }
    if let Some(v) = signed_literal_of(token) {
        return Ok(Imm { val: ImmVal::Int(v), minus: 0 });
    }
    match constants.lookup(token) {
        Some(v) => Ok(
            Imm {
                val: v.duplicate(),
                minus: if rel {
                    pc
                } else {
                    0
                },
            },
        ),
        None => Err(OpErr::InvalidImmediate(string_of(token))),
    }
}

/// Resolves an immediate token of an instruction at address `pc`.
pub fn parse_immediate(token: &str, pc: u32, rel: bool, constants: &Constants) -> (r: Result<
    Imm,
    OpErr,
>)
    ensures
        result_view(r) == immediate_spec(token@, pc, rel, constants@),
{
    let t = chars_of(token);
    resolve_immediate(&t, pc, rel, constants)
}

/// A character in lower case, for the ASCII letters A to Z.
pub open spec fn lower_char(c: char) -> char {
    if 'A' <= c && c <= 'Z' {
        ((c as u8) + 32) as char
    } else {
        c
    }
}

/// A text with its ASCII letters A to Z in lower case.
pub open spec fn lower(s: Seq<char>) -> Seq<char> {
    s.map_values(|c: char| lower_char(c))
}

/// Every character is ASCII.
pub open spec fn is_ascii_text(s: Seq<char>) -> bool {
    forall|i: int| 0 <= i < s.len() ==> (s[i] as u32) < 128
}

/// What `str::to_lowercase` makes of a text.
pub uninterp spec fn lower_of(s: Seq<char>) -> Seq<char>;

/// Relies on str::to_lowercase: the lower-case form of a text, by Unicode's
/// case mapping.
#[verifier::external_body]
fn lowercase(s: &Vec<char>) -> (r: Vec<char>)
    ensures
        r@ == lower_of(s@),
{
    let t: String = s.iter().collect();
    t.to_lowercase().chars().collect()
}

/// The key a mnemonic is looked up by: its lower-case form. On ASCII text
/// that lowers A to Z alone, as `str::to_lowercase` does there.
pub open spec fn mnemonic_key(s: Seq<char>) -> Seq<char> {
    if is_ascii_text(s) {
        lower(s)
    } else {
        lower_of(s)
    }
}

fn is_ascii_exec(s: &Vec<char>) -> (r: bool)
    ensures
        r == is_ascii_text(s@),
{
    let mut i: usize = 0;
    while i < s.len()
        invariant
            0 <= i <= s@.len(),
            forall|k: int| 0 <= k < i ==> (s@[k] as u32) < 128,
        decreases s.len() - i,
    {
        if s[i] as u32 >= 128 {
            return false;
        }
        i = i + 1;
    }
    true
}

fn lower_ascii(s: &Vec<char>) -> (r: Vec<char>)
    ensures
        r@ == lower(s@),
{
    let mut r: Vec<char> = Vec::new();
    let mut i: usize = 0;
    while i < s.len()
        invariant
            0 <= i <= s@.len(),
            r@ == lower(s@.take(i as int)),
        decreases s.len() - i,
    {
        let c = s[i];
        let d = if 'A' <= c && c <= 'Z' {
            ((c as u8) + 32) as char
        } else {
            c
        };
        r.push(d);
        i = i + 1;
        assert(lower(s@.take(i as int)) =~= lower(s@.take(i - 1)).push(d));
    }
    assert(s@.take(i as int) =~= s@);
    r
}

/// The key a mnemonic is looked up by.
pub fn mnemonic_key_of(s: &Vec<char>) -> (r: Vec<char>)
    ensures
        r@ == mnemonic_key(s@),
{
    if is_ascii_exec(s) {
        lower_ascii(s)
    } else {
        lowercase(s)
    }
}

/// Encodes operands `k` and on of an instruction, onto `acc`.
pub open spec fn encode_args(
    toks: Seq<Seq<char>>,
    info: OpInfo,
    pc: u32,
    constants: ConstModel,
    aliases: AliasModel,
    k: int,
    acc: OpView,
) -> Result<OpView, OpErrView>
    decreases info.argct - k,
{
    if k < 0 || k >= info.argct || k >= 3 {
        Ok(acc)
    } else {
        let arg = info.args@[k];
        let tok = toks[k + 1];
        match arg {
            OpArg::Void => Err(OpErrView::Impossible),
            OpArg::Im => match immediate_spec(tok, pc, info.rel, constants) {
                Ok(i) => encode_args(
                    toks,
                    info,
                    pc,
                    constants,
                    aliases,
                    k + 1,
                    OpView { imm: i, ..acc },
                ),
                Err(e) => Err(e),
            },
            _ => match register_spec(tok, aliases) {
                Ok(v) => encode_args(
                    toks,
                    info,
                    pc,
                    constants,
                    aliases,
                    k + 1,
                    OpView { op: with_arg(acc.op, arg, v), ..acc },
                ),
                Err(e) => Err(e),
            },
        }
    }
}

/// The instruction that a line's tokens encode to, at address `pc`: the
/// mnemonic is looked up in lower case, the operand count must match the
/// table, and each operand resolves by its role.
pub open spec fn op_spec(toks: Seq<Seq<char>>, pc: u32, constants: ConstModel, aliases: AliasModel) -> Result<
    OpView,
    OpErrView,
> {
    if toks.len() == 0 {
        Err(OpErrView::EmptyOp)
    } else {
        let name = mnemonic_key(toks[0]);
        match find_op(name) {
            None => Err(OpErrView::InvalidOpcode(name)),
            Some(info) => if toks.len() - 1 != info.argct {
                Err(OpErrView::InvalidArgumentCount((toks.len() - 1) as usize, info.argct))
            } else {
                encode_args(
                    toks,
                    info,
                    pc,
                    constants,
                    aliases,
                    0,
                    OpView { op: COp { opcode: info.opcode, rd: 0, rs1: 0, rs2: 0 }, imm: zero_imm() },
                )
            },
        }
    }
}

/// The views of a list of tokens.
pub open spec fn tokens_view(toks: Seq<Vec<char>>) -> Seq<Seq<char>> {
    toks.map_values(|t: Vec<char>| t@)
}

/// Encodes one instruction line, given as tokens, at address `pc`.
pub fn encode_op(toks: &Vec<Vec<char>>, pc: u32, constants: &Constants, aliases: &Aliases) -> (r:
    Result<Op, OpErr>)
    ensures
        result_view(r) == op_spec(tokens_view(toks@), pc, constants@, aliases@),
{
    let ghost tv = tokens_view(toks@);
    if toks.len() == 0 {
        return Err(OpErr::EmptyOp);
    }
    let name = mnemonic_key_of(&toks[0]);
    assert(tv[0] == toks@[0]@);
    let info = match lookup_op(&name) {
        Some(info) => info,
        None => {
            return Err(OpErr::InvalidOpcode(string_of(&name)));
        },
    };
    proof {
        lemma_find_op_wf(name@, 0);
    }
    if toks.len() - 1 != info.argct {
        return Err(OpErr::InvalidArgumentCount(toks.len() - 1, info.argct));
    }
    let mut ret = Op {
        op: COp { opcode: info.opcode, rd: 0, rs1: 0, rs2: 0 },
        imm: Imm { val: ImmVal::Int(0), minus: 0 },
    };
    let mut k: usize = 0;
    while k < info.argct
        invariant
            info_wf(info),
            find_op(name@) == Some(info),
            toks@.len() == info.argct + 1,
            tv == tokens_view(toks@),
            0 <= k <= info.argct,
            op_spec(tv, pc, constants@, aliases@) == encode_args(
                tv,
                info,
                pc,
                constants@,
                aliases@,
                k as int,
                ret@,
            ),
        decreases info.argct - k,
    {
        let arg = info.args[k];
        let tok = &toks[k + 1];
        assert(tv[k + 1] == tok@);
        match arg {
            OpArg::Void => {
                return Err(OpErr::Impossible);
            },
            OpArg::Im => {
                match resolve_immediate(tok, pc, info.rel, constants) {
                    Ok(i) => {
                        ret.imm = i;
                    },
                    Err(e) => {
                        return Err(e);
                    },
                }
            },
            _ => {
                match parse_register(tok, aliases) {
                    Ok(v) => {
                        ret.op.set_arg(&arg, v);
                    },
                    Err(e) => {
                        return Err(e);
                    },
                }
            },
        }
        k = k + 1;
    }
    Ok(ret)
}

/// Encodes one instruction line, given as tokens, at address `pc`.
pub fn parse_op(tokens: &Vec<&str>, pc: u32, constants: &Constants, aliases: &Aliases) -> (r:
    Result<Op, OpErr>)
    ensures
        result_view(r) == op_spec(tokens_view_str(tokens@), pc, constants@, aliases@),
{
    let mut toks: Vec<Vec<char>> = Vec::new();
    let mut i: usize = 0;
    while i < tokens.len()
        invariant
            0 <= i <= tokens@.len(),
            toks@.len() == i,
            forall|j: int| 0 <= j < i ==> (#[trigger] toks@[j])@ == tokens@[j]@,
        decreases tokens.len() - i,
    {
        let t: &str = tokens[i];
        toks.push(chars_of(t));
        i = i + 1;
    }
    assert(tokens_view(toks@) =~= tokens_view_str(tokens@));
    encode_op(&toks, pc, constants, aliases)
}

/// The views of a list of string slices.
pub open spec fn tokens_view_str(toks: Seq<&str>) -> Seq<Seq<char>> {
    toks.map_values(|t: &str| t@)
}

/// The message that explains an error.
pub open spec fn op_err_message(e: OpErrView) -> Seq<char> {
    match e {
        OpErrView::Impossible => "This shouldn't be possible!"@,
        OpErrView::EmptyOp => "Empty opcode (grammar problem?)"@,
        OpErrView::InvalidAlias(s) => "Invalid alias: \""@ + s + "\""@,
        OpErrView::InvalidOpcode(s) => "Unrecognized opcode: ["@ + s + "]"@,
        OpErrView::InvalidArgumentCount(got, expected) => "Wrong number of arguments: got "@
            + decimal(got as nat) + ", expected "@ + decimal(expected as nat),
        OpErrView::InvalidImmediate(s) => "Immediate \""@ + s + "\" is not a literal or known label"@,
        OpErrView::InvalidRegister(s) => "Register \""@ + s + "\" is not a literal or known alias"@,
    }
}

impl OpErr {
    /// The message that explains this error.
    pub fn to_string(&self) -> (r: String)
        ensures
            r@ == op_err_message(self@),
    {
        match self {
            OpErr::Impossible => String::from_str("This shouldn't be possible!"),
            OpErr::EmptyOp => String::from_str("Empty opcode (grammar problem?)"),
            OpErr::InvalidAlias(s) => {
                let mut r = String::from_str("Invalid alias: \"");
                r.append(s.as_str());
                r.append("\"");
                r
            },
            OpErr::InvalidOpcode(s) => {
                let mut r = String::from_str("Unrecognized opcode: [");
                r.append(s.as_str());
                r.append("]");
                r
            },
            OpErr::InvalidArgumentCount(got, expected) => {
                let mut r = String::from_str("Wrong number of arguments: got ");
                r.append(decimal_string(*got as u128).as_str());
                r.append(", expected ");
                r.append(decimal_string(*expected as u128).as_str());
                r
            },
            OpErr::InvalidImmediate(s) => {
                let mut r = String::from_str("Immediate \"");
                r.append(s.as_str());
                r.append("\" is not a literal or known label");
                r
            },
            OpErr::InvalidRegister(s) => {
                let mut r = String::from_str("Register \"");
                r.append(s.as_str());
                r.append("\" is not a literal or known alias");
                r
            },
        }
    }
}

/// Operand token `t` resolves in the role `arg`.
pub open spec fn operand_resolves(
    t: Seq<char>,
    arg: OpArg,
    pc: u32,
    rel: bool,
    constants: ConstModel,
    aliases: AliasModel,
) -> bool {
    match arg {
        OpArg::Im => immediate_spec(t, pc, rel, constants) is Ok,
        OpArg::Void => false,
        _ => register_spec(t, aliases) is Ok,
    }
}

proof fn lemma_encode_args_ok(
    toks: Seq<Seq<char>>,
    info: OpInfo,
    pc: u32,
    constants: ConstModel,
    aliases: AliasModel,
    k: int,
    acc: OpView,
)
    requires
        0 <= k <= info.argct,
        info_wf(info),
        toks.len() == info.argct + 1,
        forall|j: int|
            k <= j < info.argct ==> operand_resolves(
                #[trigger] toks[j + 1],
                info.args@[j],
                pc,
                info.rel,
                constants,
                aliases,
            ),
    ensures
        encode_args(toks, info, pc, constants, aliases, k, acc) matches Ok(o) && o.op.opcode
            == acc.op.opcode,
    decreases info.argct - k,
{
    if k < info.argct {
        assert(operand_resolves(toks[k + 1], info.args@[k], pc, info.rel, constants, aliases));
        let arg = info.args@[k];
        match arg {
            OpArg::Im => {
                let i = immediate_spec(toks[k + 1], pc, info.rel, constants)->Ok_0;
                lemma_encode_args_ok(toks, info, pc, constants, aliases, k + 1, OpView { imm: i, ..acc });
            },
            OpArg::Void => {},
            _ => {
                let v = register_spec(toks[k + 1], aliases)->Ok_0;
                lemma_encode_args_ok(
                    toks,
                    info,
                    pc,
                    constants,
                    aliases,
                    k + 1,
                    OpView { op: with_arg(acc.op, arg, v), ..acc },
                );
            },
        }
    }
}

/// A line whose mnemonic the table knows, in any case, with exactly the
/// declared number of operands, each of which resolves in its role,
/// encodes to an instruction, and its opcode is the table's.
pub proof fn lemma_known_mnemonic_encodes(
    toks: Seq<Seq<char>>,
    pc: u32,
    constants: ConstModel,
    aliases: AliasModel,
)
    requires
        toks.len() > 0,
        find_op(mnemonic_key(toks[0])) matches Some(info) && toks.len() == info.argct + 1 && forall|
            j: int,
        |
            0 <= j < info.argct ==> operand_resolves(
                #[trigger] toks[j + 1],
                info.args@[j],
                pc,
                info.rel,
                constants,
                aliases,
            ),
    ensures
        op_spec(toks, pc, constants, aliases) matches Ok(o) && o.op.opcode == find_op(
            mnemonic_key(toks[0]),
        ).unwrap().opcode,
{
    let info = find_op(mnemonic_key(toks[0])).unwrap();
    lemma_find_op_wf(mnemonic_key(toks[0]), 0);
    lemma_encode_args_ok(
        toks,
        info,
        pc,
        constants,
        aliases,
        0,
        OpView { op: COp { opcode: info.opcode, rd: 0, rs1: 0, rs2: 0 }, imm: zero_imm() },
    );
}

/// A line whose mnemonic the table knows, with another number of operands
/// than the table declares, fails with the count it has and the count
/// expected, and encodes nothing.
pub proof fn lemma_wrong_operand_count(
    toks: Seq<Seq<char>>,
    pc: u32,
    constants: ConstModel,
    aliases: AliasModel,
)
    requires
        toks.len() > 0,
        find_op(mnemonic_key(toks[0])) matches Some(info) && toks.len() - 1 != info.argct,
    ensures
        op_spec(toks, pc, constants, aliases) == Err::<OpView, OpErrView>(
            OpErrView::InvalidArgumentCount(
                (toks.len() - 1) as usize,
                find_op(mnemonic_key(toks[0])).unwrap().argct,
            ),
        ),
{
}

/// The case of a mnemonic does not matter: two lines whose mnemonics are
/// the same but for case encode alike.
pub proof fn lemma_mnemonic_case_insensitive(
    m1: Seq<char>,
    m2: Seq<char>,
    operands: Seq<Seq<char>>,
    pc: u32,
    constants: ConstModel,
    aliases: AliasModel,
)
    requires
        mnemonic_key(m1) == mnemonic_key(m2),
    ensures
        op_spec(seq![m1] + operands, pc, constants, aliases) == op_spec(
            seq![m2] + operands,
            pc,
            constants,
            aliases,
        ),
{
    let t1 = seq![m1] + operands;
    let t2 = seq![m2] + operands;
    assert(t1[0] == m1);
    assert(t2[0] == m2);
    assert forall|j: int| 1 <= j < t1.len() implies t1[j] == t2[j] by {}
    let name = mnemonic_key(m1);
    match find_op(name) {
        Some(info) => {
            if t1.len() - 1 == info.argct {
                lemma_encode_args_same(t1, t2, info, pc, constants, aliases, 0,
                    OpView { op: COp { opcode: info.opcode, rd: 0, rs1: 0, rs2: 0 }, imm: zero_imm() });
            }
        },
        None => {},
    }
}

proof fn lemma_encode_args_same(
    t1: Seq<Seq<char>>,
    t2: Seq<Seq<char>>,
    info: OpInfo,
    pc: u32,
    constants: ConstModel,
    aliases: AliasModel,
    k: int,
    acc: OpView,
)
    requires
        t1.len() == t2.len(),
        forall|j: int| 1 <= j < t1.len() ==> t1[j] == t2[j],
        t1.len() == info.argct + 1,
    ensures
        encode_args(t1, info, pc, constants, aliases, k, acc) == encode_args(
            t2,
            info,
            pc,
            constants,
            aliases,
            k,
            acc,
        ),
    decreases info.argct - k,
{
    if 0 <= k < info.argct && k < 3 {
        assert(t1[k + 1] == t2[k + 1]);
        let arg = info.args@[k];
        match arg {
            OpArg::Im => {
                match immediate_spec(t1[k + 1], pc, info.rel, constants) {
                    Ok(i) => lemma_encode_args_same(t1, t2, info, pc, constants, aliases, k + 1, OpView { imm: i, ..acc }),
                    Err(_) => {},
                }
            },
            OpArg::Void => {},
            _ => {
                match register_spec(t1[k + 1], aliases) {
                    Ok(v) => lemma_encode_args_same(t1, t2, info, pc, constants, aliases, k + 1, OpView { op: with_arg(acc.op, arg, v), ..acc }),
                    Err(_) => {},
                }
            },
        }
    }
}

/// A token that is no literal of any kind, so that it can only name a
/// constant.
pub open spec fn names_constant(t: Seq<char>) -> bool {
    &&& string_literal(t) is None
    &&& !is_float_literal(t)
    &&& signed_literal(t) is None
}

proof fn lemma_encode_args_imm(
    toks: Seq<Seq<char>>,
    info: OpInfo,
    pc: u32,
    constants: ConstModel,
    aliases: AliasModel,
    k: int,
    acc: OpView,
    imm: ImmView,
)
    requires
        0 <= k <= info.argct,
        info_wf(info),
        toks.len() == info.argct + 1,
        forall|j: int|
            k <= j < info.argct ==> operand_resolves(
                #[trigger] toks[j + 1],
                info.args@[j],
                pc,
                info.rel,
                constants,
                aliases,
            ),
        forall|j: int|
            k <= j < info.argct && info.args@[j] == OpArg::Im ==> immediate_spec(
                #[trigger] toks[j + 1],
                pc,
                info.rel,
                constants,
            ) == Ok::<ImmView, OpErrView>(imm),
        acc.imm == imm || exists|j: int| k <= j < info.argct && info.args@[j] == OpArg::Im,
    ensures
        encode_args(toks, info, pc, constants, aliases, k, acc) matches Ok(o) && o.imm == imm,
    decreases info.argct - k,
{
    if k < info.argct {
        assert(operand_resolves(toks[k + 1], info.args@[k], pc, info.rel, constants, aliases));
        let arg = info.args@[k];
        match arg {
            OpArg::Im => {
                assert(immediate_spec(toks[k + 1], pc, info.rel, constants) == Ok::<ImmView, OpErrView>(imm));
                lemma_encode_args_imm(
                    toks,
                    info,
                    pc,
                    constants,
                    aliases,
                    k + 1,
                    OpView { imm: imm, ..acc },
                    imm,
                );
            },
            OpArg::Void => {},
            _ => {
                let v = register_spec(toks[k + 1], aliases)->Ok_0;
                lemma_encode_args_imm(
                    toks,
                    info,
                    pc,
                    constants,
                    aliases,
                    k + 1,
                    OpView { op: with_arg(acc.op, arg, v), ..acc },
                    imm,
                );
            },
        }
    }
}

/// The tokens of a pc-relative instruction that the table knows, with its
/// declared number of operands: its immediate is `name`, which is no
/// literal, and its registers resolve.
pub open spec fn refers_to(toks: Seq<Seq<char>>, aliases: AliasModel, name: Seq<char>) -> bool {
    &&& toks.len() > 0
    &&& find_op(mnemonic_key(toks[0])) is Some
    &&& names_constant(name)
    &&& {
        let info = find_op(mnemonic_key(toks[0])).unwrap();
        &&& info.rel
        &&& toks.len() == info.argct + 1
        &&& exists|j: int| 0 <= j < info.argct && info.args@[j] == OpArg::Im
        &&& forall|j: int|
            0 <= j < info.argct ==> match info.args@[j] {
                OpArg::Im => #[trigger] toks[j + 1] == name,
                _ => register_spec(toks[j + 1], aliases) is Ok,
            }
    }
}

/// A pc-relative instruction whose immediate names a constant bound to the
/// integer `a` encodes the immediate as `a` less the instruction's own
/// address `pc`, when its other operands resolve.
pub proof fn lemma_relative_reference(
    toks: Seq<Seq<char>>,
    pc: u32,
    constants: ConstModel,
    aliases: AliasModel,
    name: Seq<char>,
    a: i64,
)
    requires
        refers_to(toks, aliases, name),
        lookup_in(constants, name) == Some(ImmValView::Int(a)),
    ensures
        op_spec(toks, pc, constants, aliases) matches Ok(o) && o.imm == (ImmView {
            val: ImmValView::Int(a),
            minus: pc,
        }) && imm_integer(o.imm) == Some(a - pc),
{
    let info = find_op(mnemonic_key(toks[0])).unwrap();
    let imm = ImmView { val: ImmValView::Int(a), minus: pc };
    lemma_find_op_wf(mnemonic_key(toks[0]), 0);
    assert forall|j: int| 0 <= j < info.argct implies operand_resolves(
        #[trigger] toks[j + 1],
        info.args@[j],
        pc,
        info.rel,
        constants,
        aliases,
    ) by {
        assert(info.args@[j] != OpArg::Void);
    }
    assert forall|j: int| 0 <= j < info.argct && info.args@[j] == OpArg::Im implies immediate_spec(
        #[trigger] toks[j + 1],
        pc,
        info.rel,
        constants,
    ) == Ok::<ImmView, OpErrView>(imm) by {}
    lemma_encode_args_imm(
        toks,
        info,
        pc,
        constants,
        aliases,
        0,
        OpView { op: COp { opcode: info.opcode, rd: 0, rs1: 0, rs2: 0 }, imm: zero_imm() },
        imm,
    );
}

/// "ADD", "Add" and "add" all name the table's `add`, opcode 12.
pub proof fn lemma_add_in_any_case()
    ensures
        mnemonic_key(seq!['A', 'D', 'D']) == seq!['a', 'd', 'd'],
        mnemonic_key(seq!['A', 'd', 'd']) == seq!['a', 'd', 'd'],
        mnemonic_key(seq!['a', 'd', 'd']) == seq!['a', 'd', 'd'],
        find_op(seq!['a', 'd', 'd']) matches Some(info) && info.opcode == 12,
{
    assert(mnemonic_key(seq!['A', 'D', 'D']) =~= seq!['a', 'd', 'd']);
    assert(mnemonic_key(seq!['A', 'd', 'd']) =~= seq!['a', 'd', 'd']);
    assert(mnemonic_key(seq!['a', 'd', 'd']) =~= seq!['a', 'd', 'd']);
    reveal_with_fuel(crate::optable::find_op_from, 14);
}

} // verus!
