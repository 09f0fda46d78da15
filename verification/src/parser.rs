use vstd::prelude::*;

use crate::error::Error;
use crate::lexer::{push_char, token_views, Sym, Token, TokenView};

verus! {

// ---------------------------------------------------------------------------
// Operands and instructions
// ---------------------------------------------------------------------------

/// An instruction operand.
#[derive(Debug, PartialEq)]
pub enum Operand {
    Register(String),
    Label(String),
    Integer(i32),
}

/// The mathematical value of an operand.
pub enum OperandView {
    Register(Seq<char>),
    Label(Seq<char>),
    Integer(i32),
}

impl View for Operand {
    type V = OperandView;

    open spec fn view(&self) -> OperandView {
        match self {
            Operand::Register(r) => OperandView::Register(r@),
            Operand::Label(l) => OperandView::Label(l@),
            Operand::Integer(x) => OperandView::Integer(*x),
        }
    }
}

/// A parsed instruction.
#[derive(Debug, PartialEq)]
pub enum Instr {
    Label(String),
    Mov(Operand, Operand),
    Add(Operand, Operand),
    Jmp(Operand),
    Syscall,
    Ret,
    Nop,
}

/// The mathematical value of an instruction.
pub enum InstrView {
    Label(Seq<char>),
    Mov(OperandView, OperandView),
    Add(OperandView, OperandView),
    Jmp(OperandView),
    Syscall,
    Ret,
    Nop,
}

impl View for Instr {
    type V = InstrView;

    open spec fn view(&self) -> InstrView {
        match self {
            Instr::Label(l) => InstrView::Label(l@),
            Instr::Mov(a, b) => InstrView::Mov(a@, b@),
            Instr::Add(a, b) => InstrView::Add(a@, b@),
            Instr::Jmp(a) => InstrView::Jmp(a@),
            Instr::Syscall => InstrView::Syscall,
            Instr::Ret => InstrView::Ret,
            Instr::Nop => InstrView::Nop,
        }
    }
}

/// The views of an instruction sequence.
pub open spec fn instr_views(xs: Seq<Instr>) -> Seq<InstrView> {
    xs.map_values(|x: Instr| x@)
}

// ---------------------------------------------------------------------------
// Rendering numbers and tokens as text, for error messages
// ---------------------------------------------------------------------------

/// The decimal digit character for `d`.
pub open spec fn spec_digit_char(d: int) -> char {
    if d == 0 {
        '0'
    } else if d == 1 {
        '1'
    } else if d == 2 {
        '2'
    } else if d == 3 {
        '3'
    } else if d == 4 {
        '4'
    } else if d == 5 {
        '5'
    } else if d == 6 {
        '6'
    } else if d == 7 {
        '7'
    } else if d == 8 {
        '8'
    } else {
        '9'
    }
}

/// The decimal text of a nonnegative number.
pub open spec fn spec_nat_string(n: int) -> Seq<char>
    decreases n,
{
    if n < 10 {
        seq![spec_digit_char(n)]
    } else {
        spec_nat_string(n / 10).push(spec_digit_char(n % 10))
    }
}

/// The decimal text of a signed 32-bit number.
pub open spec fn spec_i32_string(x: i32) -> Seq<char> {
    if x < 0 {
        "-"@ + spec_nat_string(-(x as int))
    } else {
        spec_nat_string(x as int)
    }
}

/// A short description of a token, used when reporting it as unexpected.
pub open spec fn spec_describe_token(t: TokenView) -> Seq<char> {
    match t {
        TokenView::Int(x) => "integer "@ + spec_i32_string(x),
        TokenView::Symbol(Sym::Comment) => "comment"@,
        TokenView::Symbol(Sym::Comma) => "','"@,
        TokenView::Symbol(Sym::Colon) => "':'"@,
        TokenView::Symbol(Sym::LBrace) => "'{'"@,
        TokenView::Symbol(Sym::RBrace) => "'}'"@,
        TokenView::Ident(n) => "identifier "@ + n,
        TokenView::Instruction(n) => "instruction "@ + n,
        TokenView::Register(n) => "register "@ + n,
        TokenView::Dummy => "placeholder token"@,
    }
}

fn digit_char(d: u32) -> (c: char)
    requires
        d < 10,
    ensures
        c == spec_digit_char(d as int),
{
    if d == 0 {
        '0'
    } else if d == 1 {
        '1'
    } else if d == 2 {
        '2'
    } else if d == 3 {
        '3'
    } else if d == 4 {
        '4'
    } else if d == 5 {
        '5'
    } else if d == 6 {
        '6'
    } else if d == 7 {
        '7'
    } else if d == 8 {
        '8'
    } else {
        '9'
    }
}

fn nat_string(n: u32) -> (r: String)
    ensures
        r@ == spec_nat_string(n as int),
    decreases n,
{
    if n < 10 {
        let mut s = String::new();
        push_char(&mut s, digit_char(n));
        proof {
            assert(s@ =~= seq![spec_digit_char(n as int)]);
        }
        s
    } else {
        let mut s = nat_string(n / 10);
        push_char(&mut s, digit_char(n % 10));
        s
    }
}

fn i32_string(x: i32) -> (r: String)
    ensures
        r@ == spec_i32_string(x),
{
    if x >= 0 {
        nat_string(x as u32)
    } else {
        let m: u32 = (-(x as i64)) as u32;
        let mut s = "-".to_owned();
        let digits = nat_string(m);
        s.append(digits.as_str());
        s
    }
}

fn describe_token(t: &Token) -> (r: String)
    ensures
        r@ == spec_describe_token(t@),
{
    match t {
        Token::Int(x) => {
            let mut s = "integer ".to_owned();
            let digits = i32_string(*x);
            s.append(digits.as_str());
            s
        },
        Token::Symbol(Sym::Comment) => "comment".to_owned(),
        Token::Symbol(Sym::Comma) => "','".to_owned(),
        Token::Symbol(Sym::Colon) => "':'".to_owned(),
        Token::Symbol(Sym::LBrace) => "'{'".to_owned(),
        Token::Symbol(Sym::RBrace) => "'}'".to_owned(),
        Token::Ident(n) => {
            let mut s = "identifier ".to_owned();
            s.append(n.as_str());
            s
        },
        Token::Instruction(n) => {
            let mut s = "instruction ".to_owned();
            s.append(n.as_str());
            s
        },
        Token::Register(n) => {
            let mut s = "register ".to_owned();
            s.append(n.as_str());
            s
        },
        Token::Dummy => "placeholder token".to_owned(),
    }
}

// ---------------------------------------------------------------------------
// The grammar as a mathematical function of the token stream
// ---------------------------------------------------------------------------

/// Message for a mnemonic outside the grammar.
pub open spec fn msg_invalid_instruction(x: Seq<char>) -> Seq<char> {
    "invalid instruction "@ + x
}

/// Message for a token that cannot start an instruction.
pub open spec fn msg_invalid_token(t: TokenView) -> Seq<char> {
    "invalid token "@ + spec_describe_token(t)
}

/// Message for a missing or ill-formed single operand.
pub open spec fn msg_unary_op() -> Seq<char> {
    "failed to parse unary op"@
}

/// Message for a two-operand form that ends too early.
pub open spec fn msg_binary_op_eoi() -> Seq<char> {
    "failed to parse binary op, unexpected end of input"@
}

/// Message for a two-operand form with an unexpected token, naming the token.
pub open spec fn msg_binary_op_unexpected(t: TokenView) -> Seq<char> {
    "failed to parse binary op, unexpected "@ + spec_describe_token(t)
}

/// The operand of a one-operand instruction read at position `i`: a register,
/// an integer, or an identifier treated as a label reference.
pub open spec fn spec_parse_unary(ts: Seq<TokenView>, i: int) -> Result<OperandView, Seq<char>> {
    if i >= ts.len() {
        Err(msg_unary_op())
    } else {
        match ts[i] {
            TokenView::Register(r) => Ok(OperandView::Register(r)),
            TokenView::Int(x) => Ok(OperandView::Integer(x)),
            TokenView::Ident(x) => Ok(OperandView::Label(x)),
            _ => Err(msg_unary_op()),
        }
    }
}

/// The operands of a two-operand instruction read at position `i`: a register,
/// a comma, then a register or an integer. Any deviation fails, naming the
/// unexpected token.
pub open spec fn spec_parse_binary(ts: Seq<TokenView>, i: int) -> Result<
    (OperandView, OperandView),
    Seq<char>,
> {
    if i >= ts.len() {
        Err(msg_binary_op_eoi())
    } else {
        match ts[i] {
            TokenView::Register(r1) => {
                if i + 1 >= ts.len() {
                    Err(msg_binary_op_eoi())
                } else if ts[i + 1] != TokenView::Symbol(Sym::Comma) {
                    Err(msg_binary_op_unexpected(ts[i + 1]))
                } else if i + 2 >= ts.len() {
                    Err(msg_binary_op_eoi())
                } else {
                    match ts[i + 2] {
                        TokenView::Register(r2) => Ok(
                            (OperandView::Register(r1), OperandView::Register(r2)),
                        ),
                        TokenView::Int(x) => Ok(
                            (OperandView::Register(r1), OperandView::Integer(x)),
                        ),
                        t => Err(msg_binary_op_unexpected(t)),
                    }
                }
            },
            t => Err(msg_binary_op_unexpected(t)),
        }
    }
}

/// Prepends one instruction to a parse continuation.
pub open spec fn spec_cons_instr(x: InstrView, rest: Result<Seq<InstrView>, Seq<char>>) -> Result<
    Seq<InstrView>,
    Seq<char>,
> {
    match rest {
        Ok(v) => Ok(seq![x] + v),
        Err(m) => Err(m),
    }
}

/// The instruction list parsed from position `i` on, or the message of the
/// first grammar violation. An identifier immediately followed by a colon is a
/// label; an identifier not followed by a colon is dropped together with its
/// lookahead token, and is not an error.
pub open spec fn spec_parse(ts: Seq<TokenView>, i: int) -> Result<Seq<InstrView>, Seq<char>>
    decreases ts.len() + 4 - i,
{
    if i >= ts.len() {
        Ok(seq![])
    } else {
        match ts[i] {
            TokenView::Ident(name) => {
                if i + 1 < ts.len() && ts[i + 1] == TokenView::Symbol(Sym::Colon) {
                    spec_cons_instr(InstrView::Label(name), spec_parse(ts, i + 2))
                } else {
                    spec_parse(ts, i + 2)
                }
            },
            TokenView::Instruction(x) => {
                if x == "ret"@ {
                    spec_cons_instr(InstrView::Ret, spec_parse(ts, i + 1))
                } else if x == "syscall"@ {
                    spec_cons_instr(InstrView::Syscall, spec_parse(ts, i + 1))
                } else if x == "jmp"@ {
                    match spec_parse_unary(ts, i + 1) {
                        Ok(op) => spec_cons_instr(InstrView::Jmp(op), spec_parse(ts, i + 2)),
                        Err(m) => Err(m),
                    }
                } else if x == "mov"@ {
                    match spec_parse_binary(ts, i + 1) {
                        Ok(ops) => spec_cons_instr(
                            InstrView::Mov(ops.0, ops.1),
                            spec_parse(ts, i + 4),
                        ),
                        Err(m) => Err(m),
                    }
                } else if x == "add"@ {
                    match spec_parse_binary(ts, i + 1) {
                        Ok(ops) => spec_cons_instr(
                            InstrView::Add(ops.0, ops.1),
                            spec_parse(ts, i + 4),
                        ),
                        Err(m) => Err(m),
                    }
                } else {
                    Err(msg_invalid_instruction(x))
                }
            },
            t => Err(msg_invalid_token(t)),
        }
    }
}

/// An identifier not followed by a colon produces no instruction and is not
/// an error: parsing from the identifier is exactly parsing from after the
/// identifier and its lookahead token.
pub proof fn lemma_bare_ident_no_instruction(ts: Seq<TokenView>, i: int)
    requires
        0 <= i < ts.len(),
        ts[i] matches TokenView::Ident(_),
        i + 1 < ts.len() ==> ts[i + 1] != TokenView::Symbol(Sym::Colon),
    ensures
        spec_parse(ts, i) == spec_parse(ts, i + 2),
{
}

/// A `mov` whose first operand token is not a register is a syntax failure
/// whose message names the unexpected token.
pub proof fn lemma_mov_bad_first_operand(ts: Seq<TokenView>, i: int)
    requires
        0 <= i < ts.len(),
        ts[i] == TokenView::Instruction("mov"@),
        i + 1 < ts.len(),
        !(ts[i + 1] matches TokenView::Register(_)),
    ensures
        spec_parse(ts, i) == Err::<Seq<InstrView>, Seq<char>>(
            msg_binary_op_unexpected(ts[i + 1]),
        ),
{
    reveal_strlit("mov");
    reveal_strlit("ret");
    reveal_strlit("syscall");
    reveal_strlit("jmp");
    assert("mov"@ != "ret"@) by {
        if "mov"@ == "ret"@ {
            assert("mov"@[0] == "ret"@[0]);
        }
    }
    assert("mov"@ != "syscall"@) by {
        if "mov"@ == "syscall"@ {
            assert("mov"@.len() == "syscall"@.len());
        }
    }
    assert("mov"@ != "jmp"@) by {
        if "mov"@ == "jmp"@ {
            assert("mov"@[0] == "jmp"@[0]);
        }
    }
    assert(spec_parse_binary(ts, i + 1) == Err::<(OperandView, OperandView), Seq<char>>(
        msg_binary_op_unexpected(ts[i + 1]),
    ));
}

// ---------------------------------------------------------------------------
// Machine-code encoding
// ---------------------------------------------------------------------------

/// The opcode offset of a register in the `mov reg, imm32` encoding; names
/// outside the table map to zero.
pub open spec fn spec_reg_offset(r: Seq<char>) -> u8 {
    if r == "rcx"@ {
        1
    } else if r == "rdx"@ {
        2
    } else if r == "rbx"@ {
        3
    } else if r == "rsp"@ {
        4
    } else if r == "rbp"@ {
        5
    } else if r == "rsi"@ {
        6
    } else if r == "rdi"@ {
        7
    } else {
        0
    }
}

/// The two's-complement 32-bit image of a signed number.
pub open spec fn spec_u32_of_i32(x: i32) -> u32 {
    if x >= 0 {
        x as u32
    } else {
        (x + 0x1_0000_0000) as u32
    }
}

/// The machine-code bytes of an instruction. Only a move of an integer into a
/// register and `syscall` carry encodings; every other form yields no bytes.
pub open spec fn spec_encode(i: InstrView) -> Seq<u8> {
    match i {
        InstrView::Mov(OperandView::Register(r), OperandView::Integer(x)) => seq![
            (0xb8 + spec_reg_offset(r)) as u8,
        ] + vstd::bytes::spec_u32_to_le_bytes(spec_u32_of_i32(x)),
        InstrView::Syscall => seq![0x0fu8, 0x05u8],
        _ => Seq::empty(),
    }
}

fn string_eq_lit(a: &String, lit: &str) -> (r: bool)
    ensures
        r == (a@ == lit@),
{
    let other: String = lit.to_owned();
    a.eq(&other)
}

fn reg_offset(r: &String) -> (off: u8)
    ensures
        off == spec_reg_offset(r@),
{
    if string_eq_lit(r, "rcx") {
        1
    } else if string_eq_lit(r, "rdx") {
        2
    } else if string_eq_lit(r, "rbx") {
        3
    } else if string_eq_lit(r, "rsp") {
        4
    } else if string_eq_lit(r, "rbp") {
        5
    } else if string_eq_lit(r, "rsi") {
        6
    } else if string_eq_lit(r, "rdi") {
        7
    } else {
        0
    }
}

impl Instr {
    /// The machine-code bytes of this instruction; empty for forms that carry
    /// no encoding.
    pub fn encode(&self) -> (code: Vec<u8>)
        ensures
            code@ == spec_encode(self@),
    {
        match self {
            Instr::Mov(Operand::Register(r), Operand::Integer(x)) => {
                let off = reg_offset(r);
                let opcode: u8 = 0xb8 + off;
                let mut code: Vec<u8> = Vec::new();
                code.push(opcode);
                let ux: u32 = if *x >= 0 {
                    *x as u32
                } else {
                    ((*x as i64) + 0x1_0000_0000i64) as u32
                };
                let mut tail = vstd::bytes::u32_to_le_bytes(ux);
                code.append(&mut tail);
                proof {
                    assert(code@ =~= seq![(0xb8 + spec_reg_offset(r@)) as u8]
                        + vstd::bytes::spec_u32_to_le_bytes(spec_u32_of_i32(*x)));
                }
                code
            },
            Instr::Syscall => {
                let mut code: Vec<u8> = Vec::new();
                code.push(0x0f);
                code.push(0x05);
                proof {
                    assert(code@ =~= seq![0x0fu8, 0x05u8]);
                }
                code
            },
            _ => {
                let code: Vec<u8> = Vec::new();
                proof {
                    assert(code@ =~= Seq::<u8>::empty());
                }
                code
            },
        }
    }
}

/// The concatenated machine code of the first `k` instructions, in program
/// order.
pub open spec fn spec_program_bytes(xs: Seq<InstrView>, k: int) -> Seq<u8>
    decreases k,
{
    if k <= 0 {
        Seq::empty()
    } else {
        spec_program_bytes(xs, k - 1) + spec_encode(xs[k - 1])
    }
}

/// Encodes every instruction and concatenates the bytes in program order;
/// instructions that carry no encoding contribute nothing.
pub fn encode_program(instrs: &Vec<Instr>) -> (r: Vec<u8>)
    ensures
        r@ == spec_program_bytes(instr_views(instrs@), instrs@.len() as int),
{
    let mut out: Vec<u8> = Vec::new();
    proof {
        assert(out@ =~= spec_program_bytes(instr_views(instrs@), 0));
    }
    let mut i: usize = 0;
    while i < instrs.len()
        invariant
            i <= instrs@.len(),
            out@ == spec_program_bytes(instr_views(instrs@), i as int),
        decreases instrs@.len() - i,
    {
        proof {
            assert(instr_views(instrs@)[i as int] == instrs@[i as int]@);
        }
        let mut piece = instrs[i].encode();
        out.append(&mut piece);
        i += 1;
    }
    out
}

// ---------------------------------------------------------------------------
// The parser
// ---------------------------------------------------------------------------

/// Parser state: a token buffer and a cursor into it.
pub struct Parser {
    pub index: usize,
    pub tokens: Vec<Token>,
}

impl Parser {
    /// The cursor never runs past the end of the buffer.
    pub open spec fn wf(&self) -> bool {
        self.index <= self.tokens@.len()
    }

    pub fn new(tokens: Vec<Token>) -> (r: Parser)
        ensures
            r.wf(),
            r.index == 0,
            r.tokens == tokens,
    {
        Parser { index: 0, tokens }
    }

    fn is_eof(&self) -> (r: bool)
        ensures
            r == (self.index >= self.tokens@.len()),
    {
        self.index >= self.tokens.len()
    }

    fn next_token(&mut self) -> (r: Option<Token>)
        requires
            old(self).wf(),
        ensures
            final(self).wf(),
            final(self).tokens == old(self).tokens,
            match r {
                Some(t) => old(self).index < old(self).tokens@.len() && t == old(
                    self,
                ).tokens@[old(self).index as int] && final(self).index == old(self).index + 1,
                None => old(self).index >= old(self).tokens@.len() && final(self).index == old(
                    self,
                ).index,
            },
    {
        if self.is_eof() {
            return None;
        }
        let _n = self.tokens.len();
        let token = self.tokens[self.index].clone();
        self.index = self.index + 1;
        Some(token)
    }

    fn parse_unary_op(&mut self) -> (r: Result<Operand, Error>)
        requires
            old(self).wf(),
        ensures
            final(self).wf(),
            final(self).tokens == old(self).tokens,
            ({
                let pu = spec_parse_unary(token_views(old(self).tokens@), old(self).index as int);
                match r {
                    Ok(op) => pu == Ok::<OperandView, Seq<char>>(op@) && final(self).index == old(
                        self,
                    ).index + 1,
                    Err(e) => pu == Err::<OperandView, Seq<char>>(e@),
                }
            }),
    {
        match self.next_token() {
            Some(Token::Register(r)) => Ok(Operand::Register(r)),
            Some(Token::Int(x)) => Ok(Operand::Integer(x)),
            Some(Token::Ident(x)) => Ok(Operand::Label(x)),
            _ => Err(Error("failed to parse unary op".to_owned())),
        }
    }

    fn parse_binary_op(&mut self) -> (r: Result<(Operand, Operand), Error>)
        requires
            old(self).wf(),
        ensures
            final(self).wf(),
            final(self).tokens == old(self).tokens,
            ({
                let pb = spec_parse_binary(token_views(old(self).tokens@), old(self).index as int);
                match r {
                    Ok(ops) => pb == Ok::<(OperandView, OperandView), Seq<char>>((ops.0@, ops.1@))
                        && final(self).index == old(self).index + 3,
                    Err(e) => pb == Err::<(OperandView, OperandView), Seq<char>>(e@),
                }
            }),
    {
        match self.next_token() {
            Some(Token::Register(r1)) => {
                match self.next_token() {
                    Some(Token::Symbol(Sym::Comma)) => {
                        match self.next_token() {
                            Some(Token::Register(r2)) => Ok(
                                (Operand::Register(r1), Operand::Register(r2)),
                            ),
                            Some(Token::Int(x)) => Ok(
                                (Operand::Register(r1), Operand::Integer(x)),
                            ),
                            Some(t) => Err(Error(binary_unexpected_msg(&t))),
                            None => Err(Error(binary_eoi_msg())),
                        }
                    },
                    Some(t) => Err(Error(binary_unexpected_msg(&t))),
                    None => Err(Error(binary_eoi_msg())),
                }
            },
            Some(t) => Err(Error(binary_unexpected_msg(&t))),
            None => Err(Error(binary_eoi_msg())),
        }
    }

    /// Parses the whole token stream into an instruction list, or reports the
    /// first grammar violation.
    pub fn parse(&mut self) -> (r: Result<Vec<Instr>, Error>)
        requires
            old(self).wf(),
        ensures
            final(self).wf(),
            final(self).tokens == old(self).tokens,
            ({
                let p = spec_parse(token_views(old(self).tokens@), old(self).index as int);
                match r {
                    Ok(v) => p == Ok::<Seq<InstrView>, Seq<char>>(instr_views(v@)),
                    Err(e) => p == Err::<Seq<InstrView>, Seq<char>>(e@),
                }
            }),
    {
        let ghost tv = token_views(self.tokens@);
        let ghost i0 = self.index as int;
        let mut instrs: Vec<Instr> = Vec::new();
        proof {
            assert(instr_views(instrs@) =~= Seq::<InstrView>::empty());
        }
        loop
            invariant
                self.wf(),
                self.tokens == old(self).tokens,
                tv == token_views(old(self).tokens@),
                i0 == old(self).index as int,
                0 <= i0,
                tv.len() == self.tokens@.len(),
                (spec_parse(tv, i0) is Ok) == (spec_parse(tv, self.index as int) is Ok),
                spec_parse(tv, self.index as int) matches Ok(rest) ==> spec_parse(tv, i0) == Ok::<
                    Seq<InstrView>,
                    Seq<char>,
                >(instr_views(instrs@) + rest),
                spec_parse(tv, self.index as int) matches Err(m) ==> spec_parse(tv, i0) == Err::<
                    Seq<InstrView>,
                    Seq<char>,
                >(m),
            decreases self.tokens@.len() - self.index,
        {
            let ghost idx = self.index as int;
            let ghost old_instrs = instrs@;
            match self.next_token() {
                None => {
                    proof {
                        assert(spec_parse(tv, idx) == Ok::<Seq<InstrView>, Seq<char>>(seq![]));
                        assert(instr_views(instrs@) + Seq::<InstrView>::empty() =~= instr_views(
                            instrs@,
                        ));
                    }
                    return Ok(instrs);
                },
                Some(token) => {
                    proof {
                        assert(tv[idx] == self.tokens@[idx]@);
                    }
                    match token {
                        Token::Ident(label) => {
                            let ghost lbl = label@;
                            let next = self.next_token();
                            let is_label = match &next {
                                Some(Token::Symbol(Sym::Colon)) => true,
                                _ => false,
                            };
                            if is_label {
                                instrs.push(Instr::Label(label));
                            }
                            proof {
                                if is_label {
                                    assert(spec_parse(tv, idx) == spec_cons_instr(
                                        InstrView::Label(lbl),
                                        spec_parse(tv, idx + 2),
                                    ));
                                    assert(instr_views(instrs@) =~= instr_views(old_instrs).push(
                                        InstrView::Label(lbl),
                                    ));
                                    lemma_parse_push(
                                        tv,
                                        i0,
                                        idx,
                                        instr_views(old_instrs),
                                        InstrView::Label(lbl),
                                        idx + 2,
                                    );
                                } else {
                                    assert(spec_parse(tv, idx) == spec_parse(tv, idx + 2));
                                    if self.index as int != idx + 2 {
                                        assert(self.index as int == tv.len());
                                        assert(spec_parse(tv, self.index as int) == Ok::<
                                            Seq<InstrView>,
                                            Seq<char>,
                                        >(seq![]));
                                        assert(spec_parse(tv, idx + 2) == Ok::<
                                            Seq<InstrView>,
                                            Seq<char>,
                                        >(seq![]));
                                    }
                                }
                            }
                        },
                        Token::Instruction(x) => {
                            if string_eq_lit(&x, "ret") {
                                instrs.push(Instr::Ret);
                                proof {
                                    assert(instr_views(instrs@) =~= instr_views(old_instrs).push(
                                        InstrView::Ret,
                                    ));
                                    lemma_parse_push(
                                        tv,
                                        i0,
                                        idx,
                                        instr_views(old_instrs),
                                        InstrView::Ret,
                                        idx + 1,
                                    );
                                }
                            } else if string_eq_lit(&x, "syscall") {
                                instrs.push(Instr::Syscall);
                                proof {
                                    assert(instr_views(instrs@) =~= instr_views(old_instrs).push(
                                        InstrView::Syscall,
                                    ));
                                    lemma_parse_push(
                                        tv,
                                        i0,
                                        idx,
                                        instr_views(old_instrs),
                                        InstrView::Syscall,
                                        idx + 1,
                                    );
                                }
                            } else if string_eq_lit(&x, "jmp") {
                                match self.parse_unary_op() {
                                    Ok(op) => {
                                        let ghost opv = op@;
                                        instrs.push(Instr::Jmp(op));
                                        proof {
                                            assert(instr_views(instrs@) =~= instr_views(
                                                old_instrs,
                                            ).push(InstrView::Jmp(opv)));
                                            lemma_parse_push(
                                                tv,
                                                i0,
                                                idx,
                                                instr_views(old_instrs),
                                                InstrView::Jmp(opv),
                                                idx + 2,
                                            );
                                        }
                                    },
                                    Err(e) => {
                                        proof {
                                            assert(spec_parse(tv, idx) == Err::<
                                                Seq<InstrView>,
                                                Seq<char>,
                                            >(e@));
                                        }
                                        return Err(e);
                                    },
                                }
                            } else if string_eq_lit(&x, "mov") {
                                match self.parse_binary_op() {
                                    Ok(ops) => {
                                        let ghost v1 = ops.0@;
                                        let ghost v2 = ops.1@;
                                        instrs.push(Instr::Mov(ops.0, ops.1));
                                        proof {
                                            assert(instr_views(instrs@) =~= instr_views(
                                                old_instrs,
                                            ).push(InstrView::Mov(v1, v2)));
                                            lemma_parse_push(
                                                tv,
                                                i0,
                                                idx,
                                                instr_views(old_instrs),
                                                InstrView::Mov(v1, v2),
                                                idx + 4,
                                            );
                                        }
                                    },
                                    Err(e) => {
                                        proof {
                                            assert(spec_parse(tv, idx) == Err::<
                                                Seq<InstrView>,
                                                Seq<char>,
                                            >(e@));
                                        }
                                        return Err(e);
                                    },
                                }
                            } else if string_eq_lit(&x, "add") {
                                match self.parse_binary_op() {
                                    Ok(ops) => {
                                        let ghost v1 = ops.0@;
                                        let ghost v2 = ops.1@;
                                        instrs.push(Instr::Add(ops.0, ops.1));
                                        proof {
                                            assert(instr_views(instrs@) =~= instr_views(
                                                old_instrs,
                                            ).push(InstrView::Add(v1, v2)));
                                            lemma_parse_push(
                                                tv,
                                                i0,
                                                idx,
                                                instr_views(old_instrs),
                                                InstrView::Add(v1, v2),
                                                idx + 4,
                                            );
                                        }
                                    },
                                    Err(e) => {
                                        proof {
                                            assert(spec_parse(tv, idx) == Err::<
                                                Seq<InstrView>,
                                                Seq<char>,
                                            >(e@));
                                        }
                                        return Err(e);
                                    },
                                }
                            } else {
                                let mut m = "invalid instruction ".to_owned();
                                m.append(x.as_str());
                                proof {
                                    assert(spec_parse(tv, idx) == Err::<Seq<InstrView>, Seq<char>>(
                                        msg_invalid_instruction(x@),
                                    ));
                                }
                                return Err(Error(m));
                            }
                        },
                        t => {
                            let d = describe_token(&t);
                            let mut m = "invalid token ".to_owned();
                            m.append(d.as_str());
                            proof {
                                assert(spec_parse(tv, idx) == Err::<Seq<InstrView>, Seq<char>>(
                                    msg_invalid_token(tv[idx]),
                                ));
                            }
                            return Err(Error(m));
                        },
                    }
                },
            }
        }
    }
}

fn binary_unexpected_msg(t: &Token) -> (m: String)
    ensures
        m@ == msg_binary_op_unexpected(t@),
{
    let d = describe_token(t);
    let mut m = "failed to parse binary op, unexpected ".to_owned();
    m.append(d.as_str());
    m
}

fn binary_eoi_msg() -> (m: String)
    ensures
        m@ == msg_binary_op_eoi(),
{
    "failed to parse binary op, unexpected end of input".to_owned()
}

/// After one parsed instruction is appended, the parse of the remaining
/// tokens composes with the instructions gathered so far.
proof fn lemma_parse_push(
    tv: Seq<TokenView>,
    i0: int,
    idx: int,
    old_vs: Seq<InstrView>,
    x: InstrView,
    nxt: int,
)
    requires
        spec_parse(tv, idx) == spec_cons_instr(x, spec_parse(tv, nxt)),
        (spec_parse(tv, i0) is Ok) == (spec_parse(tv, idx) is Ok),
        spec_parse(tv, idx) matches Ok(rest) ==> spec_parse(tv, i0) == Ok::<
            Seq<InstrView>,
            Seq<char>,
        >(old_vs + rest),
        spec_parse(tv, idx) matches Err(m) ==> spec_parse(tv, i0) == Err::<
            Seq<InstrView>,
            Seq<char>,
        >(m),
    ensures
        (spec_parse(tv, i0) is Ok) == (spec_parse(tv, nxt) is Ok),
        spec_parse(tv, nxt) matches Ok(rest) ==> spec_parse(tv, i0) == Ok::<
            Seq<InstrView>,
            Seq<char>,
        >(old_vs.push(x) + rest),
        spec_parse(tv, nxt) matches Err(m) ==> spec_parse(tv, i0) == Err::<
            Seq<InstrView>,
            Seq<char>,
        >(m),
{
    match spec_parse(tv, nxt) {
        Result::Ok(rest) => {
            assert(spec_parse(tv, idx) == Ok::<Seq<InstrView>, Seq<char>>(seq![x] + rest));
            assert(old_vs + (seq![x] + rest) =~= old_vs.push(x) + rest);
        },
        Result::Err(m) => {},
    }
}

} // verus!
