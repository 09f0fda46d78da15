use vstd::prelude::*;

use crate::error::Error;

verus! {

// ---------------------------------------------------------------------------
// Character classes
// ---------------------------------------------------------------------------

/// Whether `c` has the Unicode `White_Space` property; the meaning of
/// `char::is_whitespace`, given a name so that contracts can speak of it.
pub uninterp spec fn is_whitespace_char(c: char) -> bool;

/// Relies on char::is_whitespace: whether the character has the Unicode
/// White_Space property, a function of the character alone.
pub assume_specification[ char::is_whitespace ](c: char) -> (r: bool)
    ensures
        r == is_whitespace_char(c),
;

/// Whether `c` has the Unicode `Alphabetic` property; the meaning of
/// `char::is_alphabetic`, given a name so that contracts can speak of it.
pub uninterp spec fn is_alphabetic_char(c: char) -> bool;

/// Relies on char::is_alphabetic: whether the character has the Unicode
/// Alphabetic property, a function of the character alone.
pub assume_specification[ char::is_alphabetic ](c: char) -> (r: bool)
    ensures
        r == is_alphabetic_char(c),
;

/// Whether `c` is in a Unicode Number category; the meaning of
/// `char::is_numeric`, given a name so that contracts can speak of it.
pub uninterp spec fn is_numeric_char(c: char) -> bool;

/// Relies on char::is_numeric: whether the character is in a Unicode Number
/// category, a function of the character alone.
pub assume_specification[ char::is_numeric ](c: char) -> (r: bool)
    ensures
        r == is_numeric_char(c),
;

/// Whether `c` is alphanumeric in the Unicode sense: `char::is_alphanumeric`
/// is documented as `is_alphabetic` or `is_numeric`.
pub open spec fn is_alphanumeric_char(c: char) -> bool {
    is_alphabetic_char(c) || is_numeric_char(c)
}

/// An ASCII decimal digit, the only digits the dialect accepts.
pub open spec fn is_digit_char(c: char) -> bool {
    '0' <= c <= '9'
}

/// A character that may start an identifier.
pub open spec fn is_ident_start_char(c: char) -> bool {
    is_alphabetic_char(c) || c == '.' || c == '_'
}

/// A character that may continue an identifier.
pub open spec fn is_ident_continue_char(c: char) -> bool {
    is_alphanumeric_char(c) || c == '.' || c == '_'
}

fn char_is_digit(c: char) -> (r: bool)
    ensures
        r == is_digit_char(c),
{
    let u = c as u32;
    48 <= u && u <= 57
}

/// Whether a character may start an identifier.
fn is_ident(c: char) -> (r: bool)
    ensures
        r == is_ident_start_char(c),
{
    c.is_alphabetic() || c == '.' || c == '_'
}

fn is_ident_continue(c: char) -> (r: bool)
    ensures
        r == is_ident_continue_char(c),
{
    c.is_alphabetic() || c.is_numeric() || c == '.' || c == '_'
}

// ---------------------------------------------------------------------------
// Tokens
// ---------------------------------------------------------------------------

/// Punctuation tokens.
#[derive(Clone, Copy, Debug, PartialEq, Eq, Structural)]
pub enum Sym {
    Comment,
    Comma,
    Colon,
    LBrace,
    RBrace,
}

/// A lexical token.
#[derive(Debug, PartialEq)]
pub enum Token {
    Int(i32),
    Symbol(Sym),
    Ident(String),
    Instruction(String),
    Register(String),
    Dummy,
}

/// The mathematical value of a token: identifier payloads become character
/// sequences.
pub enum TokenView {
    Int(i32),
    Symbol(Sym),
    Ident(Seq<char>),
    Instruction(Seq<char>),
    Register(Seq<char>),
    Dummy,
}

impl View for Token {
    type V = TokenView;

    open spec fn view(&self) -> TokenView {
        match self {
            Token::Int(x) => TokenView::Int(*x),
            Token::Symbol(s) => TokenView::Symbol(*s),
            Token::Ident(n) => TokenView::Ident(n@),
            Token::Instruction(n) => TokenView::Instruction(n@),
            Token::Register(n) => TokenView::Register(n@),
            Token::Dummy => TokenView::Dummy,
        }
    }
}

impl Clone for Token {
    fn clone(&self) -> (r: Self)
        ensures
            r == *self,
    {
        match self {
            Token::Int(x) => Token::Int(*x),
            Token::Symbol(s) => Token::Symbol(*s),
            Token::Ident(n) => Token::Ident(n.clone()),
            Token::Instruction(n) => Token::Instruction(n.clone()),
            Token::Register(n) => Token::Register(n.clone()),
            Token::Dummy => Token::Dummy,
        }
    }
}

/// The views of a token sequence.
pub open spec fn token_views(ts: Seq<Token>) -> Seq<TokenView> {
    ts.map_values(|t: Token| t@)
}

/// Relies on String::push: appends one character to the end of the string.
#[verifier::external_body]
pub(crate) fn push_char(s: &mut String, c: char)
    ensures
        final(s)@ == old(s)@.push(c),
{
    s.push(c)
}

fn string_eq_lit(a: &String, lit: &str) -> (r: bool)
    ensures
        r == (a@ == lit@),
{
    let other: String = lit.to_owned();
    a.eq(&other)
}

/// Classifies a freshly read identifier token against the closed sets of
/// known mnemonics and register names; other tokens pass through unchanged.
fn parse_ident(token: Token) -> (r: Token)
    ensures
        r@ == spec_classify_ident(token@),
{
    match token {
        Token::Ident(name) => {
            if string_eq_lit(&name, "mov") || string_eq_lit(&name, "add") || string_eq_lit(
                &name,
                "jmp",
            ) || string_eq_lit(&name, "ret") || string_eq_lit(&name, "syscall") {
                Token::Instruction(name)
            } else if string_eq_lit(&name, "rax") || string_eq_lit(&name, "rbx") || string_eq_lit(
                &name,
                "rdi",
            ) || string_eq_lit(&name, "ax") || string_eq_lit(&name, "bx") {
                Token::Register(name)
            } else {
                Token::Ident(name)
            }
        },
        t => t,
    }
}

// ---------------------------------------------------------------------------
// The token stream as a mathematical function of the source text
// ---------------------------------------------------------------------------

/// First position at or after `i` holding no whitespace.
pub open spec fn skip_ws(s: Seq<char>, i: int) -> int
    decreases s.len() - i,
{
    if i < s.len() && is_whitespace_char(s[i]) {
        skip_ws(s, i + 1)
    } else {
        i
    }
}

/// First position at or after `i` holding no ASCII digit.
pub open spec fn digit_run_end(s: Seq<char>, i: int) -> int
    decreases s.len() - i,
{
    if i < s.len() && is_digit_char(s[i]) {
        digit_run_end(s, i + 1)
    } else {
        i
    }
}

/// First position at or after `i` holding no identifier character.
pub open spec fn ident_run_end(s: Seq<char>, i: int) -> int
    decreases s.len() - i,
{
    if i < s.len() && is_ident_continue_char(s[i]) {
        ident_run_end(s, i + 1)
    } else {
        i
    }
}

/// Position just past the newline that ends a comment starting at `i`, or the
/// end of the text if no newline follows.
pub open spec fn comment_end(s: Seq<char>, i: int) -> int
    decreases s.len() - i,
{
    if i < s.len() {
        if s[i] == '\n' {
            i + 1
        } else {
            comment_end(s, i + 1)
        }
    } else {
        i
    }
}

/// The numeric value of a run of ASCII digits, read in base ten.
pub open spec fn digits_value(s: Seq<char>) -> int
    decreases s.len(),
{
    if s.len() == 0 {
        0
    } else {
        10 * digits_value(s.drop_last()) + (s.last() as u32 - 48)
    }
}

/// How an identifier is classified once read: known mnemonics become
/// instruction tokens, known register names register tokens, all else stays a
/// plain identifier.
pub open spec fn spec_classify_ident(t: TokenView) -> TokenView {
    match t {
        TokenView::Ident(name) => {
            if name == "mov"@ || name == "add"@ || name == "jmp"@ || name == "ret"@ || name
                == "syscall"@ {
                TokenView::Instruction(name)
            } else if name == "rax"@ || name == "rbx"@ || name == "rdi"@ || name == "ax"@ || name
                == "bx"@ {
                TokenView::Register(name)
            } else {
                TokenView::Ident(name)
            }
        },
        _ => t,
    }
}

/// The token produced by one lexing step starting at `i`, after whitespace.
/// `Ok(None)` is the end of the text; `Err(())` is an out-of-range integer
/// literal. Comment tokens are produced here and filtered by `spec_tokens`.
/// Punctuation is classified before identifier characters; since no
/// punctuation character is alphabetic, the order does not change which token
/// is read.
pub open spec fn step_token(s: Seq<char>, i: int) -> Result<Option<TokenView>, ()> {
    let j = skip_ws(s, i);
    if j >= s.len() {
        Ok(None)
    } else if is_digit_char(s[j]) {
        let v = digits_value(s.subrange(j, digit_run_end(s, j)));
        if v > i32::MAX {
            Err(())
        } else {
            Ok(Some(TokenView::Int(v as i32)))
        }
    } else if s[j] == ',' {
        Ok(Some(TokenView::Symbol(Sym::Comma)))
    } else if s[j] == ':' {
        Ok(Some(TokenView::Symbol(Sym::Colon)))
    } else if s[j] == ';' {
        Ok(Some(TokenView::Symbol(Sym::Comment)))
    } else if is_ident_start_char(s[j]) {
        Ok(Some(spec_classify_ident(TokenView::Ident(s.subrange(j, ident_run_end(s, j))))))
    } else {
        Ok(Some(TokenView::Symbol(Sym::Comment)))
    }
}

/// The position after one lexing step starting at `i`.
pub open spec fn step_end(s: Seq<char>, i: int) -> int {
    let j = skip_ws(s, i);
    if j >= s.len() {
        j
    } else if is_digit_char(s[j]) {
        digit_run_end(s, j)
    } else if s[j] == ',' || s[j] == ':' {
        j + 1
    } else if s[j] == ';' {
        comment_end(s, j + 1)
    } else if is_ident_start_char(s[j]) {
        ident_run_end(s, j)
    } else {
        j + 1
    }
}

proof fn lemma_skip_ws_bounds(s: Seq<char>, i: int)
    ensures
        i <= skip_ws(s, i),
        i <= s.len() ==> skip_ws(s, i) <= s.len(),
    decreases s.len() - i,
{
    if i < s.len() && is_whitespace_char(s[i]) {
        lemma_skip_ws_bounds(s, i + 1);
    }
}

proof fn lemma_digit_run_end_bounds(s: Seq<char>, i: int)
    ensures
        i <= digit_run_end(s, i),
        i <= s.len() ==> digit_run_end(s, i) <= s.len(),
    decreases s.len() - i,
{
    if i < s.len() && is_digit_char(s[i]) {
        lemma_digit_run_end_bounds(s, i + 1);
    }
}

proof fn lemma_ident_run_end_bounds(s: Seq<char>, i: int)
    ensures
        i <= ident_run_end(s, i),
        i <= s.len() ==> ident_run_end(s, i) <= s.len(),
    decreases s.len() - i,
{
    if i < s.len() && is_ident_continue_char(s[i]) {
        lemma_ident_run_end_bounds(s, i + 1);
    }
}

proof fn lemma_comment_end_bounds(s: Seq<char>, i: int)
    ensures
        i <= comment_end(s, i),
        i <= s.len() ==> comment_end(s, i) <= s.len(),
    decreases s.len() - i,
{
    if i < s.len() && s[i] != '\n' {
        lemma_comment_end_bounds(s, i + 1);
    }
}

/// A lexing step that yields a token always advances, and never runs past the
/// end of the text.
proof fn lemma_step_end_bounds(s: Seq<char>, i: int)
    ensures
        i <= step_end(s, i),
        i <= s.len() ==> step_end(s, i) <= s.len(),
        skip_ws(s, i) < s.len() ==> i < step_end(s, i),
{
    lemma_skip_ws_bounds(s, i);
    let j = skip_ws(s, i);
    if j < s.len() {
        if is_digit_char(s[j]) {
            assert(digit_run_end(s, j) == digit_run_end(s, j + 1));
            lemma_digit_run_end_bounds(s, j + 1);
        } else if s[j] == ',' || s[j] == ':' {
        } else if s[j] == ';' {
            lemma_comment_end_bounds(s, j + 1);
        } else if is_ident_start_char(s[j]) {
            assert(is_ident_continue_char(s[j]));
            assert(ident_run_end(s, j) == ident_run_end(s, j + 1));
            lemma_ident_run_end_bounds(s, j + 1);
        }
    }
}

/// Extending a digit run by one digit multiplies its value by ten and adds
/// the new digit.
proof fn lemma_digits_value_extend(s: Seq<char>, i0: int, k: int)
    requires
        0 <= i0 <= k < s.len(),
    ensures
        digits_value(s.subrange(i0, k + 1)) == 10 * digits_value(s.subrange(i0, k)) + (s[k] as u32
            - 48),
{
    let a = s.subrange(i0, k + 1);
    assert(a.drop_last() =~= s.subrange(i0, k));
    assert(a.last() == s[k]);
}

/// The token stream from position `i` on: each step's token, with comment
/// tokens filtered out; `None` if some integer literal is out of range.
pub open spec fn spec_tokens(s: Seq<char>, i: int) -> Option<Seq<TokenView>>
    decreases s.len() - i,
        via spec_tokens_decreases
{
    match step_token(s, i) {
        Err(()) => None,
        Ok(None) => Some(seq![]),
        Ok(Some(t)) => match spec_tokens(s, step_end(s, i)) {
            None => None,
            Some(rest) => if t == TokenView::Symbol(Sym::Comment) {
                Some(rest)
            } else {
                Some(seq![t] + rest)
            },
        },
    }
}

#[via_fn]
proof fn spec_tokens_decreases(s: Seq<char>, i: int) {
    lemma_step_end_bounds(s, i);
}

/// A comment contributes no tokens: wherever the next unread character is
/// `;`, the token stream is exactly the token stream of the text after the
/// comment's terminating newline (or after the end of the text).
pub proof fn lemma_comment_contributes_no_tokens(s: Seq<char>, i: int)
    requires
        0 <= i,
        ({
            let j = skip_ws(s, i);
            j < s.len() && s[j] == ';'
        }),
    ensures
        spec_tokens(s, i) == spec_tokens(s, comment_end(s, skip_ws(s, i) + 1)),
{
    let j = skip_ws(s, i);
    assert(!is_digit_char(s[j]));
    assert(step_token(s, i) == Ok::<Option<TokenView>, ()>(Some(TokenView::Symbol(Sym::Comment))));
    assert(step_end(s, i) == comment_end(s, j + 1));
    match spec_tokens(s, comment_end(s, j + 1)) {
        Option::None => {
            assert(spec_tokens(s, i) is None);
        },
        Option::Some(rest) => {
            assert(spec_tokens(s, i) == Some(rest));
        },
    }
}

// ---------------------------------------------------------------------------
// The lexer
// ---------------------------------------------------------------------------

/// Lexer state: a character buffer and a cursor into it.
pub struct Lexer {
    pub index: usize,
    pub buf: Vec<char>,
}

impl Lexer {
    /// The cursor never runs past the end of the buffer.
    pub open spec fn wf(&self) -> bool {
        self.index <= self.buf@.len()
    }

    pub fn new(buf: String) -> (r: Lexer)
        ensures
            r.wf(),
            r.index == 0,
            r.buf@ == buf@,
    {
        let s = buf.as_str();
        let n = s.unicode_len();
        let mut chars: Vec<char> = Vec::new();
        let mut i: usize = 0;
        while i < n
            invariant
                n == s@.len(),
                s@ == buf@,
                i <= n,
                chars@ == s@.subrange(0, i as int),
            decreases n - i,
        {
            chars.push(s.get_char(i));
            proof {
                assert(chars@ =~= s@.subrange(0, i + 1 as int));
            }
            i += 1;
        }
        proof {
            assert(chars@ =~= buf@);
        }
        Lexer { index: 0, buf: chars }
    }

    fn is_eof(&self) -> (r: bool)
        ensures
            r == (self.index >= self.buf@.len()),
    {
        self.index >= self.buf.len()
    }

    fn peek_char(&self) -> (c: char)
        requires
            self.index < self.buf@.len(),
        ensures
            c == self.buf@[self.index as int],
    {
        self.buf[self.index]
    }

    fn consume_char(&mut self) -> (c: char)
        requires
            old(self).index < old(self).buf@.len(),
        ensures
            c == old(self).buf@[old(self).index as int],
            final(self).buf == old(self).buf,
            final(self).index == old(self).index + 1,
    {
        let _n = self.buf.len();
        let c = self.buf[self.index];
        self.index = self.index + 1;
        c
    }

    fn consume_whitespace(&mut self)
        requires
            old(self).wf(),
        ensures
            final(self).wf(),
            final(self).buf == old(self).buf,
            final(self).index as int == skip_ws(old(self).buf@, old(self).index as int),
    {
        let ghost s = self.buf@;
        let ghost i0 = self.index as int;
        while !self.is_eof() && self.peek_char().is_whitespace()
            invariant
                self.wf(),
                self.buf == old(self).buf,
                self.buf@ == s,
                i0 <= self.index as int,
                skip_ws(s, self.index as int) == skip_ws(s, i0),
            decreases s.len() - self.index,
        {
            self.consume_char();
        }
    }

    fn consume_number(&mut self) -> (r: Result<Token, Error>)
        requires
            old(self).wf(),
            old(self).index < old(self).buf@.len(),
            is_digit_char(old(self).buf@[old(self).index as int]),
        ensures
            final(self).wf(),
            final(self).buf == old(self).buf,
            final(self).index as int == digit_run_end(old(self).buf@, old(self).index as int),
            ({
                let v = digits_value(
                    old(self).buf@.subrange(
                        old(self).index as int,
                        digit_run_end(old(self).buf@, old(self).index as int),
                    ),
                );
                match r {
                    Ok(t) => v <= i32::MAX && t == Token::Int(v as i32),
                    Err(_) => v > i32::MAX,
                }
            }),
    {
        let ghost s = self.buf@;
        let ghost i0 = self.index as int;
        let ghost end = digit_run_end(s, i0);
        let mut acc: u32 = 0;
        let mut overflow: bool = false;
        proof {
            assert(s.subrange(i0, i0) =~= Seq::<char>::empty());
        }
        while !self.is_eof() && char_is_digit(self.peek_char())
            invariant
                self.wf(),
                self.buf == old(self).buf,
                self.buf@ == s,
                s == old(self).buf@,
                i0 == old(self).index as int,
                0 <= i0 <= self.index as int <= s.len(),
                end == digit_run_end(s, i0),
                digit_run_end(s, self.index as int) == end,
                acc <= 2147483647,
                !overflow ==> acc as int == digits_value(s.subrange(i0, self.index as int)),
                overflow ==> digits_value(s.subrange(i0, self.index as int)) > i32::MAX,
            decreases s.len() - self.index,
        {
            let ghost idx = self.index as int;
            let c = self.consume_char();
            let d: u32 = c as u32 - 48;
            proof {
                lemma_digits_value_extend(s, i0, idx);
            }
            if !overflow {
                if acc <= (2147483647u32 - d) / 10 {
                    acc = acc * 10 + d;
                } else {
                    overflow = true;
                }
            }
        }
        if overflow {
            Err(Error("integer literal does not fit in 32 bits".to_owned()))
        } else {
            Ok(Token::Int(acc as i32))
        }
    }

    fn consume_symbol(&mut self) -> (r: Token)
        requires
            old(self).wf(),
            old(self).index < old(self).buf@.len(),
        ensures
            final(self).wf(),
            final(self).buf == old(self).buf,
            ({
                let s = old(self).buf@;
                let i = old(self).index as int;
                if s[i] == ',' {
                    r == Token::Symbol(Sym::Comma) && final(self).index == i + 1
                } else if s[i] == ':' {
                    r == Token::Symbol(Sym::Colon) && final(self).index == i + 1
                } else if s[i] == ';' {
                    r == Token::Symbol(Sym::Comment) && final(self).index as int == comment_end(
                        s,
                        i + 1,
                    )
                } else {
                    r == Token::Symbol(Sym::Comment) && final(self).index == i + 1
                }
            }),
    {
        let ghost s = self.buf@;
        let c = self.consume_char();
        let sym = if c == ',' {
            Sym::Comma
        } else if c == ':' {
            Sym::Colon
        } else if c == ';' {
            let ghost j0 = self.index as int;
            while !self.is_eof() && self.peek_char() != '\n'
                invariant
                    self.wf(),
                    self.buf == old(self).buf,
                    self.buf@ == s,
                    s == old(self).buf@,
                    j0 == old(self).index + 1,
                    0 <= j0 <= self.index as int <= s.len(),
                    comment_end(s, self.index as int) == comment_end(s, j0),
                decreases s.len() - self.index,
            {
                self.consume_char();
            }
            if !self.is_eof() {
                self.consume_char();
            }
            Sym::Comment
        } else {
            Sym::Comment
        };
        Token::Symbol(sym)
    }

    fn consume_ident(&mut self) -> (r: Token)
        requires
            old(self).wf(),
        ensures
            final(self).wf(),
            final(self).buf == old(self).buf,
            final(self).index as int == ident_run_end(old(self).buf@, old(self).index as int),
            r@ == TokenView::Ident(
                old(self).buf@.subrange(
                    old(self).index as int,
                    ident_run_end(old(self).buf@, old(self).index as int),
                ),
            ),
    {
        let ghost s = self.buf@;
        let ghost i0 = self.index as int;
        let mut name = String::new();
        proof {
            assert(name@ =~= s.subrange(i0, i0));
        }
        while !self.is_eof() && is_ident_continue(self.peek_char())
            invariant
                self.wf(),
                self.buf == old(self).buf,
                self.buf@ == s,
                s == old(self).buf@,
                i0 == old(self).index as int,
                0 <= i0 <= self.index as int <= s.len(),
                ident_run_end(s, self.index as int) == ident_run_end(s, i0),
                name@ == s.subrange(i0, self.index as int),
            decreases s.len() - self.index,
        {
            let c = self.consume_char();
            push_char(&mut name, c);
            proof {
                assert(name@ =~= s.subrange(i0, self.index as int));
            }
        }
        Token::Ident(name)
    }

    /// One lexing step: skips whitespace, then reads the next token. `Ok(None)`
    /// is the end of the text; the only failure is an integer literal that does
    /// not fit in 32 bits.
    pub fn next_token(&mut self) -> (r: Result<Option<Token>, Error>)
        requires
            old(self).wf(),
        ensures
            final(self).wf(),
            final(self).buf == old(self).buf,
            final(self).index as int == step_end(old(self).buf@, old(self).index as int),
            ({
                let st = step_token(old(self).buf@, old(self).index as int);
                match r {
                    Ok(Some(t)) => st == Ok::<Option<TokenView>, ()>(Some(t@)),
                    Ok(None) => st == Ok::<Option<TokenView>, ()>(None),
                    Err(_) => st == Err::<Option<TokenView>, ()>(()),
                }
            }),
    {
        self.consume_whitespace();
        if self.is_eof() {
            return Ok(None);
        }
        let c = self.peek_char();
        if char_is_digit(c) {
            match self.consume_number() {
                Ok(t) => Ok(Some(t)),
                Err(e) => Err(e),
            }
        } else if c == ',' || c == ':' || c == ';' {
            Ok(Some(self.consume_symbol()))
        } else if is_ident(c) {
            Ok(Some(parse_ident(self.consume_ident())))
        } else {
            Ok(Some(self.consume_symbol()))
        }
    }

    /// The whole token stream of the text, in source order, comments filtered
    /// out. Fails exactly when some integer literal is out of range.
    pub fn tokenize(&mut self) -> (r: Result<Vec<Token>, Error>)
        requires
            old(self).wf(),
        ensures
            final(self).wf(),
            final(self).buf == old(self).buf,
            ({
                let toks = spec_tokens(old(self).buf@, old(self).index as int);
                match r {
                    Ok(ts) => toks == Some(token_views(ts@)),
                    Err(_) => toks is None,
                }
            }),
    {
        let ghost s = self.buf@;
        let ghost i0 = self.index as int;
        let mut tokens: Vec<Token> = Vec::new();
        proof {
            assert(token_views(tokens@) =~= Seq::<TokenView>::empty());
        }
        loop
            invariant
                self.wf(),
                self.buf == old(self).buf,
                self.buf@ == s,
                s == old(self).buf@,
                i0 == old(self).index as int,
                0 <= i0,
                (spec_tokens(s, i0) is Some) == (spec_tokens(s, self.index as int) is Some),
                spec_tokens(s, self.index as int) matches Some(rest) ==> spec_tokens(s, i0)
                    == Some(token_views(tokens@) + rest),
            decreases s.len() - self.index,
        {
            let ghost idx = self.index as int;
            let ghost old_tokens = tokens@;
            proof {
                lemma_step_end_bounds(s, idx);
            }
            match self.next_token() {
                Err(e) => {
                    proof {
                        assert(spec_tokens(s, idx) is None);
                    }
                    return Err(e);
                },
                Ok(None) => {
                    proof {
                        assert(spec_tokens(s, idx) == Some(Seq::<TokenView>::empty()));
                        assert(token_views(tokens@) + Seq::<TokenView>::empty() =~= token_views(
                            tokens@,
                        ));
                    }
                    return Ok(tokens);
                },
                Ok(Some(t)) => {
                    let ghost tv = t@;
                    let is_comment = match &t {
                        Token::Symbol(Sym::Comment) => true,
                        _ => false,
                    };
                    if !is_comment {
                        tokens.push(t);
                    }
                    proof {
                        let idx2 = self.index as int;
                        match spec_tokens(s, idx2) {
                            Option::None => {
                                assert(spec_tokens(s, idx) is None);
                            },
                            Option::Some(rest) => {
                                if is_comment {
                                    assert(spec_tokens(s, idx) == Some(rest));
                                } else {
                                    assert(spec_tokens(s, idx) == Some(seq![tv] + rest));
                                    assert(token_views(tokens@) =~= token_views(old_tokens).push(
                                        tv,
                                    ));
                                    assert(token_views(old_tokens) + (seq![tv] + rest)
                                        =~= token_views(tokens@) + rest);
                                }
                            },
                        }
                    }
                },
            }
        }
    }
}

} // verus!
