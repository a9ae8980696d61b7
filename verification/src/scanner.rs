//! The lexer: from the bytes of an ASCII source text to tokens, one at a time.

use crate::span::{cite_span, cite_text};
use crate::tokens::{Token, TokenType};
use vstd::prelude::*;
use vstd::slice::slice_to_vec;
use vstd::string::*;
use vstd::utf8::*;

verus! {

pub type COMPError<T> = Result<T, CompileError>;

/// Why a source text was refused. The last field of `SyntaxError` and of `UnexpectedToken` is
/// the citation of the stretch of source at fault.
#[derive(Debug)]
pub enum CompileError {
    NonASCIIChar,
    SyntaxError(String, String),
    UnexpectedToken(TokenType, TokenType, String),
    ToManyConstants,
}

/// A `CompileError` with its texts as sequences of characters.
pub enum CompileErrorView {
    NonASCIIChar,
    SyntaxError(Seq<char>, Seq<char>),
    UnexpectedToken(TokenType, TokenType, Seq<char>),
    ToManyConstants,
}

impl View for CompileError {
    type V = CompileErrorView;

    open spec fn view(&self) -> CompileErrorView {
        match self {
            CompileError::NonASCIIChar => CompileErrorView::NonASCIIChar,
            CompileError::SyntaxError(msg, cite) => CompileErrorView::SyntaxError(msg@, cite@),
            CompileError::UnexpectedToken(expected, found, cite) => CompileErrorView::UnexpectedToken(
                *expected,
                *found,
                cite@,
            ),
            CompileError::ToManyConstants => CompileErrorView::ToManyConstants,
        }
    }
}

/// The syntax error with message `msg` for the stretch `st_pos..en_pos` of `text`.
pub open spec fn syntax_error(
    text: Seq<char>,
    msg: Seq<char>,
    st_pos: int,
    en_pos: int,
) -> CompileErrorView {
    CompileErrorView::SyntaxError(msg, cite_text(text, st_pos, en_pos))
}

/// The error for a token of kind `found` where one of kind `expected` had to stand, for the
/// stretch `st_pos..en_pos` of `text`.
pub open spec fn unexpected_error(
    text: Seq<char>,
    found: TokenType,
    expected: TokenType,
    st_pos: int,
    en_pos: int,
) -> CompileErrorView {
    CompileErrorView::UnexpectedToken(expected, found, cite_text(text, st_pos, en_pos))
}

/// `String::from_utf8` of std: the text that `bytes` encode, where they are valid UTF-8, and
/// nothing where they are not.
#[verifier::external_body]
fn string_from_utf8(bytes: Vec<u8>) -> (text: Option<String>)
    ensures
        valid_utf8(bytes@) ==> text is Some && text->0@ == decode_utf8(bytes@),
        !valid_utf8(bytes@) ==> text is None,
{
    String::from_utf8(bytes).ok()
}

impl CompileError {
    /// Whether `source` can be cited: it is valid UTF-8, and short enough for 32-bit positions.
    pub open spec fn citable(source: Seq<u8>, st_pos: int, en_pos: int) -> bool {
        &&& valid_utf8(source)
        &&& decode_utf8(source).len() < u32::MAX
        &&& st_pos < u32::MAX
        &&& en_pos < u32::MAX
    }

    fn prep_cite(source: &[u8], st_pos: usize, en_pos: usize) -> (cite: String)
        requires
            CompileError::citable(source@, st_pos as int, en_pos as int),
        ensures
            cite@ == cite_text(decode_utf8(source@), st_pos as int, en_pos as int),
    {
        let src = string_from_utf8(slice_to_vec(source));
        match src {
            Some(text) => cite_span(text.as_str(), st_pos, en_pos),
            None => String::new(),
        }
    }

    /// The syntax error with message `msg` for the stretch `st_pos..en_pos` of `source`.
    pub fn syntax(source: &[u8], msg: &str, st_pos: usize, en_pos: usize) -> (err: Self)
        requires
            CompileError::citable(source@, st_pos as int, en_pos as int),
        ensures
            err@ == syntax_error(decode_utf8(source@), msg@, st_pos as int, en_pos as int),
    {
        CompileError::SyntaxError(
            String::from_str(msg),
            CompileError::prep_cite(source, st_pos, en_pos),
        )
    }

    /// The error for token `tok` where `exp` had to stand, for the stretch `st_pos..en_pos` of
    /// `source`.
    pub fn unexpected(
        source: &[u8],
        tok: TokenType,
        exp: TokenType,
        st_pos: usize,
        en_pos: usize,
    ) -> (err: Self)
        requires
            CompileError::citable(source@, st_pos as int, en_pos as int),
        ensures
            err@ == unexpected_error(decode_utf8(source@), tok, exp, st_pos as int, en_pos as int),
    {
        let cite = CompileError::prep_cite(source, st_pos, en_pos);
        CompileError::UnexpectedToken(exp, tok, cite)
    }
}

/// The byte of an ASCII character.
pub open spec fn byte_of(c: char) -> u8 {
    c as u8
}

/// The bytes of an ASCII text.
pub open spec fn bytes_of(text: Seq<char>) -> Seq<u8> {
    Seq::new(text.len(), |i: int| text[i] as u8)
}

/// The text that ASCII bytes spell.
pub open spec fn text_of(bytes: Seq<u8>) -> Seq<char> {
    Seq::new(bytes.len(), |i: int| bytes[i] as char)
}

pub open spec fn is_digit(b: u8) -> bool {
    byte_of('0') <= b <= byte_of('9')
}

pub open spec fn is_alpha(b: u8) -> bool {
    ||| byte_of('a') <= b <= byte_of('z')
    ||| byte_of('A') <= b <= byte_of('Z')
    ||| b == byte_of('_')
}

/// Whether `b` can follow the first byte of a number (`number`) or of an identifier.
pub open spec fn continues(b: u8, number: bool) -> bool {
    if number {
        is_digit(b) || b == byte_of('.')
    } else {
        is_alpha(b) || is_digit(b)
    }
}

/// Where the run of number bytes, or of identifier bytes, that starts at `i` ends.
pub open spec fn run_end(s: Seq<u8>, i: int, number: bool) -> int
    decreases s.len() - i,
{
    if 0 <= i < s.len() && continues(s[i], number) {
        run_end(s, i + 1, number)
    } else {
        i
    }
}

/// The first position from `i` on that holds `b`; the length of `s` where there is none.
pub open spec fn find_byte(s: Seq<u8>, i: int, b: u8) -> int
    decreases s.len() - i,
{
    if 0 <= i < s.len() && s[i] != b {
        find_byte(s, i + 1, b)
    } else if i < s.len() {
        i
    } else {
        s.len() as int
    }
}

/// How often `b` occurs in `s` from `from` up to `to`.
pub open spec fn count_byte(s: Seq<u8>, from: int, to: int, b: u8) -> int
    decreases to - from,
{
    if from >= to {
        0
    } else {
        count_byte(s, from, to - 1, b) + if s[to - 1] == b {
            1int
        } else {
            0int
        }
    }
}

/// The kind of the identifier `lexeme`: that of the reserved word it spells, or `Ident`.
pub open spec fn keyword_type(lexeme: Seq<u8>) -> TokenType {
    if lexeme == bytes_of("and"@) {
        TokenType::And
    } else if lexeme == bytes_of("class"@) {
        TokenType::Class
    } else if lexeme == bytes_of("else"@) {
        TokenType::Else
    } else if lexeme == bytes_of("false"@) {
        TokenType::False
    } else if lexeme == bytes_of("for"@) {
        TokenType::For
    } else if lexeme == bytes_of("fun"@) {
        TokenType::Fun
    } else if lexeme == bytes_of("if"@) {
        TokenType::If
    } else if lexeme == bytes_of("nil"@) {
        TokenType::Nil
    } else if lexeme == bytes_of("or"@) {
        TokenType::Or
    } else if lexeme == bytes_of("print"@) {
        TokenType::Print
    } else if lexeme == bytes_of("return"@) {
        TokenType::Return
    } else if lexeme == bytes_of("super"@) {
        TokenType::Super
    } else if lexeme == bytes_of("this"@) {
        TokenType::This
    } else if lexeme == bytes_of("true"@) {
        TokenType::True
    } else if lexeme == bytes_of("var"@) {
        TokenType::Var
    } else if lexeme == bytes_of("while"@) {
        TokenType::While
    } else {
        TokenType::Ident
    }
}

/// What the scanner makes of the byte at one position.
pub enum Outcome {
    /// No token starts here.
    Fail,
    /// Blanks or a comment: scanning goes on behind them, on the same line.
    Skip,
    /// A line feed: scanning goes on behind it, on the next line.
    SkipLine,
    /// A token of this kind.
    Found(TokenType),
}

/// What the scanner makes of the byte at one position, where it stops reading, and the line
/// it has then reached.
pub struct Matched {
    pub outcome: Outcome,
    pub end: int,
    pub line: int,
}

/// `ty` where `then` follows the byte at `pos`, which then belongs to the token, and
/// `otherwise` where it does not.
pub open spec fn one_or_two(
    s: Seq<u8>,
    pos: int,
    line: int,
    then: u8,
    ty: TokenType,
    otherwise: TokenType,
) -> Matched {
    if pos + 1 < s.len() && s[pos + 1] == then {
        Matched { outcome: Outcome::Found(ty), end: pos + 2, line }
    } else {
        Matched { outcome: Outcome::Found(otherwise), end: pos + 1, line }
    }
}

/// What starts at `pos`, a position inside `s`, when the scanner is on line `line`.
///
/// A number is a digit and the digits and dots behind it. An identifier is a letter or `_`
/// and the letters, digits and `_` behind it. A string runs to the next `"` and may span
/// lines; without a closing `"` it is no token, and the scanner reads on to the end. A
/// comment runs from `//` up to the line feed; one that reaches the end of the source
/// gives the end-of-file token, which then covers the comment.
#[verifier::opaque]
pub open spec fn match_at(s: Seq<u8>, pos: int, line: int) -> Matched {
    let c = s[pos];
    let single = |ty: TokenType| Matched { outcome: Outcome::Found(ty), end: pos + 1, line };
    if is_digit(c) {
        Matched { outcome: Outcome::Found(TokenType::Number), end: run_end(s, pos + 1, true), line }
    } else if is_alpha(c) {
        let end = run_end(s, pos + 1, false);
        Matched { outcome: Outcome::Found(keyword_type(s.subrange(pos, end))), end, line }
    } else if c == byte_of('(') {
        single(TokenType::LeftParen)
    } else if c == byte_of(')') {
        single(TokenType::RightParen)
    } else if c == byte_of('{') {
        single(TokenType::LeftBrace)
    } else if c == byte_of('}') {
        single(TokenType::RightBrace)
    } else if c == byte_of(';') {
        single(TokenType::Semicolon)
    } else if c == byte_of(',') {
        single(TokenType::Comma)
    } else if c == byte_of('.') {
        single(TokenType::Dot)
    } else if c == byte_of('-') {
        single(TokenType::Minus)
    } else if c == byte_of('+') {
        single(TokenType::Plus)
    } else if c == byte_of('/') {
        if pos + 1 < s.len() && s[pos + 1] == byte_of('/') {
            let end = find_byte(s, pos + 1, byte_of('\n'));
            if end >= s.len() {
                Matched { outcome: Outcome::Found(TokenType::EoF), end: s.len() as int, line }
            } else {
                Matched { outcome: Outcome::Skip, end, line }
            }
        } else {
            single(TokenType::Slash)
        }
    } else if c == byte_of('*') {
        single(TokenType::Star)
    } else if c == byte_of('!') {
        one_or_two(s, pos, line, byte_of('='), TokenType::BangEqual, TokenType::Bang)
    } else if c == byte_of('=') {
        one_or_two(s, pos, line, byte_of('='), TokenType::EqualEqual, TokenType::Equal)
    } else if c == byte_of('<') {
        one_or_two(s, pos, line, byte_of('='), TokenType::LessEqual, TokenType::Less)
    } else if c == byte_of('>') {
        one_or_two(s, pos, line, byte_of('='), TokenType::GreaterEqual, TokenType::Greater)
    } else if c == byte_of('"') {
        let close = find_byte(s, pos + 1, byte_of('"'));
        if close >= s.len() {
            Matched {
                outcome: Outcome::Fail,
                end: s.len() as int,
                line: line + count_byte(s, pos + 1, s.len() as int, byte_of('\n')),
            }
        } else {
            Matched {
                outcome: Outcome::Found(TokenType::String),
                end: close + 1,
                line: line + count_byte(s, pos + 1, close, byte_of('\n')),
            }
        }
    } else if c == byte_of('\n') {
        Matched { outcome: Outcome::SkipLine, end: pos + 1, line }
    } else if c == byte_of(' ') || c == byte_of('\t') {
        Matched { outcome: Outcome::Skip, end: pos + 1, line }
    } else {
        Matched { outcome: Outcome::Fail, end: pos + 1, line }
    }
}

/// The result of one scan: the kind of the token (`Error` where no token could be made),
/// the stretch `start..end` of its lexeme, and the line the scanner has reached.
pub struct Scan {
    pub ty: TokenType,
    pub start: int,
    pub end: int,
    pub line: int,
}

impl Scan {
    /// The token of this scan.
    pub open spec fn token(self) -> Token {
        Token::spanning(self.ty, self.start, self.end, self.line)
    }
}

/// A run, a search and a count end inside the text, at or behind where they began.
pub proof fn reads_stay_inside(s: Seq<u8>, i: int, b: u8, number: bool)
    requires
        0 <= i <= s.len(),
    ensures
        i <= run_end(s, i, number) <= s.len(),
        i <= find_byte(s, i, b) <= s.len(),
        find_byte(s, i, b) < s.len() ==> s[find_byte(s, i, b)] == b,
        forall|j: int| i <= j < find_byte(s, i, b) ==> s[j] != b,
        forall|j: int| i <= j < run_end(s, i, number) ==> continues(#[trigger] s[j], number),
        run_end(s, i, number) < s.len() ==> !continues(s[run_end(s, i, number)], number),
    decreases s.len() - i,
{
    if i < s.len() {
        reads_stay_inside(s, i + 1, b, number);
    }
}

/// A count of bytes in a stretch is at least zero and at most the length of the stretch.
pub proof fn count_is_bounded(s: Seq<u8>, from: int, to: int, b: u8)
    requires
        from <= to,
    ensures
        0 <= count_byte(s, from, to, b) <= to - from,
    decreases to - from,
{
    if from < to {
        count_is_bounded(s, from, to - 1, b);
    }
}

/// What starts at a position ends behind it, inside the text, and the line does not move
/// back, nor on by more than the bytes read.
pub proof fn match_advances(s: Seq<u8>, pos: int, line: int)
    requires
        0 <= pos < s.len(),
    ensures
        pos < match_at(s, pos, line).end <= s.len(),
        line <= match_at(s, pos, line).line,
        match_at(s, pos, line).line + (if match_at(s, pos, line).outcome is SkipLine {
            1int
        } else {
            0int
        }) <= line + (match_at(s, pos, line).end - pos),
        match_at(s, pos, line).outcome == Outcome::Found(TokenType::String) ==> match_at(
            s,
            pos,
            line,
        ).end >= pos + 2,
        match_at(s, pos, line).outcome == Outcome::Found(TokenType::EoF) ==> match_at(
            s,
            pos,
            line,
        ).end == s.len(),
        match_at(s, pos, line).outcome != Outcome::Found(TokenType::Error),
{
    reveal(match_at);
    reads_stay_inside(s, pos + 1, byte_of('\n'), true);
    reads_stay_inside(s, pos + 1, byte_of('"'), false);
    let close = find_byte(s, pos + 1, byte_of('"'));
    count_is_bounded(s, pos + 1, close, byte_of('\n'));
}

/// The next token from `pos` on, when the scanner is on line `line`: blanks, line feeds and
/// comments are passed over; at the end of the text stands the end-of-file token.
pub open spec fn scan(s: Seq<u8>, pos: int, line: int) -> Scan
    decreases s.len() - pos,
{
    if pos < 0 || pos >= s.len() {
        Scan { ty: TokenType::EoF, start: pos, end: pos, line }
    } else {
        let m = match_at(s, pos, line);
        proof {
            match_advances(s, pos, line);
        }
        match m.outcome {
            Outcome::Found(ty) => Scan { ty, start: pos, end: m.end, line: m.line },
            Outcome::Fail => Scan { ty: TokenType::Error, start: pos, end: m.end, line: m.line },
            Outcome::Skip => scan(s, m.end, m.line),
            Outcome::SkipLine => scan(s, m.end, m.line + 1),
        }
    }
}

/// A scan from inside the text starts at or behind where it began, ends inside the text,
/// and passes over at least one byte unless it gives the end-of-file token.
pub proof fn scan_advances(s: Seq<u8>, pos: int, line: int)
    requires
        0 <= pos <= s.len(),
    ensures
        pos <= scan(s, pos, line).start <= scan(s, pos, line).end <= s.len(),
        scan(s, pos, line).ty != TokenType::EoF ==> scan(s, pos, line).start < scan(s, pos, line).end,
        scan(s, pos, line).ty == TokenType::String ==> scan(s, pos, line).start + 2 <= scan(
            s,
            pos,
            line,
        ).end,
        line <= scan(s, pos, line).line <= line + (scan(s, pos, line).end - pos),
        scan(s, pos, line).ty == TokenType::EoF ==> scan(s, pos, line).end == s.len(),
    decreases s.len() - pos,
{
    if pos < s.len() {
        let m = match_at(s, pos, line);
        match_advances(s, pos, line);
        match m.outcome {
            Outcome::Skip => scan_advances(s, m.end, m.line),
            Outcome::SkipLine => scan_advances(s, m.end, m.line + 1),
            _ => {},
        }
    }
}

/// The text that token `tok` covers.
pub open spec fn lexeme(s: Seq<u8>, tok: Token) -> Seq<char> {
    text_of(s.subrange(tok.start_pos as int, tok.end()))
}

/// What the scanner reports where it can make no token.
pub open spec fn no_token_message() -> Seq<char> {
    "Couldn't identify tokens"@
}

pub enum MatchState {
    SyntaxError,
    ScanNext,
    ScanNextLine,
    Matched(Token),
}

impl MatchState {
    /// What this state says of a match that ended with the scanner at `start..end`, on `line`.
    pub open spec fn describes(self, m: Matched, start: int) -> bool {
        match self {
            MatchState::SyntaxError => m.outcome is Fail,
            MatchState::ScanNext => m.outcome is Skip,
            MatchState::ScanNextLine => m.outcome is SkipLine,
            MatchState::Matched(tok) => m.outcome is Found && tok == Token::spanning(
                m.outcome->Found_0,
                start,
                m.end,
                m.line,
            ),
        }
    }
}

/// A scanner over one source text. `ascii_chars` are the bytes of `text`; the scanner has
/// read them up to `cur_pos`, the lexeme at hand starts at `start_pos`, and `line` counts the
/// line feeds read, from 1.
pub struct Scanner<'a> {
    pub ascii_chars: &'a [u8],
    pub text: &'a str,
    pub start_pos: usize,
    pub cur_pos: usize,
    pub line: u32,
}

impl<'a> Scanner<'a> {
    /// The bytes of the source.
    pub open spec fn src(&self) -> Seq<u8> {
        self.ascii_chars@
    }

    /// The source is ASCII, the positions lie inside it in order, and the line counter cannot
    /// overflow on what is left to read.
    pub open spec fn wf(&self) -> bool {
        &&& is_ascii(self.text)
        &&& self.ascii_chars@ == self.text.spec_bytes()
        &&& self.start_pos <= self.cur_pos <= self.ascii_chars@.len()
        &&& self.ascii_chars@.len() < u32::MAX
        &&& self.line + (self.ascii_chars@.len() - self.cur_pos) <= u32::MAX
    }

    /// Another state of the same scanner: over the same source.
    pub open spec fn same_source(&self, other: &Self) -> bool {
        &&& self.ascii_chars@ == other.ascii_chars@
        &&& self.text@ == other.text@
    }

    /// The bytes of a well-formed scanner spell its text, and can be cited.
    pub proof fn source_is_text(&self)
        requires
            self.wf(),
        ensures
            self.text@ == text_of(self.src()),
            self.text@.len() == self.src().len(),
            decode_utf8(self.src()) == self.text@,
            valid_utf8(self.src()),
            forall|i: int| 0 <= i < self.src().len() ==> (#[trigger] self.src()[i]) < 128,
    {
        broadcast use vstd::utf8::group_utf8_lib;
        broadcast use vstd::string::group_string_axioms;

        assert(is_ascii_chars(self.text@));
        assert forall|i: int| 0 <= i < self.src().len() implies (#[trigger] self.src()[i]) < 128
            && self.src()[i] as char == self.text@[i] by {
            assert(self.text@[i] as u8 == self.src()[i]);
            assert((self.text@[i] as nat) < 128);
        }
        assert(self.text@ =~= text_of(self.src()));
    }

    /// A scanner at the start of `source`.
    pub fn from_str(source: &'a str) -> (res: COMPError<Self>)
        requires
            source@.len() < u32::MAX,
        ensures
            !is_ascii(source) ==> res is Err && res->Err_0@ == CompileErrorView::NonASCIIChar,
            is_ascii(source) ==> res is Ok && res->Ok_0.wf() && res->Ok_0.text@ == source@
                && res->Ok_0.src() == bytes_of(source@) && res->Ok_0.start_pos == 0
                && res->Ok_0.cur_pos == 0 && res->Ok_0.line == 1,
    {
        broadcast use vstd::string::group_string_axioms;

        if !source.is_ascii() {
            return Err(CompileError::NonASCIIChar);
        }
        let ascii_chars = source.as_bytes();
        assert(ascii_chars@ =~= bytes_of(source@));
        Ok(Scanner { ascii_chars, text: source, start_pos: 0, cur_pos: 0, line: 1 })
    }

    /// Scans the next token. The scanner ends behind the token, with `start_pos` where the
    /// lexeme starts; where no token can be made, the syntax error cites that stretch.
    pub fn scan_token(&mut self) -> (res: COMPError<Token>)
        requires
            old(self).wf(),
        ensures
            final(self).wf(),
            final(self).same_source(old(self)),
            ({
                let sc = scan(old(self).src(), old(self).cur_pos as int, old(self).line as int);
                &&& final(self).start_pos == sc.start
                &&& final(self).cur_pos == sc.end
                &&& final(self).line == sc.line
                &&& sc.ty != TokenType::Error ==> res is Ok && res->Ok_0 == sc.token()
                &&& sc.ty == TokenType::Error ==> res is Err && res->Err_0@ == syntax_error(
                    old(self).text@,
                    no_token_message(),
                    sc.start,
                    sc.end,
                )
            }),
    {
        self.start_pos = self.cur_pos;
        if self.cur_pos >= self.ascii_chars.len() {
            return Ok(self.make_token(TokenType::EoF));
        }
        loop
            invariant_except_break
                self.start_pos == self.cur_pos,
                scan(self.src(), self.cur_pos as int, self.line as int) == scan(
                    old(self).src(),
                    old(self).cur_pos as int,
                    old(self).line as int,
                ),
            invariant
                self.wf(),
                self.same_source(old(self)),
            ensures
                self.wf(),
                self.same_source(old(self)),
                ({
                    let sc = scan(old(self).src(), old(self).cur_pos as int, old(self).line as int);
                    &&& sc.ty == TokenType::Error
                    &&& self.start_pos == sc.start
                    &&& self.cur_pos == sc.end
                    &&& self.line == sc.line
                }),
            decreases self.ascii_chars@.len() - self.cur_pos,
        {
            let ghost before = *self;
            match self.move_to_next_char() {
                None => {
                    return Ok(self.make_token(TokenType::EoF));
                },
                Some(ch) => {
                    proof {
                        match_advances(self.src(), before.cur_pos as int, before.line as int);
                    }
                    match self._token_matcher(ch) {
                        MatchState::Matched(tok) => {
                            return Ok(tok);
                        },
                        MatchState::ScanNextLine => {
                            self.line += 1;
                            self.start_pos = self.cur_pos;
                        },
                        MatchState::ScanNext => {
                            self.start_pos = self.cur_pos;
                        },
                        MatchState::SyntaxError => {
                            break ;
                        },
                    }
                },
            }
        }
        proof {
            self.source_is_text();
        }
        Err(
            CompileError::syntax(
                self.ascii_chars,
                "Couldn't identify tokens",
                self.start_pos,
                self.cur_pos,
            ),
        )
    }

    /// The text that `tok` covers, as an owned string.
    pub fn token_text(&self, tok: Token) -> (res: COMPError<String>)
        requires
            self.wf(),
            tok.end() <= self.src().len(),
        ensures
            res is Ok,
            res->Ok_0@ == lexeme(self.src(), tok),
    {
        match self.token_txt_str(tok) {
            Ok(text) => Ok(String::from_str(text)),
            Err(e) => Err(e),
        }
    }

    /// The text that `tok` covers, as a slice of the source.
    pub fn token_txt_str(&self, tok: Token) -> (res: COMPError<&'a str>)
        requires
            self.wf(),
            tok.end() <= self.src().len(),
        ensures
            res is Ok,
            res->Ok_0@ == lexeme(self.src(), tok),
    {
        proof {
            self.source_is_text();
        }
        let piece = self.text.substring_ascii(tok.start_pos, tok.start_pos + tok.len);
        assert(piece@ =~= lexeme(self.src(), tok));
        Ok(piece)
    }

    fn make_token(&self, tok_type: TokenType) -> (tok: Token)
        requires
            self.start_pos <= self.cur_pos,
            tok_type == TokenType::String ==> self.cur_pos - self.start_pos >= 2,
        ensures
            tok == Token::spanning(
                tok_type,
                self.start_pos as int,
                self.cur_pos as int,
                self.line as int,
            ),
    {
        Token::make(tok_type, self)
    }

    fn next_is(&self, ch: u8) -> (yes: bool)
        requires
            self.cur_pos <= self.ascii_chars@.len(),
        ensures
            yes == (self.cur_pos < self.src().len() && self.src()[self.cur_pos as int] == ch),
    {
        match self.peek() {
            None => false,
            Some(actual) => actual == ch,
        }
    }

    /// Whether the lexeme at `st..en` spells `word`.
    fn spells(&self, st: usize, en: usize, word: &str) -> (yes: bool)
        requires
            st <= en <= self.src().len(),
            is_ascii(word),
        ensures
            yes == (self.src().subrange(st as int, en as int) == bytes_of(word@)),
    {
        let lexeme_len = en - st;
        let ghost lexeme = self.src().subrange(st as int, en as int);
        if word.unicode_len() != lexeme_len {
            assert(lexeme.len() != bytes_of(word@).len());
            return false;
        }
        let mut i: usize = 0;
        while i < lexeme_len
            invariant
                i <= lexeme_len,
                lexeme_len == en - st,
                st <= en <= self.src().len(),
                is_ascii(word),
                word@.len() == lexeme_len,
                lexeme == self.src().subrange(st as int, en as int),
                forall|j: int| 0 <= j < i ==> lexeme[j] == bytes_of(word@)[j],
            decreases lexeme_len - i,
        {
            if self.ascii_chars[st + i] != word.get_ascii(i) {
                assert(lexeme[i as int] != bytes_of(word@)[i as int]);
                return false;
            }
            i = i + 1;
        }
        assert(lexeme =~= bytes_of(word@));
        true
    }

    /// The keyword token where the lexeme at `st..en` spells `word`, the identifier token
    /// where it does not.
    fn match_rest(&self, st: usize, en: usize, word: &str, kw: TokenType) -> (tok: Token)
        requires
            self.start_pos <= self.cur_pos,
            st <= en <= self.src().len(),
            is_ascii(word),
            kw != TokenType::String,
        ensures
            tok == Token::spanning(
                if self.src().subrange(st as int, en as int) == bytes_of(word@) {
                    kw
                } else {
                    TokenType::Ident
                },
                self.start_pos as int,
                self.cur_pos as int,
                self.line as int,
            ),
    {
        if self.spells(st, en, word) {
            self.make_token(kw)
        } else {
            self.make_token(TokenType::Ident)
        }
    }

    fn keyword_or_ident(&self, st: usize, en: usize) -> (tok: Token)
        requires
            self.start_pos <= self.cur_pos,
            st < en <= self.src().len(),
        ensures
            tok == Token::spanning(
                keyword_type(self.src().subrange(st as int, en as int)),
                self.start_pos as int,
                self.cur_pos as int,
                self.line as int,
            ),
    {
        proof {
            reveal_strlit("and");
            reveal_strlit("class");
            reveal_strlit("else");
            reveal_strlit("false");
            reveal_strlit("for");
            reveal_strlit("fun");
            reveal_strlit("if");
            reveal_strlit("nil");
            reveal_strlit("or");
            reveal_strlit("print");
            reveal_strlit("return");
            reveal_strlit("super");
            reveal_strlit("this");
            reveal_strlit("true");
            reveal_strlit("var");
            reveal_strlit("while");
        }
        let ghost lexeme = self.src().subrange(st as int, en as int);
        assert(lexeme[0] == self.src()[st as int]);
        // the shortest keyword has two bytes
        if en - st < 2 {
            assert(lexeme.len() == 1);
            return self.make_token(TokenType::Ident);
        }
        assert(lexeme[1] == self.src()[st + 1]);
        let first_char = self.ascii_chars[st];
        let second_char = self.ascii_chars[st + 1];
        if first_char == 'a' as u8 {
            self.match_rest(st, en, "and", TokenType::And)
        } else if first_char == 'c' as u8 {
            self.match_rest(st, en, "class", TokenType::Class)
        } else if first_char == 'e' as u8 {
            self.match_rest(st, en, "else", TokenType::Else)
        } else if first_char == 'i' as u8 {
            self.match_rest(st, en, "if", TokenType::If)
        } else if first_char == 'n' as u8 {
            self.match_rest(st, en, "nil", TokenType::Nil)
        } else if first_char == 'o' as u8 {
            self.match_rest(st, en, "or", TokenType::Or)
        } else if first_char == 'p' as u8 {
            self.match_rest(st, en, "print", TokenType::Print)
        } else if first_char == 'r' as u8 {
            self.match_rest(st, en, "return", TokenType::Return)
        } else if first_char == 's' as u8 {
            self.match_rest(st, en, "super", TokenType::Super)
        } else if first_char == 'v' as u8 {
            self.match_rest(st, en, "var", TokenType::Var)
        } else if first_char == 'w' as u8 {
            self.match_rest(st, en, "while", TokenType::While)
        } else if first_char == 'f' as u8 {
            if second_char == 'u' as u8 {
                self.match_rest(st, en, "fun", TokenType::Fun)
            } else if second_char == 'o' as u8 {
                self.match_rest(st, en, "for", TokenType::For)
            } else if second_char == 'a' as u8 {
                self.match_rest(st, en, "false", TokenType::False)
            } else {
                self.make_token(TokenType::Ident)
            }
        } else if first_char == 't' as u8 {
            if second_char == 'h' as u8 {
                self.match_rest(st, en, "this", TokenType::This)
            } else if second_char == 'r' as u8 {
                self.match_rest(st, en, "true", TokenType::True)
            } else {
                self.make_token(TokenType::Ident)
            }
        } else {
            self.make_token(TokenType::Ident)
        }
    }

    /// Reads on while the next byte continues a number (`number`) or an identifier.
    fn read_run(&mut self, number: bool)
        requires
            old(self).wf(),
        ensures
            final(self).wf(),
            final(self).same_source(old(self)),
            final(self).start_pos == old(self).start_pos,
            final(self).line == old(self).line,
            final(self).cur_pos == run_end(old(self).src(), old(self).cur_pos as int, number),
    {
        loop
            invariant
                self.wf(),
                self.same_source(old(self)),
                self.start_pos == old(self).start_pos,
                self.line == old(self).line,
                old(self).cur_pos <= self.cur_pos,
                run_end(self.src(), self.cur_pos as int, number) == run_end(
                    old(self).src(),
                    old(self).cur_pos as int,
                    number,
                ),
            ensures
                self.wf(),
                self.same_source(old(self)),
                self.start_pos == old(self).start_pos,
                self.line == old(self).line,
                self.cur_pos == run_end(old(self).src(), old(self).cur_pos as int, number),
            decreases self.ascii_chars@.len() - self.cur_pos,
        {
            match self.peek() {
                None => {
                    break ;
                },
                Some(b) => {
                    let digit = b >= '0' as u8 && b <= '9' as u8;
                    let letter = (b >= 'a' as u8 && b <= 'z' as u8) || (b >= 'A' as u8 && b
                        <= 'Z' as u8) || b == '_' as u8;
                    let more = if number {
                        digit || b == '.' as u8
                    } else {
                        letter || digit
                    };
                    if !more {
                        break ;
                    }
                    self.move_to_next_char();
                },
            }
        }
    }

    fn _token_matcher(&mut self, ch: u8) -> (state: MatchState)
        requires
            old(self).wf(),
            old(self).cur_pos >= 1,
            old(self).start_pos == old(self).cur_pos - 1,
            ch == old(self).src()[old(self).cur_pos - 1],
            old(self).line + (old(self).src().len() - old(self).cur_pos) + 1 <= u32::MAX,
        ensures
            final(self).same_source(old(self)),
            final(self).start_pos == old(self).start_pos,
            ({
                let m = match_at(old(self).src(), old(self).start_pos as int, old(self).line as int);
                &&& state.describes(m, old(self).start_pos as int)
                &&& final(self).cur_pos == m.end
                &&& final(self).line == m.line
                &&& final(self).cur_pos <= final(self).src().len()
            }),
    {
        let ghost s = self.src();
        let ghost pos = self.start_pos as int;
        proof {
            reveal(match_at);
            match_advances(s, pos, self.line as int);
        }
        let digit = ch >= '0' as u8 && ch <= '9' as u8;
        let letter = (ch >= 'a' as u8 && ch <= 'z' as u8) || (ch >= 'A' as u8 && ch <= 'Z' as u8)
            || ch == '_' as u8;
        if digit {
            self.read_run(true);
            MatchState::Matched(self.make_token(TokenType::Number))
        } else if letter {
            self.read_run(false);
            // what kind of word the lexeme is
            MatchState::Matched(self.keyword_or_ident(self.start_pos, self.cur_pos))
        } else if ch == '(' as u8 {
            MatchState::Matched(self.make_token(TokenType::LeftParen))
        } else if ch == ')' as u8 {
            MatchState::Matched(self.make_token(TokenType::RightParen))
        } else if ch == '{' as u8 {
            MatchState::Matched(self.make_token(TokenType::LeftBrace))
        } else if ch == '}' as u8 {
            MatchState::Matched(self.make_token(TokenType::RightBrace))
        } else if ch == ';' as u8 {
            MatchState::Matched(self.make_token(TokenType::Semicolon))
        } else if ch == ',' as u8 {
            MatchState::Matched(self.make_token(TokenType::Comma))
        } else if ch == '.' as u8 {
            MatchState::Matched(self.make_token(TokenType::Dot))
        } else if ch == '-' as u8 {
            MatchState::Matched(self.make_token(TokenType::Minus))
        } else if ch == '+' as u8 {
            MatchState::Matched(self.make_token(TokenType::Plus))
        } else if ch == '/' as u8 {
            if self.next_is('/' as u8) {
                self.skip_comment()
            } else {
                MatchState::Matched(self.make_token(TokenType::Slash))
            }
        } else if ch == '*' as u8 {
            MatchState::Matched(self.make_token(TokenType::Star))
        } else if ch == '!' as u8 {
            self.next_is_or('=' as u8, TokenType::BangEqual, TokenType::Bang)
        } else if ch == '=' as u8 {
            self.next_is_or('=' as u8, TokenType::EqualEqual, TokenType::Equal)
        } else if ch == '<' as u8 {
            self.next_is_or('=' as u8, TokenType::LessEqual, TokenType::Less)
        } else if ch == '>' as u8 {
            self.next_is_or('=' as u8, TokenType::GreaterEqual, TokenType::Greater)
        } else if ch == '"' as u8 {
            self.read_string()
        } else if ch == '\n' as u8 {
            MatchState::ScanNextLine
        } else if ch == ' ' as u8 || ch == '\t' as u8 {
            MatchState::ScanNext
        } else {
            MatchState::SyntaxError
        }
    }

    /// The token `match_ty`, with the next byte in it, where that byte is `ch`; the token
    /// `else_ty` where it is not.
    fn next_is_or(&mut self, ch: u8, match_ty: TokenType, else_ty: TokenType) -> (state: MatchState)
        requires
            old(self).wf(),
            old(self).start_pos == old(self).cur_pos - 1,
            match_ty != TokenType::String,
            else_ty != TokenType::String,
        ensures
            final(self).same_source(old(self)),
            final(self).start_pos == old(self).start_pos,
            final(self).line == old(self).line,
            ({
                let m = one_or_two(
                    old(self).src(),
                    old(self).start_pos as int,
                    old(self).line as int,
                    ch,
                    match_ty,
                    else_ty,
                );
                &&& state.describes(m, old(self).start_pos as int)
                &&& final(self).cur_pos == m.end
            }),
    {
        if self.next_is(ch) {
            self.move_to_next_char();
            MatchState::Matched(self.make_token(match_ty))
        } else {
            MatchState::Matched(self.make_token(else_ty))
        }
    }

    /// Reads a comment, from behind its first `/` up to the line feed.
    fn skip_comment(&mut self) -> (state: MatchState)
        requires
            old(self).wf(),
            old(self).start_pos == old(self).cur_pos - 1,
        ensures
            final(self).same_source(old(self)),
            final(self).start_pos == old(self).start_pos,
            final(self).line == old(self).line,
            final(self).cur_pos <= final(self).src().len(),
            ({
                let end = find_byte(old(self).src(), old(self).cur_pos as int, byte_of('\n'));
                &&& final(self).cur_pos == end
                &&& end >= old(self).src().len() ==> state == MatchState::Matched(
                    Token::spanning(
                        TokenType::EoF,
                        old(self).start_pos as int,
                        end,
                        old(self).line as int,
                    ),
                )
                &&& end < old(self).src().len() ==> state == MatchState::ScanNext
            }),
    {
        proof {
            reads_stay_inside(self.src(), self.cur_pos as int, byte_of('\n'), true);
        }
        while !self.next_is('\n' as u8)
            invariant
                self.wf(),
                self.same_source(old(self)),
                self.start_pos == old(self).start_pos,
                self.line == old(self).line,
                old(self).cur_pos <= self.cur_pos,
                find_byte(self.src(), self.cur_pos as int, byte_of('\n')) == find_byte(
                    old(self).src(),
                    old(self).cur_pos as int,
                    byte_of('\n'),
                ),
            decreases self.ascii_chars@.len() - self.cur_pos,
        {
            if self.move_to_next_char().is_none() {
                return MatchState::Matched(self.make_token(TokenType::EoF));
            }
        }
        MatchState::ScanNext
    }

    /// Reads a string, from behind its opening `"` to its closing one.
    fn read_string(&mut self) -> (state: MatchState)
        requires
            old(self).wf(),
            old(self).start_pos == old(self).cur_pos - 1,
        ensures
            final(self).same_source(old(self)),
            final(self).start_pos == old(self).start_pos,
            final(self).cur_pos <= final(self).src().len(),
            ({
                let s = old(self).src();
                let from = old(self).cur_pos as int;
                let close = find_byte(s, from, byte_of('"'));
                &&& close >= s.len() ==> state == MatchState::SyntaxError && final(self).cur_pos
                    == s.len() && final(self).line == old(self).line + count_byte(
                    s,
                    from,
                    s.len() as int,
                    byte_of('\n'),
                )
                &&& close < s.len() ==> final(self).cur_pos == close + 1 && final(self).line == old(
                    self,
                ).line + count_byte(s, from, close, byte_of('\n')) && state == MatchState::Matched(
                    Token::spanning(
                        TokenType::String,
                        old(self).start_pos as int,
                        close + 1,
                        final(self).line as int,
                    ),
                )
            }),
    {
        proof {
            reads_stay_inside(self.src(), self.cur_pos as int, byte_of('"'), true);
        }
        while !self.next_is('"' as u8)
            invariant
                self.wf(),
                self.same_source(old(self)),
                self.start_pos == old(self).start_pos,
                old(self).cur_pos <= self.cur_pos,
                self.line == old(self).line + count_byte(
                    self.src(),
                    old(self).cur_pos as int,
                    self.cur_pos as int,
                    byte_of('\n'),
                ),
                find_byte(self.src(), self.cur_pos as int, byte_of('"')) == find_byte(
                    old(self).src(),
                    old(self).cur_pos as int,
                    byte_of('"'),
                ),
            decreases self.ascii_chars@.len() - self.cur_pos,
        {
            match self.move_to_next_char() {
                None => {
                    return MatchState::SyntaxError;
                },
                Some(b) => {
                    if b == '\n' as u8 {
                        self.line += 1;
                    }
                },
            }
        }
        self.move_to_next_char();
        MatchState::Matched(self.make_token(TokenType::String))
    }

    fn move_to_next_char(&mut self) -> (next: Option<u8>)
        requires
            old(self).cur_pos <= old(self).ascii_chars@.len(),
        ensures
            final(self).same_source(old(self)),
            final(self).ascii_chars == old(self).ascii_chars,
            final(self).text == old(self).text,
            final(self).start_pos == old(self).start_pos,
            final(self).line == old(self).line,
            old(self).cur_pos < old(self).src().len() ==> next == Some(
                old(self).src()[old(self).cur_pos as int],
            ) && final(self).cur_pos == old(self).cur_pos + 1,
            old(self).cur_pos >= old(self).src().len() ==> next is None && final(self).cur_pos
                == old(self).cur_pos,
    {
        if self.cur_pos < self.ascii_chars.len() {
            let next = self.ascii_chars[self.cur_pos];
            self.cur_pos += 1;
            Some(next)
        } else {
            None
        }
    }

    fn peek(&self) -> (next: Option<u8>)
        requires
            self.cur_pos <= self.ascii_chars@.len(),
        ensures
            self.cur_pos < self.src().len() ==> next == Some(self.src()[self.cur_pos as int]),
            self.cur_pos >= self.src().len() ==> next is None,
    {
        if self.cur_pos < self.ascii_chars.len() {
            Some(self.ascii_chars[self.cur_pos])
        } else {
            None
        }
    }
}

/// The tokens from `pos` on, up to the end-of-file token, which is the last of them; the
/// scanner's error where one of them cannot be made.
pub open spec fn tokens_from(s: Seq<u8>, pos: int, line: int) -> Result<
    Seq<Token>,
    CompileErrorView,
>
    decreases s.len() - pos,
{
    let sc = scan(s, pos, line);
    if sc.ty == TokenType::Error {
        Err(syntax_error(text_of(s), no_token_message(), sc.start, sc.end))
    } else if sc.ty == TokenType::EoF || !(pos < sc.end <= s.len()) {
        Ok(seq![sc.token()])
    } else {
        match tokens_from(s, sc.end, sc.line) {
            Ok(rest) => Ok(seq![sc.token()] + rest),
            Err(e) => Err(e),
        }
    }
}

/// The tokens `done` and then those of `rest`.
pub open spec fn and_then(done: Seq<Token>, rest: Result<Seq<Token>, CompileErrorView>) -> Result<
    Seq<Token>,
    CompileErrorView,
> {
    match rest {
        Ok(more) => Ok(done + more),
        Err(e) => Err(e),
    }
}

/// All the tokens of `source`, up to the end-of-file token.
pub fn scan_all(source: &str) -> (res: COMPError<Vec<Token>>)
    requires
        source@.len() < u32::MAX,
    ensures
        !is_ascii(source) ==> res is Err && res->Err_0@ == CompileErrorView::NonASCIIChar,
        is_ascii(source) ==> (match tokens_from(bytes_of(source@), 0, 1) {
            Ok(tokens) => res is Ok && res->Ok_0@ == tokens,
            Err(e) => res is Err && res->Err_0@ == e,
        }),
{
    let mut scanner = Scanner::from_str(source)?;
    let ghost s = scanner.src();
    let mut tokens: Vec<Token> = Vec::new();
    proof {
        scanner.source_is_text();
        assert(Seq::<Token>::empty() + tokens_from(s, 0, 1)->Ok_0 =~= tokens_from(s, 0, 1)->Ok_0);
    }
    loop
        invariant
            is_ascii(source),
            scanner.wf(),
            scanner.src() == s,
            s == bytes_of(source@),
            scanner.text@ == text_of(s),
            and_then(tokens@, tokens_from(s, scanner.cur_pos as int, scanner.line as int))
                == tokens_from(s, 0, 1),
        decreases s.len() - scanner.cur_pos,
    {
        let ghost pos = scanner.cur_pos as int;
        let ghost line = scanner.line as int;
        let ghost done = tokens@;
        proof {
            scan_advances(s, pos, line);
        }
        let tok = scanner.scan_token()?;
        tokens.push(tok);
        proof {
            let sc = scan(s, pos, line);
            assert(tok.ty == sc.ty);
            assert(tokens@ =~= done + seq![sc.token()]);
        }
        if tok.ty == TokenType::EoF {
            return Ok(tokens);
        }
        proof {
            let sc = scan(s, pos, line);
            let rest = tokens_from(s, sc.end, sc.line);
            if rest is Ok {
                assert(done + (seq![sc.token()] + rest->Ok_0) =~= tokens@ + rest->Ok_0);
            }
        }
    }
}

} // verus!
