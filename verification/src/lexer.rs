//! The lexer: from source text to tokens.
//!
//! Blanks (space, tab, carriage return) separate tokens and are dropped, and
//! so is a comment, which runs from `//` to the end of its line. The line
//! break is a token of its own. The longest run of digits or of word
//! characters forms one token. The token sequence of a whole text ends with
//! exactly one end marker.

use vstd::prelude::*;
use vstd::string::StringExecFns;
use crate::error::{ErrorKind, GizmoError};
use crate::text::{characters, decimal, decimal_text, same_text, text_between};
use crate::token::{tokens_view, Token, TokenView};

verus! {

/// The classes of characters of which runs are read.
#[derive(Clone, Copy, Debug, PartialEq, Eq, Structural)]
pub enum CharClass {
    /// Space, tab and carriage return.
    Blank,
    /// The decimal digits.
    Digit,
    /// Letters, digits and the underscore.
    Word,
    /// Everything but the line feed.
    WithinLine,
}

/// Whether `c` is a decimal digit.
pub open spec fn is_digit(c: char) -> bool {
    '0' <= c <= '9'
}

/// Whether `c` is a letter of the basic Latin alphabet.
pub open spec fn is_letter(c: char) -> bool {
    'a' <= c <= 'z' || 'A' <= c <= 'Z'
}

/// Whether `c` belongs to `class`.
pub open spec fn member(class: CharClass, c: char) -> bool {
    match class {
        CharClass::Blank => c == ' ' || c == '\r' || c == '\t',
        CharClass::Digit => is_digit(c),
        CharClass::Word => is_letter(c) || is_digit(c) || c == '_',
        CharClass::WithinLine => c != '\n',
    }
}

/// Where the run of characters of `class` that starts at `pos` ends: the
/// first position from `pos` on that holds no character of the class.
pub open spec fn run_end(s: Seq<char>, pos: int, class: CharClass) -> int
    decreases s.len() - pos,
{
    if 0 <= pos < s.len() && member(class, s[pos]) {
        run_end(s, pos + 1, class)
    } else {
        pos
    }
}

/// A run ends at or after its start and within the text; all of it is of
/// the class, and what follows it is not.
pub proof fn lemma_run_end(s: Seq<char>, pos: int, class: CharClass)
    requires
        0 <= pos <= s.len(),
    ensures
        pos <= run_end(s, pos, class) <= s.len(),
        forall|i: int| pos <= i < run_end(s, pos, class) ==> member(class, #[trigger] s[i]),
        run_end(s, pos, class) < s.len() ==> !member(class, s[run_end(s, pos, class)]),
        run_end(s, run_end(s, pos, class), class) == run_end(s, pos, class),
    decreases s.len() - pos,
{
    if pos < s.len() && member(class, s[pos]) {
        lemma_run_end(s, pos + 1, class);
    }
}

/// Why a text is not a token sequence.
#[derive(Clone, Copy, Debug, PartialEq, Eq, Structural)]
pub enum LexFailure {
    /// A character that starts no token.
    UnexpectedCharacter,
    /// A backslash in a string that is followed by none of `n t r \ "`.
    InvalidEscape,
    /// A string that is still open where the text ends.
    UnterminatedString,
}

/// What is read at a position: a token and the position after it, or
/// a failure and the position of its cause.
pub enum Scan {
    Token { token: TokenView, next: int },
    Failure { kind: LexFailure, at: int },
}

/// The character that an escape letter stands for.
pub open spec fn escaped(c: char) -> Option<char> {
    if c == 'n' {
        Some('\n')
    } else if c == 't' {
        Some('\t')
    } else if c == 'r' {
        Some('\r')
    } else if c == '\\' {
        Some('\\')
    } else if c == '"' {
        Some('"')
    } else {
        None
    }
}

/// The rest of a string literal that was opened at `start`, read from `pos`
/// on, with `acc` read so far.
pub open spec fn string_scan(s: Seq<char>, start: int, pos: int, acc: Seq<char>) -> Scan
    decreases s.len() - pos,
{
    if pos < 0 || pos >= s.len() {
        Scan::Failure { kind: LexFailure::UnterminatedString, at: start }
    } else if s[pos] == '"' {
        Scan::Token { token: TokenView::String(acc), next: pos + 1 }
    } else if s[pos] == '\\' {
        if pos + 1 >= s.len() {
            Scan::Failure { kind: LexFailure::UnterminatedString, at: start }
        } else {
            match escaped(s[pos + 1]) {
                Some(c) => string_scan(s, start, pos + 2, acc.push(c)),
                None => Scan::Failure { kind: LexFailure::InvalidEscape, at: pos + 1 },
            }
        }
    } else {
        string_scan(s, start, pos + 1, acc.push(s[pos]))
    }
}

/// Where the numeral that starts at `p` ends: after its digits and, where a
/// point and a digit follow them, after the digits behind the point.
pub open spec fn numeral_end(s: Seq<char>, p: int) -> int {
    let e = run_end(s, p, CharClass::Digit);
    if e + 1 < s.len() && s[e] == '.' && is_digit(s[e + 1]) {
        run_end(s, e + 1, CharClass::Digit)
    } else {
        e
    }
}

/// The token that one or two characters of punctuation at `p` form.
pub open spec fn punctuation(s: Seq<char>, p: int) -> Option<Scan> {
    let c = s[p];
    let followed_by_equal = p + 1 < s.len() && s[p + 1] == '=';
    if c == '\n' {
        Some(Scan::Token { token: TokenView::Newline, next: p + 1 })
    } else if c == '(' {
        Some(Scan::Token { token: TokenView::LeftParen, next: p + 1 })
    } else if c == ')' {
        Some(Scan::Token { token: TokenView::RightParen, next: p + 1 })
    } else if c == '[' {
        Some(Scan::Token { token: TokenView::LeftBracket, next: p + 1 })
    } else if c == ']' {
        Some(Scan::Token { token: TokenView::RightBracket, next: p + 1 })
    } else if c == '{' {
        Some(Scan::Token { token: TokenView::LeftBrace, next: p + 1 })
    } else if c == '}' {
        Some(Scan::Token { token: TokenView::RightBrace, next: p + 1 })
    } else if c == ',' {
        Some(Scan::Token { token: TokenView::Comma, next: p + 1 })
    } else if c == ';' {
        Some(Scan::Token { token: TokenView::Semicolon, next: p + 1 })
    } else if c == ':' {
        Some(Scan::Token { token: TokenView::Colon, next: p + 1 })
    } else if c == '?' {
        Some(Scan::Token { token: TokenView::Question, next: p + 1 })
    } else if c == '+' {
        Some(Scan::Token { token: TokenView::Plus, next: p + 1 })
    } else if c == '-' {
        Some(Scan::Token { token: TokenView::Minus, next: p + 1 })
    } else if c == '*' {
        Some(Scan::Token { token: TokenView::Star, next: p + 1 })
    } else if c == '/' {
        Some(Scan::Token { token: TokenView::Slash, next: p + 1 })
    } else if c == '%' {
        Some(Scan::Token { token: TokenView::Percent, next: p + 1 })
    } else if c == '^' {
        Some(Scan::Token { token: TokenView::Caret, next: p + 1 })
    } else if c == '=' {
        if followed_by_equal {
            Some(Scan::Token { token: TokenView::EqualEqual, next: p + 2 })
        } else {
            Some(Scan::Token { token: TokenView::Equal, next: p + 1 })
        }
    } else if c == '!' {
        if followed_by_equal {
            Some(Scan::Token { token: TokenView::NotEqual, next: p + 2 })
        } else {
            Some(Scan::Failure { kind: LexFailure::UnexpectedCharacter, at: p })
        }
    } else if c == '<' {
        if followed_by_equal {
            Some(Scan::Token { token: TokenView::LessEqual, next: p + 2 })
        } else {
            Some(Scan::Token { token: TokenView::Less, next: p + 1 })
        }
    } else if c == '>' {
        if followed_by_equal {
            Some(Scan::Token { token: TokenView::GreaterEqual, next: p + 2 })
        } else {
            Some(Scan::Token { token: TokenView::Greater, next: p + 1 })
        }
    } else {
        None
    }
}

/// Whether a comment starts at `p`.
pub open spec fn comment_at(s: Seq<char>, p: int) -> bool {
    0 <= p && p + 1 < s.len() && s[p] == '/' && s[p + 1] == '/'
}

/// The token that starts at `p`, where `p` holds no blank and no comment
/// starts.
pub open spec fn token_at(s: Seq<char>, p: int) -> Scan {
    if p < 0 || p >= s.len() {
        Scan::Token { token: TokenView::Eof, next: p }
    } else if s[p] == '"' {
        string_scan(s, p, p + 1, Seq::empty())
    } else if is_digit(s[p]) {
        Scan::Token {
            token: TokenView::Number(s.subrange(p, numeral_end(s, p))),
            next: numeral_end(s, p),
        }
    } else if is_letter(s[p]) || s[p] == '_' {
        Scan::Token {
            token: TokenView::of_word(s.subrange(p, run_end(s, p, CharClass::Word))),
            next: run_end(s, p, CharClass::Word),
        }
    } else {
        match punctuation(s, p) {
            Some(scan) => scan,
            None => Scan::Failure { kind: LexFailure::UnexpectedCharacter, at: p },
        }
    }
}

/// Where the next token starts, from `pos` on: behind all blanks and
/// comments.
pub open spec fn token_start(s: Seq<char>, pos: int) -> int
    decreases s.len() - pos,
{
    let p = run_end(s, pos, CharClass::Blank);
    if comment_at(s, p) {
        let q = run_end(s, p + 2, CharClass::WithinLine);
        if pos < q <= s.len() {
            token_start(s, q)
        } else {
            p
        }
    } else {
        p
    }
}

/// Whether reading from `start` has come to `p` by skipping whole comments
/// up to `from` and the blanks behind them.
spec fn resumes(s: Seq<char>, start: int, from: int, p: int) -> bool {
    start <= from <= p && token_start(s, start) == token_start(s, from) && p == run_end(
        s,
        from,
        CharClass::Blank,
    )
}

/// The next token from `pos` on.
pub open spec fn scan_token(s: Seq<char>, pos: int) -> Scan {
    token_at(s, token_start(s, pos))
}

/// The result of lexing: all tokens, or the first failure.
pub enum LexOutcome {
    Tokens(Seq<TokenView>),
    Failure { kind: LexFailure, at: int },
}

/// The tokens of the text from `pos` on, behind those in `acc`.
pub open spec fn scan_from(s: Seq<char>, pos: int, acc: Seq<TokenView>) -> LexOutcome
    decreases s.len() - pos,
{
    match scan_token(s, pos) {
        Scan::Failure { kind, at } => LexOutcome::Failure { kind, at },
        Scan::Token { token, next } => if token is Eof || !(pos < next <= s.len()) {
            LexOutcome::Tokens(acc.push(TokenView::Eof))
        } else {
            scan_from(s, next, acc.push(token))
        },
    }
}

/// The tokens of a whole text.
pub open spec fn lex(s: Seq<char>) -> LexOutcome {
    scan_from(s, 0, Seq::empty())
}

/// Where the next token starts lies at or behind `pos` and within the text.
pub proof fn lemma_token_start(s: Seq<char>, pos: int)
    requires
        0 <= pos <= s.len(),
    ensures
        pos <= token_start(s, pos) <= s.len(),
    decreases s.len() - pos,
{
    lemma_run_end(s, pos, CharClass::Blank);
    let p = run_end(s, pos, CharClass::Blank);
    if comment_at(s, p) {
        lemma_run_end(s, p + 2, CharClass::WithinLine);
        let q = run_end(s, p + 2, CharClass::WithinLine);
        if pos < q <= s.len() {
            lemma_token_start(s, q);
        }
    }
}

/// A string literal that is read ends behind where its reading started.
pub proof fn lemma_string_scan(s: Seq<char>, start: int, pos: int, acc: Seq<char>)
    requires
        0 <= pos,
    ensures
        string_scan(s, start, pos, acc) matches Scan::Token { token, next } ==> pos < next <= s.len()
            && !(token is Eof),
    decreases s.len() - pos,
{
    if pos < s.len() && s[pos] != '"' {
        if s[pos] == '\\' {
            if pos + 1 < s.len() && escaped(s[pos + 1]) is Some {
                lemma_string_scan(s, start, pos + 2, acc.push(escaped(s[pos + 1])->0));
            }
        } else {
            lemma_string_scan(s, start, pos + 1, acc.push(s[pos]));
        }
    }
}

/// Every token but the end marker takes up at least one character, and no
/// token ends beyond the text.
pub proof fn lemma_token_advances(s: Seq<char>, pos: int)
    requires
        0 <= pos <= s.len(),
    ensures
        scan_token(s, pos) matches Scan::Token { token, next } ==> pos <= next <= s.len() && (
        token is Eof || pos < next),
{
    lemma_token_start(s, pos);
    let p = token_start(s, pos);
    if p < s.len() {
        lemma_string_scan(s, p, p + 1, Seq::empty());
        lemma_run_end(s, p, CharClass::Digit);
        lemma_run_end(s, p + 1, CharClass::Digit);
        lemma_run_end(s, p, CharClass::Word);
        lemma_run_end(s, p + 1, CharClass::Word);
        let e = run_end(s, p, CharClass::Digit);
        if e + 1 < s.len() {
            lemma_run_end(s, e + 1, CharClass::Digit);
        }
        assert(TokenView::keyword(s.subrange(p, run_end(s, p, CharClass::Word))) matches Some(t)
            ==> !(t is Eof));
    }
}

/// The number of line feeds before `pos`.
pub open spec fn newlines_before(s: Seq<char>, pos: int) -> nat
    decreases pos,
{
    if pos <= 0 {
        0
    } else {
        newlines_before(s, pos - 1) + if s[pos - 1] == '\n' {
            1nat
        } else {
            0nat
        }
    }
}

/// The line of position `pos`, counted from 1.
pub open spec fn line_of(s: Seq<char>, pos: int) -> nat {
    newlines_before(s, pos) + 1
}

/// The column of position `pos` in its line, counted from 1.
pub open spec fn column_of(s: Seq<char>, pos: int) -> nat
    decreases pos,
{
    if pos <= 0 || s[pos - 1] == '\n' {
        1
    } else {
        column_of(s, pos - 1) + 1
    }
}

/// " at line L, column C" for position `pos`.
pub open spec fn place(s: Seq<char>, pos: int) -> Seq<char> {
    " at line "@ + decimal(line_of(s, pos)) + ", column "@ + decimal(column_of(s, pos))
}

/// The message of a lex failure.
pub open spec fn failure_message(s: Seq<char>, kind: LexFailure, at: int) -> Seq<char> {
    match kind {
        LexFailure::UnexpectedCharacter => "Unexpected character '"@ + seq![s[at]] + "'"@ + place(
            s,
            at,
        ),
        LexFailure::InvalidEscape => "Invalid escape sequence '\\"@ + seq![s[at]] + "'"@ + place(
            s,
            at,
        ),
        LexFailure::UnterminatedString => "Unterminated string"@ + place(s, at),
    }
}

/// Whether `r` is what `scan` says.
pub open spec fn agrees(s: Seq<char>, scan: Scan, r: Result<Token, GizmoError>) -> bool {
    match scan {
        Scan::Token { token, next } => r is Ok && r->Ok_0@ == token,
        Scan::Failure { kind, at } => r is Err && r->Err_0.kind() == ErrorKind::Lex
            && r->Err_0.detail() == failure_message(s, kind, at),
    }
}

/// Whether `r` is what `outcome` says.
pub open spec fn lexed(s: Seq<char>, outcome: LexOutcome, r: Result<Vec<Token>, GizmoError>) -> bool {
    match outcome {
        LexOutcome::Tokens(ts) => r is Ok && tokens_view(r->Ok_0@) == ts,
        LexOutcome::Failure { kind, at } => r is Err && r->Err_0.kind() == ErrorKind::Lex
            && r->Err_0.detail() == failure_message(s, kind, at),
    }
}

/// Lexing is a function of the text: two results for the same text are
/// both token sequences with the same views, or both the same error.
pub proof fn law_lexing_is_deterministic(
    s: Seq<char>,
    first: Result<Vec<Token>, GizmoError>,
    second: Result<Vec<Token>, GizmoError>,
)
    requires
        lexed(s, lex(s), first),
        lexed(s, lex(s), second),
    ensures
        first is Ok <==> second is Ok,
        first is Ok ==> tokens_view(first->Ok_0@) == tokens_view(second->Ok_0@),
        first is Err ==> first->Err_0.kind() == second->Err_0.kind() && first->Err_0.detail()
            == second->Err_0.detail(),
{
}

/// Whether no token of the sequence is the end marker.
pub open spec fn no_end_marker(ts: Seq<TokenView>) -> bool {
    forall|i: int| 0 <= i < ts.len() ==> !((#[trigger] ts[i]) is Eof)
}

/// A token sequence that lexing gives ends with the end marker and holds
/// no other.
pub proof fn law_one_end_marker(s: Seq<char>, pos: int, acc: Seq<TokenView>)
    requires
        no_end_marker(acc),
    ensures
        scan_from(s, pos, acc) matches LexOutcome::Tokens(ts) ==> ts.len() > 0 && ts.last() is Eof
            && no_end_marker(ts.drop_last()),
    decreases s.len() - pos,
{
    match scan_token(s, pos) {
        Scan::Failure { kind, at } => {},
        Scan::Token { token, next } => {
            if token is Eof || !(pos < next <= s.len()) {
                assert(acc.push(TokenView::Eof).drop_last() =~= acc);
            } else {
                let longer = acc.push(token);
                assert forall|i: int| 0 <= i < longer.len() implies !((#[trigger] longer[i]) is Eof) by {
                    if i < acc.len() {
                        assert(longer[i] == acc[i]);
                    }
                }
                law_one_end_marker(s, next, longer);
            }
        },
    }
}

fn in_class(class: CharClass, c: char) -> (b: bool)
    ensures
        b == member(class, c),
{
    match class {
        CharClass::Blank => c == ' ' || c == '\r' || c == '\t',
        CharClass::Digit => '0' <= c && c <= '9',
        CharClass::Word => ('a' <= c && c <= 'z') || ('A' <= c && c <= 'Z') || ('0' <= c && c <= '9')
            || c == '_',
        CharClass::WithinLine => c != '\n',
    }
}

/// A lexer over one source text.
pub struct Lexer {
    input: Vec<char>,
    position: usize,
}

impl Lexer {
    /// The text being read.
    pub closed spec fn source(&self) -> Seq<char> {
        self.input@
    }

    /// The position of the next character to read.
    pub closed spec fn offset(&self) -> int {
        self.position as int
    }

    /// The position lies within the text or at its end.
    pub closed spec fn wf(&self) -> bool {
        self.position <= self.input@.len()
    }

    /// A lexer at the start of `input`.
    pub fn new(input: &str) -> (l: Lexer)
        ensures
            l.wf(),
            l.source() == input@,
            l.offset() == 0,
    {
        Lexer { input: characters(input), position: 0 }
    }

    /// Whether all of the text has been read.
    pub fn is_at_end(&self) -> (b: bool)
        ensures
            b == (self.offset() >= self.source().len()),
    {
        self.position >= self.input.len()
    }

    /// The next character, without reading it; the null character at the
    /// end of the text.
    pub fn peek(&self) -> (c: char)
        ensures
            c == (if self.offset() < self.source().len() {
                self.source()[self.offset()]
            } else {
                '\0'
            }),
    {
        if self.position < self.input.len() {
            self.input[self.position]
        } else {
            '\0'
        }
    }

    /// The character after the next one, without reading it; the null
    /// character where there is none.
    pub fn peek_next(&self) -> (c: char)
        ensures
            c == (if self.offset() + 1 < self.source().len() {
                self.source()[self.offset() + 1]
            } else {
                '\0'
            }),
    {
        if self.position < self.input.len() && self.position + 1 < self.input.len() {
            self.input[self.position + 1]
        } else {
            '\0'
        }
    }

    /// Reads the next character; at the end of the text nothing is read and
    /// the null character is returned.
    pub fn advance(&mut self) -> (c: char)
        requires
            old(self).wf(),
        ensures
            final(self).wf(),
            final(self).source() == old(self).source(),
            old(self).offset() < old(self).source().len() ==> c == old(self).source()[old(
                self,
            ).offset()] && final(self).offset() == old(self).offset() + 1,
            old(self).offset() >= old(self).source().len() ==> c == '\0' && final(self).offset()
                == old(self).offset(),
    {
        if self.position < self.input.len() {
            let c = self.input[self.position];
            self.position = self.position + 1;
            c
        } else {
            '\0'
        }
    }

    /// Reads on to the end of the run of characters of `class`.
    fn skip_run(&mut self, class: CharClass)
        requires
            old(self).wf(),
        ensures
            final(self).wf(),
            final(self).input == old(self).input,
            final(self).position == run_end(old(self).input@, old(self).position as int, class),
    {
        let ghost start = self.position as int;
        while self.position < self.input.len() && in_class(class, self.input[self.position])
            invariant
                self.wf(),
                self.input == old(self).input,
                start <= self.position,
                run_end(self.input@, start, class) == run_end(
                    self.input@,
                    self.position as int,
                    class,
                ),
            decreases self.input@.len() - self.position,
        {
            self.position = self.position + 1;
        }
    }

    /// Reads past blanks: spaces, tabs and carriage returns.
    pub fn skip_whitespace(&mut self)
        requires
            old(self).wf(),
        ensures
            final(self).wf(),
            final(self).source() == old(self).source(),
            final(self).offset() == run_end(old(self).source(), old(self).offset(), CharClass::Blank),
    {
        self.skip_run(CharClass::Blank);
    }

    /// Reads past blanks and comments, to where the next token starts.
    fn skip_to_token(&mut self)
        requires
            old(self).wf(),
        ensures
            final(self).wf(),
            final(self).input == old(self).input,
            final(self).position == token_start(old(self).input@, old(self).position as int),
    {
        let ghost s = self.input@;
        let ghost start = self.position as int;
        self.skip_run(CharClass::Blank);
        proof {
            lemma_run_end(s, start, CharClass::Blank);
        }
        assert(resumes(s, start, start, self.position as int));
        while self.input.len() - self.position >= 2 && self.input[self.position] == '/'
            && self.input[self.position + 1] == '/'
            invariant
                self.wf(),
                self.input == old(self).input,
                s == self.input@,
                start == old(self).position,
                exists|from: int| resumes(s, start, from, self.position as int),
            decreases self.input@.len() - self.position,
        {
            let ghost p = self.position as int;
            let ghost from = choose|from: int| resumes(s, start, from, p);
            self.position = self.position + 2;
            self.skip_run(CharClass::WithinLine);
            let ghost q = self.position as int;
            proof {
                lemma_run_end(s, p + 2, CharClass::WithinLine);
                assert(comment_at(s, p));
                assert(token_start(s, from) == token_start(s, q));
            }
            self.skip_run(CharClass::Blank);
            proof {
                lemma_run_end(s, q, CharClass::Blank);
                assert(resumes(s, start, q, self.position as int));
            }
        }
        proof {
            let p = self.position as int;
            let from = choose|from: int| resumes(s, start, from, p);
            assert(!comment_at(s, p));
        }
    }

    /// The line and the column of `pos`, as text.
    fn place_text(&self, pos: usize) -> (t: String)
        requires
            pos < self.input@.len(),
        ensures
            t@ == place(self.input@, pos as int),
    {
        let mut line: usize = 1;
        let mut column: usize = 1;
        let mut i: usize = 0;
        let length = self.input.len();
        while i < pos
            invariant
                i <= pos < self.input@.len(),
                self.input@.len() == length,
                line == line_of(self.input@, i as int),
                column == column_of(self.input@, i as int),
                line <= i + 1,
                column <= i + 1,
            decreases pos - i,
        {
            if self.input[i] == '\n' {
                line = line + 1;
                column = 1;
            } else {
                column = column + 1;
            }
            i = i + 1;
        }
        let mut t = String::from_str(" at line ");
        t.append(decimal_text(line as u64).as_str());
        t.append(", column ");
        t.append(decimal_text(column as u64).as_str());
        t
    }

    /// The failure of the given kind at `at`.
    fn failure(&self, kind: LexFailure, at: usize) -> (e: GizmoError)
        requires
            at < self.input@.len(),
        ensures
            e.kind() == ErrorKind::Lex,
            e.detail() == failure_message(self.input@, kind, at as int),
    {
        let mut msg = match kind {
            LexFailure::UnexpectedCharacter => {
                let mut m = String::from_str("Unexpected character '");
                m.push(self.input[at]);
                m.append("'");
                m
            },
            LexFailure::InvalidEscape => {
                let mut m = String::from_str("Invalid escape sequence '\\");
                m.push(self.input[at]);
                m.append("'");
                m
            },
            LexFailure::UnterminatedString => String::from_str("Unterminated string"),
        };
        proof {
            let s = self.input@;
            match kind {
                LexFailure::UnexpectedCharacter => {
                    assert(msg@ =~= "Unexpected character '"@ + seq![s[at as int]] + "'"@);
                },
                LexFailure::InvalidEscape => {
                    assert(msg@ =~= "Invalid escape sequence '\\"@ + seq![s[at as int]] + "'"@);
                },
                LexFailure::UnterminatedString => {},
            }
        }
        msg.append(self.place_text(at).as_str());
        GizmoError::LexError(msg)
    }

    /// Reads a string literal whose opening quote, at `start`, was read.
    fn string_literal(&mut self, start: usize) -> (r: Result<Token, GizmoError>)
        requires
            old(self).wf(),
            start < old(self).input@.len(),
            old(self).position == start + 1,
        ensures
            final(self).wf(),
            final(self).input == old(self).input,
            agrees(
                old(self).input@,
                string_scan(old(self).input@, start as int, start + 1, Seq::empty()),
                r,
            ),
            string_scan(old(self).input@, start as int, start + 1, Seq::empty()) matches Scan::Token {
                next,
                ..
            } ==> final(self).position == next,
    {
        let ghost s = self.input@;
        let mut value = String::new();
        while self.position < self.input.len() && self.input[self.position] != '"'
            invariant
                self.wf(),
                self.input == old(self).input,
                s == self.input@,
                start < s.len(),
                start < self.position,
                string_scan(s, start as int, start + 1, Seq::empty()) == string_scan(
                    s,
                    start as int,
                    self.position as int,
                    value@,
                ),
            decreases s.len() - self.position,
        {
            let c = self.input[self.position];
            if c == '\\' {
                if self.position + 1 >= self.input.len() {
                    return Err(self.failure(LexFailure::UnterminatedString, start));
                }
                let e = self.input[self.position + 1];
                let resolved = if e == 'n' {
                    '\n'
                } else if e == 't' {
                    '\t'
                } else if e == 'r' {
                    '\r'
                } else if e == '\\' {
                    '\\'
                } else if e == '"' {
                    '"'
                } else {
                    return Err(self.failure(LexFailure::InvalidEscape, self.position + 1));
                };
                value.push(resolved);
                self.position = self.position + 2;
            } else {
                value.push(c);
                self.position = self.position + 1;
            }
        }
        if self.position >= self.input.len() {
            return Err(self.failure(LexFailure::UnterminatedString, start));
        }
        self.position = self.position + 1;
        Ok(Token::String(value))
    }

    /// Reads a numeral that starts at the current position.
    fn number_literal(&mut self) -> (r: Result<Token, GizmoError>)
        requires
            old(self).wf(),
            old(self).position < old(self).input@.len(),
            is_digit(old(self).input@[old(self).position as int]),
        ensures
            final(self).wf(),
            final(self).input == old(self).input,
            final(self).position == numeral_end(old(self).input@, old(self).position as int),
            r is Ok,
            r->Ok_0@ == TokenView::Number(
                old(self).input@.subrange(
                    old(self).position as int,
                    numeral_end(old(self).input@, old(self).position as int),
                ),
            ),
    {
        let start = self.position;
        self.skip_run(CharClass::Digit);
        proof {
            lemma_run_end(self.input@, start as int, CharClass::Digit);
        }
        if self.input.len() - self.position >= 2 && self.input[self.position] == '.' && in_class(
            CharClass::Digit,
            self.input[self.position + 1],
        ) {
            let ghost e = self.position as int;
            self.position = self.position + 1;
            self.skip_run(CharClass::Digit);
            proof {
                lemma_run_end(self.input@, e + 1, CharClass::Digit);
            }
        }
        Ok(Token::Number(text_between(&self.input, start, self.position)))
    }

    /// Reads a word that starts at the current position: a keyword or an
    /// identifier.
    fn identifier_or_keyword(&mut self) -> (r: Result<Token, GizmoError>)
        requires
            old(self).wf(),
            old(self).position < old(self).input@.len(),
        ensures
            final(self).wf(),
            final(self).input == old(self).input,
            final(self).position == run_end(
                old(self).input@,
                old(self).position as int,
                CharClass::Word,
            ),
            r is Ok,
            r->Ok_0@ == TokenView::of_word(
                old(self).input@.subrange(
                    old(self).position as int,
                    run_end(old(self).input@, old(self).position as int, CharClass::Word),
                ),
            ),
    {
        let start = self.position;
        self.skip_run(CharClass::Word);
        proof {
            lemma_run_end(self.input@, start as int, CharClass::Word);
        }
        let word = text_between(&self.input, start, self.position);
        Ok(keyword_or_identifier(word))
    }

    /// Reads the next token.
    pub fn next_token(&mut self) -> (r: Result<Token, GizmoError>)
        requires
            old(self).wf(),
        ensures
            final(self).wf(),
            final(self).source() == old(self).source(),
            agrees(old(self).source(), scan_token(old(self).source(), old(self).offset()), r),
            scan_token(old(self).source(), old(self).offset()) matches Scan::Token { next, .. }
                ==> final(self).offset() == next,
    {
        self.skip_to_token();
        if self.position >= self.input.len() {
            return Ok(Token::Eof);
        }
        let p = self.position;
        let c = self.input[p];
        if c == '"' {
            self.position = p + 1;
            return self.string_literal(p);
        }
        if in_class(CharClass::Digit, c) {
            return self.number_literal();
        }
        if in_class(CharClass::Word, c) {
            return self.identifier_or_keyword();
        }
        let followed_by_equal = p + 1 < self.input.len() && self.input[p + 1] == '=';
        let (token, width): (Token, usize) = if c == '\n' {
            (Token::Newline, 1)
        } else if c == '(' {
            (Token::LeftParen, 1)
        } else if c == ')' {
            (Token::RightParen, 1)
        } else if c == '[' {
            (Token::LeftBracket, 1)
        } else if c == ']' {
            (Token::RightBracket, 1)
        } else if c == '{' {
            (Token::LeftBrace, 1)
        } else if c == '}' {
            (Token::RightBrace, 1)
        } else if c == ',' {
            (Token::Comma, 1)
        } else if c == ';' {
            (Token::Semicolon, 1)
        } else if c == ':' {
            (Token::Colon, 1)
        } else if c == '?' {
            (Token::Question, 1)
        } else if c == '+' {
            (Token::Plus, 1)
        } else if c == '-' {
            (Token::Minus, 1)
        } else if c == '*' {
            (Token::Star, 1)
        } else if c == '/' {
            (Token::Slash, 1)
        } else if c == '%' {
            (Token::Percent, 1)
        } else if c == '^' {
            (Token::Caret, 1)
        } else if c == '=' {
            if followed_by_equal {
                (Token::EqualEqual, 2)
            } else {
                (Token::Equal, 1)
            }
        } else if c == '!' && followed_by_equal {
            (Token::NotEqual, 2)
        } else if c == '<' {
            if followed_by_equal {
                (Token::LessEqual, 2)
            } else {
                (Token::Less, 1)
            }
        } else if c == '>' {
            if followed_by_equal {
                (Token::GreaterEqual, 2)
            } else {
                (Token::Greater, 1)
            }
        } else {
            return Err(self.failure(LexFailure::UnexpectedCharacter, p));
        };
        self.position = p + width;
        Ok(token)
    }

    /// Reads all remaining tokens. The result ends with the end marker, and
    /// holds no other.
    pub fn tokenize(&mut self) -> (r: Result<Vec<Token>, GizmoError>)
        requires
            old(self).wf(),
        ensures
            final(self).wf(),
            final(self).source() == old(self).source(),
            lexed(
                old(self).source(),
                scan_from(old(self).source(), old(self).offset(), Seq::empty()),
                r,
            ),
            old(self).offset() == 0 ==> lexed(old(self).source(), lex(old(self).source()), r),
    {
        let ghost s = self.input@;
        let ghost start = self.position as int;
        let mut tokens: Vec<Token> = Vec::new();
        assert(tokens_view(tokens@) =~= Seq::<TokenView>::empty());
        loop
            invariant
                self.wf(),
                s == self.input@,
                s == old(self).input@,
                start == old(self).position,
                scan_from(s, start, Seq::empty()) == scan_from(
                    s,
                    self.position as int,
                    tokens_view(tokens@),
                ),
            decreases s.len() - self.position,
        {
            let ghost before = tokens_view(tokens@);
            proof {
                lemma_token_advances(s, self.position as int);
            }
            let token = self.next_token()?;
            let done = match &token {
                Token::Eof => true,
                _ => false,
            };
            if done {
                tokens.push(Token::Eof);
                assert(tokens_view(tokens@) =~= before.push(TokenView::Eof));
                return Ok(tokens);
            }
            tokens.push(token);
            assert(tokens_view(tokens@) =~= before.push(token@));
        }
    }
}

/// The token that a word is: its keyword, or else an identifier.
fn keyword_or_identifier(word: String) -> (t: Token)
    ensures
        t@ == TokenView::of_word(word@),
{
    let w = word.as_str();
    if same_text(w, "frame") {
        Token::Frame
    } else if same_text(w, "frames") {
        Token::Frames
    } else if same_text(w, "num") {
        Token::Num
    } else if same_text(w, "text") {
        Token::Text
    } else if same_text(w, "pattern") {
        Token::Pattern
    } else if same_text(w, "animate") {
        Token::Animate
    } else if same_text(w, "evolve") {
        Token::Evolve
    } else if same_text(w, "using") {
        Token::Using
    } else if same_text(w, "from") {
        Token::From
    } else if same_text(w, "if") {
        Token::If
    } else if same_text(w, "then") {
        Token::Then
    } else if same_text(w, "elsif") {
        Token::Elsif
    } else if same_text(w, "else") {
        Token::Else
    } else if same_text(w, "end") {
        Token::End
    } else if same_text(w, "repeat") {
        Token::Repeat
    } else if same_text(w, "do") {
        Token::Do
    } else if same_text(w, "times") {
        Token::Times
    } else if same_text(w, "when") {
        Token::When
    } else if same_text(w, "clicked") {
        Token::Clicked
    } else if same_text(w, "idle") {
        Token::Idle
    } else if same_text(w, "return") {
        Token::Return
    } else if same_text(w, "and") {
        Token::And
    } else if same_text(w, "or") {
        Token::Or
    } else if same_text(w, "not") {
        Token::Not
    } else {
        Token::Identifier(word)
    }
}

} // verus!
