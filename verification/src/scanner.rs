//! The scanner: turns the characters of a source into tokens.
use vstd::prelude::*;
use vstd::slice::slice_subrange;
use crate::error::{ScanError, ScanErrorView, EXIT_SCAN_ERROR};
use crate::text::{
    chars_of, is_alphabetic, is_alphanumeric, is_numeric, string_of, unicode_alphabetic,
    unicode_numeric,
};
use crate::token::{spec_keyword, Token, TokenType, TokenView};

verus! {

// ---------------------------------------------------------------------------
// What scanning computes
// ---------------------------------------------------------------------------

/// The character at `i`, or `'\0'` past either end.
pub open spec fn peek_at(src: Seq<char>, i: int) -> char {
    if 0 <= i < src.len() {
        src[i]
    } else {
        '\0'
    }
}

/// Whether `c` may continue a word.
pub open spec fn is_word_char(c: char) -> bool {
    unicode_alphabetic(c) || unicode_numeric(c) || c == '_'
}

/// The end of the run of word characters that starts at `i`.
pub open spec fn word_end(src: Seq<char>, i: int) -> int
    decreases src.len() - i,
{
    if 0 <= i < src.len() && is_word_char(src[i]) {
        word_end(src, i + 1)
    } else {
        i
    }
}

/// The end of the run of numeric characters that starts at `i`.
pub open spec fn digits_end(src: Seq<char>, i: int) -> int
    decreases src.len() - i,
{
    if 0 <= i < src.len() && unicode_numeric(src[i]) {
        digits_end(src, i + 1)
    } else {
        i
    }
}

/// The end of a number that starts at `start`: digits, then, where a digit
/// follows a `.`, the `.` and the digits after it.
pub open spec fn number_end(src: Seq<char>, start: int) -> int {
    let e = digits_end(src, start + 1);
    if peek_at(src, e) == '.' && unicode_numeric(peek_at(src, e + 1)) {
        digits_end(src, e + 1)
    } else {
        e
    }
}

/// The position of the first `"` at or after `i`, or the end of the source.
pub open spec fn string_end(src: Seq<char>, i: int) -> int
    decreases src.len() - i,
{
    if 0 <= i < src.len() && src[i] != '"' {
        string_end(src, i + 1)
    } else {
        i
    }
}

/// The position of the first line break at or after `i`, or the end of the source.
pub open spec fn comment_end(src: Seq<char>, i: int) -> int
    decreases src.len() - i,
{
    if 0 <= i < src.len() && src[i] != '\n' {
        comment_end(src, i + 1)
    } else {
        i
    }
}

/// The number of line breaks among the characters at `a .. b`.
pub open spec fn count_newlines(src: Seq<char>, a: int, b: int) -> nat
    decreases b - a,
{
    if b <= a {
        0
    } else {
        count_newlines(src, a, b - 1) + if src[b - 1] == '\n' {
            1nat
        } else {
            0nat
        }
    }
}

/// Whether the text of a number is one that `f64`'s `FromStr` accepts: it only
/// holds the ASCII digits and `.`.
pub open spec fn is_decimal_text(s: Seq<char>) -> bool {
    forall|i: int| 0 <= i < s.len() ==> ('0' <= #[trigger] s[i] <= '9' || s[i] == '.')
}

/// What one step of scanning yields: at most one token, at most one error, the
/// position where the next step starts and the line it starts on.
pub struct LexStep {
    pub token: Option<TokenView>,
    pub error: Option<ScanErrorView>,
    pub next: int,
    pub line: nat,
}

/// A token without a literal, made of the characters at `a .. b`.
pub open spec fn plain_token(t: TokenType, src: Seq<char>, a: int, b: int, line: nat) -> Option<
    TokenView,
> {
    Some(TokenView { token_type: t, lexeme: src.subrange(a, b), literal: None, line })
}

/// A step that yields the one-character token at `pos`.
pub open spec fn single(t: TokenType, src: Seq<char>, pos: int, line: nat) -> LexStep {
    LexStep { token: plain_token(t, src, pos, pos + 1, line), error: None, next: pos + 1, line }
}

/// A step that yields the two-character token at `pos` when `second` follows,
/// and the one-character token otherwise.
pub open spec fn one_or_two(
    src: Seq<char>,
    pos: int,
    line: nat,
    second: char,
    t1: TokenType,
    t2: TokenType,
) -> LexStep {
    if pos + 1 < src.len() && src[pos + 1] == second {
        LexStep { token: plain_token(t2, src, pos, pos + 2, line), error: None, next: pos + 2, line }
    } else {
        single(t1, src, pos, line)
    }
}

/// A step that yields nothing and goes on at `next`.
pub open spec fn skip_to(next: int, line: nat) -> LexStep {
    LexStep { token: None, error: None, next, line }
}

/// One step of scanning at `pos` (with `pos` inside the source) on line `line`.
pub open spec fn lex_one(src: Seq<char>, pos: int, line: nat) -> LexStep {
    let c = src[pos];
    if c == '\n' {
        skip_to(pos + 1, line + 1)
    } else if c == '(' {
        single(TokenType::LeftParen, src, pos, line)
    } else if c == ')' {
        single(TokenType::RightParen, src, pos, line)
    } else if c == '{' {
        single(TokenType::LeftBrace, src, pos, line)
    } else if c == '}' {
        single(TokenType::RightBrace, src, pos, line)
    } else if c == ',' {
        single(TokenType::Comma, src, pos, line)
    } else if c == '.' {
        single(TokenType::Dot, src, pos, line)
    } else if c == '-' {
        single(TokenType::Minus, src, pos, line)
    } else if c == '+' {
        single(TokenType::Plus, src, pos, line)
    } else if c == ';' {
        single(TokenType::Semicolon, src, pos, line)
    } else if c == '*' {
        single(TokenType::Star, src, pos, line)
    } else if c == '=' {
        one_or_two(src, pos, line, '=', TokenType::Equal, TokenType::EqualEqual)
    } else if c == '!' {
        one_or_two(src, pos, line, '=', TokenType::Bang, TokenType::BangEqual)
    } else if c == '<' {
        one_or_two(src, pos, line, '=', TokenType::Less, TokenType::LessEqual)
    } else if c == '>' {
        one_or_two(src, pos, line, '=', TokenType::Greater, TokenType::GreaterEqual)
    } else if c == '/' {
        if pos + 1 < src.len() && src[pos + 1] == '/' {
            skip_to(comment_end(src, pos + 2), line)
        } else {
            single(TokenType::Slash, src, pos, line)
        }
    } else if c == ' ' || c == '\r' || c == '\t' {
        skip_to(pos + 1, line)
    } else if c == '"' {
        let e = string_end(src, pos + 1);
        let l2 = line + count_newlines(src, pos + 1, e);
        if e >= src.len() {
            LexStep {
                token: None,
                error: Some(ScanErrorView::UnterminatedString { line: l2 }),
                next: e,
                line: l2,
            }
        } else {
            LexStep {
                token: Some(
                    TokenView {
                        token_type: TokenType::String,
                        lexeme: src.subrange(pos, e + 1),
                        literal: Some(src.subrange(pos + 1, e)),
                        line: l2,
                    },
                ),
                error: None,
                next: e + 1,
                line: l2,
            }
        }
    } else if unicode_numeric(c) {
        let e = number_end(src, pos);
        let text = src.subrange(pos, e);
        if is_decimal_text(text) {
            LexStep {
                token: Some(
                    TokenView {
                        token_type: TokenType::Number,
                        lexeme: text,
                        literal: Some(text),
                        line,
                    },
                ),
                error: None,
                next: e,
                line,
            }
        } else {
            LexStep {
                token: None,
                error: Some(ScanErrorView::InvalidNumber { line, lexeme: text }),
                next: e,
                line,
            }
        }
    } else if unicode_alphabetic(c) || c == '_' {
        let e = word_end(src, pos + 1);
        let word = src.subrange(pos, e);
        LexStep {
            token: Some(
                TokenView { token_type: spec_keyword(word), lexeme: word, literal: None, line },
            ),
            error: None,
            next: e,
            line,
        }
    } else {
        LexStep {
            token: None,
            error: Some(ScanErrorView::UnexpectedCharacter { line, ch: c }),
            next: pos + 1,
            line,
        }
    }
}

/// The sequence of at most one element that an option holds.
pub open spec fn opt_seq<A>(o: Option<A>) -> Seq<A> {
    match o {
        Some(a) => seq![a],
        None => Seq::empty(),
    }
}

/// The tokens and errors of scanning a source from a position on, and the line it ends on.
pub struct ScanOut {
    pub tokens: Seq<TokenView>,
    pub errors: Seq<ScanErrorView>,
    pub line: nat,
}

/// Scanning of `src` from `pos` to its end, starting on line `line` (the end-of-file token excluded).
pub open spec fn scan_from(src: Seq<char>, pos: int, line: nat) -> ScanOut
    decreases src.len() - pos,
{
    if pos < 0 || pos >= src.len() {
        ScanOut { tokens: Seq::empty(), errors: Seq::empty(), line }
    } else {
        let st = lex_one(src, pos, line);
        proof {
            lemma_lex_one_bounds(src, pos, line);
        }
        let rest = scan_from(src, st.next, st.line);
        ScanOut {
            tokens: opt_seq(st.token) + rest.tokens,
            errors: opt_seq(st.error) + rest.errors,
            line: rest.line,
        }
    }
}

/// The end-of-file token on line `line`.
pub open spec fn eof_token(line: nat) -> TokenView {
    TokenView { token_type: TokenType::Eof, lexeme: Seq::empty(), literal: None, line }
}

/// The tokens of a whole source, ending with the end-of-file token.
pub open spec fn spec_tokens(src: Seq<char>) -> Seq<TokenView> {
    let r = scan_from(src, 0, 1);
    r.tokens.push(eof_token(r.line))
}

/// The errors found while scanning a whole source, in order.
pub open spec fn spec_scan_errors(src: Seq<char>) -> Seq<ScanErrorView> {
    scan_from(src, 0, 1).errors
}

/// The abstract values of a sequence of tokens.
pub open spec fn tokens_view(ts: Seq<Token>) -> Seq<TokenView> {
    ts.map_values(|t: Token| t@)
}

/// The abstract values of a sequence of scan errors.
pub open spec fn scan_errors_view(es: Seq<ScanError>) -> Seq<ScanErrorView> {
    es.map_values(|e: ScanError| e@)
}

// ---------------------------------------------------------------------------
// Lemmas on the scanning functions
// ---------------------------------------------------------------------------

proof fn lemma_word_end(src: Seq<char>, i: int)
    requires
        0 <= i <= src.len(),
    ensures
        i <= word_end(src, i) <= src.len(),
    decreases src.len() - i,
{
    if i < src.len() && is_word_char(src[i]) {
        lemma_word_end(src, i + 1);
    }
}

proof fn lemma_digits_end(src: Seq<char>, i: int)
    requires
        0 <= i <= src.len(),
    ensures
        i <= digits_end(src, i) <= src.len(),
    decreases src.len() - i,
{
    if i < src.len() && unicode_numeric(src[i]) {
        lemma_digits_end(src, i + 1);
    }
}

proof fn lemma_string_end(src: Seq<char>, i: int)
    requires
        0 <= i <= src.len(),
    ensures
        i <= string_end(src, i) <= src.len(),
        string_end(src, i) < src.len() ==> src[string_end(src, i)] == '"',
    decreases src.len() - i,
{
    if i < src.len() && src[i] != '"' {
        lemma_string_end(src, i + 1);
    }
}

proof fn lemma_comment_end(src: Seq<char>, i: int)
    requires
        0 <= i <= src.len(),
    ensures
        i <= comment_end(src, i) <= src.len(),
    decreases src.len() - i,
{
    if i < src.len() && src[i] != '\n' {
        lemma_comment_end(src, i + 1);
    }
}

proof fn lemma_count_newlines(src: Seq<char>, a: int, b: int)
    requires
        a <= b,
    ensures
        count_newlines(src, a, b) <= b - a,
    decreases b - a,
{
    if b > a {
        lemma_count_newlines(src, a, b - 1);
    }
}

proof fn lemma_number_end(src: Seq<char>, start: int)
    requires
        0 <= start < src.len(),
    ensures
        start < number_end(src, start) <= src.len(),
{
    lemma_digits_end(src, start + 1);
    let e = digits_end(src, start + 1);
    if peek_at(src, e) == '.' && unicode_numeric(peek_at(src, e + 1)) {
        lemma_digits_end(src, e + 1);
    }
}

/// A step of scanning moves forward, stays inside the source, and counts no
/// more lines than characters it passes.
pub proof fn lemma_lex_one_bounds(src: Seq<char>, pos: int, line: nat)
    requires
        0 <= pos < src.len(),
    ensures
        pos < lex_one(src, pos, line).next <= src.len(),
        lex_one(src, pos, line).line <= line + (lex_one(src, pos, line).next - pos),
        lex_one(src, pos, line).line >= line,
{
    let c = src[pos];
    if c == '/' && pos + 1 < src.len() && src[pos + 1] == '/' {
        lemma_comment_end(src, pos + 2);
    } else if c == '"' {
        lemma_string_end(src, pos + 1);
        lemma_count_newlines(src, pos + 1, string_end(src, pos + 1));
    } else if unicode_numeric(c) {
        lemma_number_end(src, pos);
    } else if unicode_alphabetic(c) || c == '_' {
        lemma_word_end(src, pos + 1);
    }
}

/// Scanning from `pos` on line `line` yields no end-of-file token, and tokens
/// whose lines never go down, from `line` to the line where it ends.
proof fn lemma_scan_from_tokens(src: Seq<char>, pos: int, line: nat)
    ensures
        scan_from(src, pos, line).line >= line,
        forall|i: int|
            0 <= i < scan_from(src, pos, line).tokens.len() ==> {
                &&& (#[trigger] scan_from(src, pos, line).tokens[i]).token_type != TokenType::Eof
                &&& line <= scan_from(src, pos, line).tokens[i].line <= scan_from(src, pos, line).line
            },
        forall|i: int, j: int|
            0 <= i <= j < scan_from(src, pos, line).tokens.len() ==> (#[trigger] scan_from(
                src,
                pos,
                line,
            ).tokens[i]).line <= (#[trigger] scan_from(src, pos, line).tokens[j]).line,
    decreases src.len() - pos,
{
    if 0 <= pos < src.len() {
        let st = lex_one(src, pos, line);
        lemma_lex_one_bounds(src, pos, line);
        lemma_scan_from_tokens(src, st.next, st.line);
        let rest = scan_from(src, st.next, st.line);
        let ts = scan_from(src, pos, line).tokens;
        assert(ts == opt_seq(st.token) + rest.tokens);
        match st.token {
            Some(t) => {
                assert(t.line == st.line);
                assert(t.token_type != TokenType::Eof);
                assert forall|i: int| 0 < i < ts.len() implies ts[i] == rest.tokens[i - 1] by {}
            },
            None => {
                assert(ts =~= rest.tokens);
            },
        }
    }
}

/// Spaces, tabs and carriage returns between tokens yield no token and no
/// error: scanning from a whitespace character gives the same tokens, errors
/// and final line as scanning from just after it.
pub proof fn law_whitespace_is_skipped(src: Seq<char>, pos: int, line: nat)
    requires
        0 <= pos < src.len(),
        src[pos] == ' ' || src[pos] == '\t' || src[pos] == '\r',
    ensures
        lex_one(src, pos, line).token is None,
        lex_one(src, pos, line).error is None,
        lex_one(src, pos, line).next == pos + 1,
        lex_one(src, pos, line).line == line,
        scan_from(src, pos, line) == scan_from(src, pos + 1, line),
{
    let rest = scan_from(src, pos + 1, line);
    assert(opt_seq::<TokenView>(None) + rest.tokens =~= rest.tokens);
    assert(opt_seq::<ScanErrorView>(None) + rest.errors =~= rest.errors);
}

/// A newline yields no token and no error, and scanning goes on on the next line.
pub proof fn law_newline_counts_a_line(src: Seq<char>, pos: int, line: nat)
    requires
        0 <= pos < src.len(),
        src[pos] == '\n',
    ensures
        lex_one(src, pos, line).token is None,
        lex_one(src, pos, line).error is None,
        scan_from(src, pos, line) == scan_from(src, pos + 1, line + 1),
{
    let rest = scan_from(src, pos + 1, line + 1);
    assert(opt_seq::<TokenView>(None) + rest.tokens =~= rest.tokens);
    assert(opt_seq::<ScanErrorView>(None) + rest.errors =~= rest.errors);
}

/// Every token that a step of scanning yields is spelled by exactly the
/// characters that the step passes over, and a step yields a token or an error,
/// never both.
pub proof fn law_lexeme_is_the_text_passed(src: Seq<char>, pos: int, line: nat)
    requires
        0 <= pos < src.len(),
    ensures
        lex_one(src, pos, line).token matches Some(t) ==> t.lexeme == src.subrange(
            pos,
            lex_one(src, pos, line).next,
        ),
        !(lex_one(src, pos, line).token is Some && lex_one(src, pos, line).error is Some),
{
}

/// A tab scans as a space does.
pub proof fn law_tab_scans_as_space(src: Seq<char>, pos: int, line: nat)
    requires
        0 <= pos < src.len(),
        src[pos] == '\t',
    ensures
        lex_one(src, pos, line) == lex_one(src.update(pos, ' '), pos, line),
{
}

/// The tokens of a source end with the one end-of-file token, which no other
/// token is.
pub proof fn law_single_eof_at_end(src: Seq<char>)
    ensures
        spec_tokens(src).len() > 0,
        spec_tokens(src).last().token_type == TokenType::Eof,
        forall|i: int| 0 <= i < spec_tokens(src).len() - 1 ==> (#[trigger] spec_tokens(src)[i]).token_type
            != TokenType::Eof,
{
    lemma_scan_from_tokens(src, 0, 1);
    let r = scan_from(src, 0, 1);
    assert forall|i: int| 0 <= i < spec_tokens(src).len() - 1 implies (#[trigger] spec_tokens(src)[i]).token_type
        != TokenType::Eof by {
        assert(spec_tokens(src)[i] == r.tokens[i]);
    }
}

/// The lines of the tokens of a source never go down; the first is at least
/// line 1, and the end-of-file token is on the last line.
pub proof fn law_token_lines_ordered(src: Seq<char>)
    ensures
        forall|i: int, j: int|
            0 <= i <= j < spec_tokens(src).len() ==> (#[trigger] spec_tokens(src)[i]).line <= (
            #[trigger] spec_tokens(src)[j]).line,
        forall|i: int| 0 <= i < spec_tokens(src).len() ==> (#[trigger] spec_tokens(src)[i]).line >= 1,
{
    lemma_scan_from_tokens(src, 0, 1);
    let r = scan_from(src, 0, 1);
    let ts = spec_tokens(src);
    assert forall|i: int, j: int| 0 <= i <= j < ts.len() implies (#[trigger] ts[i]).line <= (
    #[trigger] ts[j]).line by {
        if j < r.tokens.len() {
            assert(ts[i] == r.tokens[i]);
            assert(ts[j] == r.tokens[j]);
        } else if i < r.tokens.len() {
            assert(ts[i] == r.tokens[i]);
        }
    }
    assert forall|i: int| 0 <= i < ts.len() implies (#[trigger] ts[i]).line >= 1 by {
        if i < r.tokens.len() {
            assert(ts[i] == r.tokens[i]);
        }
    }
}

// ---------------------------------------------------------------------------
// The scanner
// ---------------------------------------------------------------------------

/// The abstract state of a scanner: the source, the tokens and errors found so
/// far, the position it has reached and its line.
pub struct ScannerView {
    pub source: Seq<char>,
    pub tokens: Seq<TokenView>,
    pub errors: Seq<ScanErrorView>,
    pub current: nat,
    pub line: nat,
}

/// A scanner over the characters of one source.
pub struct Scanner {
    source: Vec<char>,
    tokens: Vec<Token>,
    errors: Vec<ScanError>,
    start: usize,
    current: usize,
    line: usize,
    had_error: bool,
}

impl View for Scanner {
    type V = ScannerView;

    closed spec fn view(&self) -> ScannerView {
        ScannerView {
            source: self.source@,
            tokens: tokens_view(self.tokens@),
            errors: scan_errors_view(self.errors@),
            current: self.current as nat,
            line: self.line as nat,
        }
    }
}

impl Scanner {
    /// The scanner is between tokens, and its counters cannot overflow.
    pub closed spec fn wf(&self) -> bool {
        &&& self.start == self.current
        &&& self.current <= self.source@.len()
        &&& self.source@.len() + 2 <= usize::MAX
        &&& self.line <= self.current + 1
        &&& self.line >= 1
        &&& self.had_error == (self.errors@.len() > 0)
    }

    /// A scanner at the start of `source`, on line 1.
    pub fn new(source: String) -> (s: Scanner)
        requires
            source@.len() + 2 <= usize::MAX,
        ensures
            s.wf(),
            s@.source == source@,
            s@.tokens == Seq::<TokenView>::empty(),
            s@.errors == Seq::<ScanErrorView>::empty(),
            s@.current == 0,
            s@.line == 1,
    {
        let chars = chars_of(source.as_str());
        let s = Scanner {
            source: chars,
            tokens: Vec::new(),
            errors: Vec::new(),
            start: 0,
            current: 0,
            line: 1,
            had_error: false,
        };
        proof {
            assert(tokens_view(s.tokens@) =~= Seq::<TokenView>::empty());
            assert(scan_errors_view(s.errors@) =~= Seq::<ScanErrorView>::empty());
        }
        s
    }

    /// Scans the rest of the source and hands back every token found since the
    /// last call, ending with the end-of-file token. Errors are kept in the scanner.
    pub fn parse(&mut self) -> (toks: Vec<Token>)
        requires
            old(self).wf(),
        ensures
            final(self).wf(),
            final(self)@.source == old(self)@.source,
            final(self)@.current == old(self)@.source.len(),
            final(self)@.tokens == Seq::<TokenView>::empty(),
            ({
                let r = scan_from(old(self)@.source, old(self)@.current as int, old(self)@.line);
                &&& tokens_view(toks@) == old(self)@.tokens + r.tokens + seq![eof_token(r.line)]
                &&& final(self)@.errors == old(self)@.errors + r.errors
                &&& final(self)@.line == r.line
            }),
    {
        let ghost src = self.source@;
        let ghost r0 = scan_from(src, self.current as int, self.line as nat);
        let ghost toks0 = tokens_view(self.tokens@);
        let ghost errs0 = scan_errors_view(self.errors@);
        while !self.is_at_end()
            invariant
                self.wf(),
                self.source@ == src,
                ({
                    let r = scan_from(src, self.current as int, self.line as nat);
                    &&& toks0 + r0.tokens == tokens_view(self.tokens@) + r.tokens
                    &&& errs0 + r0.errors == scan_errors_view(self.errors@) + r.errors
                    &&& r.line == r0.line
                }),
            decreases self.source@.len() - self.current,
        {
            let ghost cur = self.current as int;
            let ghost ln = self.line as nat;
            let ghost tv = tokens_view(self.tokens@);
            let ghost ev = scan_errors_view(self.errors@);
            self.scan_token();
            proof {
                let st = lex_one(src, cur, ln);
                let r = scan_from(src, cur, ln);
                let r2 = scan_from(src, self.current as int, self.line as nat);
                assert(r.tokens == opt_seq(st.token) + r2.tokens);
                assert(tv + r.tokens =~= (tv + opt_seq(st.token)) + r2.tokens);
                assert(ev + r.errors =~= (ev + opt_seq(st.error)) + r2.errors);
            }
        }
        let ghost r = scan_from(src, self.current as int, self.line as nat);
        assert(r.tokens =~= Seq::<TokenView>::empty());
        assert(r.errors =~= Seq::<ScanErrorView>::empty());
        let eof = Token::new(TokenType::Eof, String::new(), None, self.line);
        self.tokens.push(eof);
        let mut out: Vec<Token> = Vec::new();
        std::mem::swap(&mut out, &mut self.tokens);
        proof {
            assert(tokens_view(out@) =~= tokens_view(old(self).tokens@) + r0.tokens + seq![eof_token(r0.line)]);
            assert(errs0 + r0.errors =~= scan_errors_view(self.errors@));
            assert(tokens_view(self.tokens@) =~= Seq::<TokenView>::empty());
        }
        out
    }

    /// The exit code of the scan: `EXIT_SCAN_ERROR` when an error was found, else 0.
    pub fn exit_code(&self) -> (code: i32)
        requires
            self.wf(),
        ensures
            code == if self@.errors.len() > 0 {
                EXIT_SCAN_ERROR
            } else {
                0
            },
    {
        if self.had_error {
            EXIT_SCAN_ERROR
        } else {
            0
        }
    }

    /// The errors found so far, in order.
    pub fn errors(&self) -> (es: &Vec<ScanError>)
        ensures
            scan_errors_view(es@) == self@.errors,
    {
        &self.errors
    }

    fn is_at_end(&self) -> (b: bool)
        ensures
            b == (self.current >= self.source@.len()),
    {
        self.current >= self.source.len()
    }

    fn peek(&self) -> (c: char)
        ensures
            c == peek_at(self.source@, self.current as int),
    {
        if self.is_at_end() {
            '\0'
        } else {
            self.source[self.current]
        }
    }

    fn peek_next(&self) -> (c: char)
        requires
            self.current + 1 <= usize::MAX,
        ensures
            c == peek_at(self.source@, self.current + 1),
    {
        if self.current + 1 >= self.source.len() {
            '\0'
        } else {
            self.source[self.current + 1]
        }
    }

    fn next(&mut self) -> (c: char)
        requires
            old(self).current < old(self).source@.len(),
        ensures
            c == old(self).source@[old(self).current as int],
            final(self).current == old(self).current + 1,
            final(self).source == old(self).source,
            final(self).tokens == old(self).tokens,
            final(self).errors == old(self).errors,
            final(self).start == old(self).start,
            final(self).line == old(self).line,
            final(self).had_error == old(self).had_error,
    {
        let ch = self.source[self.current];
        let _len = self.source.len();
        self.current = self.current + 1;
        ch
    }

    fn matches(&mut self, ch: char) -> (b: bool)
        ensures
            b == (old(self).current < old(self).source@.len() && old(self).source@[old(
                self,
            ).current as int] == ch),
            final(self).current == if b {
                old(self).current + 1
            } else {
                old(self).current as int
            },
            final(self).source == old(self).source,
            final(self).tokens == old(self).tokens,
            final(self).errors == old(self).errors,
            final(self).start == old(self).start,
            final(self).line == old(self).line,
            final(self).had_error == old(self).had_error,
    {
        if self.is_at_end() {
            return false;
        }
        if self.source[self.current] != ch {
            return false;
        }
        let _len = self.source.len();
        self.current = self.current + 1;
        true
    }

    fn add_token(&mut self, token_type: TokenType, literal: Option<String>)
        requires
            old(self).start <= old(self).current <= old(self).source@.len(),
        ensures
            tokens_view(final(self).tokens@) == tokens_view(old(self).tokens@).push(
                TokenView {
                    token_type,
                    lexeme: old(self).source@.subrange(
                        old(self).start as int,
                        old(self).current as int,
                    ),
                    literal: crate::token::literal_view(literal),
                    line: old(self).line as nat,
                },
            ),
            final(self).current == old(self).current,
            final(self).source == old(self).source,
            final(self).errors == old(self).errors,
            final(self).start == old(self).start,
            final(self).line == old(self).line,
            final(self).had_error == old(self).had_error,
    {
        let text = slice_subrange(self.source.as_slice(), self.start, self.current);
        let lexeme = string_of(text);
        let token = Token::new(token_type, lexeme, literal, self.line);
        self.tokens.push(token);
        proof {
            assert(tokens_view(self.tokens@) =~= tokens_view(old(self).tokens@).push(token@));
        }
    }

    fn add_error(&mut self, error: ScanError)
        ensures
            scan_errors_view(final(self).errors@) == scan_errors_view(old(self).errors@).push(
                error@,
            ),
            final(self).had_error,
            final(self).current == old(self).current,
            final(self).source == old(self).source,
            final(self).tokens == old(self).tokens,
            final(self).start == old(self).start,
            final(self).line == old(self).line,
    {
        self.errors.push(error);
        self.had_error = true;
        proof {
            assert(scan_errors_view(self.errors@) =~= scan_errors_view(old(self).errors@).push(
                error@,
            ));
        }
    }
    fn scan_token(&mut self)
        requires
            old(self).wf(),
            old(self).current < old(self).source@.len(),
        ensures
            final(self).wf(),
            final(self).source == old(self).source,
            final(self).current > old(self).current,
            ({
                let st = lex_one(old(self).source@, old(self).current as int, old(self).line as nat);
                &&& final(self).current == st.next
                &&& final(self).line == st.line
                &&& tokens_view(final(self).tokens@) == tokens_view(old(self).tokens@) + opt_seq(
                    st.token,
                )
                &&& scan_errors_view(final(self).errors@) == scan_errors_view(old(self).errors@)
                    + opt_seq(st.error)
            }),
    {
        let ghost src = self.source@;
        let ghost pos = self.current as int;
        let ghost tv = tokens_view(self.tokens@);
        let ghost ev = scan_errors_view(self.errors@);
        proof {
            lemma_lex_one_bounds(src, pos, self.line as nat);
        }
        let ch = self.next();
        match ch {
            '\n' => {
                self.line = self.line + 1;
            },
            '(' => self.add_token(TokenType::LeftParen, None),
            ')' => self.add_token(TokenType::RightParen, None),
            '{' => self.add_token(TokenType::LeftBrace, None),
            '}' => self.add_token(TokenType::RightBrace, None),
            ',' => self.add_token(TokenType::Comma, None),
            '.' => self.add_token(TokenType::Dot, None),
            '-' => self.add_token(TokenType::Minus, None),
            '+' => self.add_token(TokenType::Plus, None),
            ';' => self.add_token(TokenType::Semicolon, None),
            '*' => self.add_token(TokenType::Star, None),
            '=' => {
                if self.matches('=') {
                    self.add_token(TokenType::EqualEqual, None);
                } else {
                    self.add_token(TokenType::Equal, None);
                }
            },
            '!' => {
                if self.matches('=') {
                    self.add_token(TokenType::BangEqual, None);
                } else {
                    self.add_token(TokenType::Bang, None);
                }
            },
            '<' => {
                if self.matches('=') {
                    self.add_token(TokenType::LessEqual, None);
                } else {
                    self.add_token(TokenType::Less, None);
                }
            },
            '>' => {
                if self.matches('=') {
                    self.add_token(TokenType::GreaterEqual, None);
                } else {
                    self.add_token(TokenType::Greater, None);
                }
            },
            '/' => {
                if self.matches('/') {
                    proof {
                        lemma_comment_end(src, pos + 2);
                    }
                    while self.peek() != '\n' && !self.is_at_end()
                        invariant
                            self.source == old(self).source,
                            self.source@ == src,
                            self.start == pos,
                            pos + 2 <= self.current <= src.len(),
                            comment_end(src, pos + 2) == comment_end(src, self.current as int),
                            self.line == old(self).line,
                            self.tokens == old(self).tokens,
                            self.errors == old(self).errors,
                            self.had_error == old(self).had_error,
                        decreases src.len() - self.current,
                    {
                        self.next();
                    }
                } else {
                    self.add_token(TokenType::Slash, None);
                }
            },
            ' ' | '\r' | '\t' => {},
            '"' => self.string(),
            _ => {
                if is_numeric(ch) {
                    self.number();
                } else if is_alphabetic(ch) || ch == '_' {
                    self.identifier();
                } else {
                    self.add_error(ScanError::UnexpectedCharacter { line: self.line, ch });
                }
            },
        }
        self.start = self.current;
        proof {
            let st = lex_one(src, pos, old(self).line as nat);
            assert(tokens_view(self.tokens@) =~= tv + opt_seq(st.token));
            assert(scan_errors_view(self.errors@) =~= ev + opt_seq(st.error));
        }
    }

    fn string(&mut self)
        requires
            old(self).start + 1 == old(self).current,
            old(self).current <= old(self).source@.len(),
            old(self).source@.len() + 2 <= usize::MAX,
            old(self).line <= old(self).current,
        ensures
            final(self).source == old(self).source,
            final(self).start == old(self).start,
            ({
                let src = old(self).source@;
                let s0 = old(self).current as int;
                let e = string_end(src, s0);
                let l2 = (old(self).line + count_newlines(src, s0, e)) as nat;
                &&& final(self).line == l2
                &&& if e >= src.len() {
                    &&& final(self).current == e
                    &&& final(self).tokens == old(self).tokens
                    &&& scan_errors_view(final(self).errors@) == scan_errors_view(
                        old(self).errors@,
                    ).push(ScanErrorView::UnterminatedString { line: l2 })
                    &&& final(self).had_error
                } else {
                    &&& final(self).current == e + 1
                    &&& tokens_view(final(self).tokens@) == tokens_view(old(self).tokens@).push(
                        TokenView {
                            token_type: TokenType::String,
                            lexeme: src.subrange(s0 - 1, e + 1),
                            literal: Some(src.subrange(s0, e)),
                            line: l2,
                        },
                    )
                    &&& final(self).errors == old(self).errors
                    &&& final(self).had_error == old(self).had_error
                }
            }),
    {
        let ghost src = self.source@;
        let ghost s0 = self.current as int;
        let ghost line0 = self.line as nat;
        proof {
            lemma_string_end(src, s0);
        }
        while self.peek() != '"' && !self.is_at_end()
            invariant
                self.source == old(self).source,
                self.source@ == src,
                self.start == old(self).start,
                s0 <= self.current <= src.len(),
                src.len() + 2 <= usize::MAX,
                string_end(src, s0) == string_end(src, self.current as int),
                self.line == line0 + count_newlines(src, s0, self.current as int),
                self.line <= self.current,
                self.tokens == old(self).tokens,
                self.errors == old(self).errors,
                self.had_error == old(self).had_error,
            decreases src.len() - self.current,
        {
            if self.peek() == '\n' {
                self.line = self.line + 1;
            }
            self.next();
        }
        if self.is_at_end() {
            self.add_error(ScanError::UnterminatedString { line: self.line });
            return ;
        }
        self.next();
        let text = slice_subrange(self.source.as_slice(), self.start + 1, self.current - 1);
        let literal = string_of(text);
        self.add_token(TokenType::String, Some(literal));
    }

    fn number(&mut self)
        requires
            old(self).start + 1 == old(self).current,
            old(self).current <= old(self).source@.len(),
            old(self).source@.len() + 2 <= usize::MAX,
        ensures
            final(self).source == old(self).source,
            final(self).start == old(self).start,
            final(self).line == old(self).line,
            ({
                let src = old(self).source@;
                let st = old(self).start as int;
                let e = number_end(src, st);
                let text = src.subrange(st, e);
                &&& final(self).current == e
                &&& if is_decimal_text(text) {
                    &&& tokens_view(final(self).tokens@) == tokens_view(old(self).tokens@).push(
                        TokenView {
                            token_type: TokenType::Number,
                            lexeme: text,
                            literal: Some(text),
                            line: old(self).line as nat,
                        },
                    )
                    &&& final(self).errors == old(self).errors
                    &&& final(self).had_error == old(self).had_error
                } else {
                    &&& final(self).tokens == old(self).tokens
                    &&& scan_errors_view(final(self).errors@) == scan_errors_view(
                        old(self).errors@,
                    ).push(ScanErrorView::InvalidNumber { line: old(self).line as nat, lexeme: text })
                    &&& final(self).had_error
                }
            }),
    {
        let ghost src = self.source@;
        let ghost s1 = self.current as int;
        proof {
            lemma_digits_end(src, s1);
        }
        while !self.is_at_end() && is_numeric(self.peek())
            invariant
                self.source == old(self).source,
                self.source@ == src,
                self.start == old(self).start,
                s1 <= self.current <= src.len(),
                src.len() + 2 <= usize::MAX,
                digits_end(src, s1) == digits_end(src, self.current as int),
                self.line == old(self).line,
                self.tokens == old(self).tokens,
                self.errors == old(self).errors,
                self.had_error == old(self).had_error,
            decreases src.len() - self.current,
        {
            self.next();
        }
        if self.peek() == '.' && is_numeric(self.peek_next()) {
            self.next();
            let ghost s2 = self.current as int;
            proof {
                lemma_digits_end(src, s2);
            }
            while !self.is_at_end() && is_numeric(self.peek())
                invariant
                    self.source == old(self).source,
                    self.source@ == src,
                    self.start == old(self).start,
                    s2 <= self.current <= src.len(),
                    src.len() + 2 <= usize::MAX,
                    digits_end(src, s2) == digits_end(src, self.current as int),
                    self.line == old(self).line,
                    self.tokens == old(self).tokens,
                    self.errors == old(self).errors,
                    self.had_error == old(self).had_error,
                decreases src.len() - self.current,
            {
                self.next();
            }
        }
        let text = slice_subrange(self.source.as_slice(), self.start, self.current);
        if all_decimal(text) {
            let literal = string_of(text);
            self.add_token(TokenType::Number, Some(literal));
        } else {
            let lexeme = string_of(text);
            self.add_error(ScanError::InvalidNumber { line: self.line, lexeme });
        }
    }

    fn identifier(&mut self)
        requires
            old(self).start + 1 == old(self).current,
            old(self).current <= old(self).source@.len(),
        ensures
            final(self).source == old(self).source,
            final(self).start == old(self).start,
            final(self).line == old(self).line,
            final(self).errors == old(self).errors,
            final(self).had_error == old(self).had_error,
            ({
                let src = old(self).source@;
                let st = old(self).start as int;
                let e = word_end(src, st + 1);
                let word = src.subrange(st, e);
                &&& final(self).current == e
                &&& tokens_view(final(self).tokens@) == tokens_view(old(self).tokens@).push(
                    TokenView {
                        token_type: spec_keyword(word),
                        lexeme: word,
                        literal: None,
                        line: old(self).line as nat,
                    },
                )
            }),
    {
        let ghost src = self.source@;
        let ghost s1 = self.current as int;
        proof {
            lemma_word_end(src, s1);
        }
        while !self.is_at_end() && (is_alphanumeric(self.peek()) || self.peek() == '_')
            invariant
                self.source == old(self).source,
                self.source@ == src,
                self.start == old(self).start,
                s1 <= self.current <= src.len(),
                word_end(src, s1) == word_end(src, self.current as int),
                self.line == old(self).line,
                self.tokens == old(self).tokens,
                self.errors == old(self).errors,
                self.had_error == old(self).had_error,
            decreases src.len() - self.current,
        {
            self.next();
        }
        let text = slice_subrange(self.source.as_slice(), self.start, self.current);
        let token_type = TokenType::parse(text);
        self.add_token(token_type, None);
    }
}

/// Whether every character of `cs` is an ASCII digit or `.`.
fn all_decimal(cs: &[char]) -> (b: bool)
    ensures
        b == is_decimal_text(cs@),
{
    let mut i: usize = 0;
    while i < cs.len()
        invariant
            i <= cs@.len(),
            forall|k: int| 0 <= k < i ==> ('0' <= #[trigger] cs@[k] <= '9' || cs@[k] == '.'),
        decreases cs@.len() - i,
    {
        let c = cs[i];
        if !(('0' <= c && c <= '9') || c == '.') {
            return false;
        }
        i = i + 1;
    }
    true
}

} // verus!
