//! The lexer: turns source text into a flat token sequence with position
//! metadata. It is a total function: characters that match no rule become
//! `Unknown` tokens, and the output always ends with a synthetic `Eof` token
//! whose span collapses to the end-of-input byte offset.
//!
//! Tokens are found by longest match: multi-character operators win over
//! their single-character prefixes, and a word that spells a keyword becomes
//! that keyword's token rather than an identifier.

use vstd::prelude::*;
use vstd::string::*;
use vstd::utf8::encode_utf8;

verus! {

/// Source position of one token: byte offsets into the input, 1-based line
/// and column, and the file the token came from.
#[derive(Debug, PartialEq, Eq)]
pub struct Span {
    pub start: usize,
    pub end: usize,
    pub line: usize,
    pub column: usize,
    pub file: String,
}

/// Mathematical model of a `Span`.
pub struct SpanModel {
    pub start: int,
    pub end: int,
    pub line: int,
    pub column: int,
    pub file: Seq<char>,
}

impl View for Span {
    type V = SpanModel;

    open spec fn view(&self) -> SpanModel {
        SpanModel {
            start: self.start as int,
            end: self.end as int,
            line: self.line as int,
            column: self.column as int,
            file: self.file@,
        }
    }
}

impl Clone for Span {
    fn clone(&self) -> (r: Span)
        ensures
            r@ == self@,
    {
        Span {
            start: self.start,
            end: self.end,
            line: self.line,
            column: self.column,
            file: self.file.clone(),
        }
    }
}

/// The kind of a token. Keywords, flow operators, punctuation, literals,
/// comments and newlines each have their own case; any character matching
/// no rule becomes `Unknown`, and the synthetic final token is `Eof`.
#[derive(Debug, Clone, Copy, PartialEq, Eq, Hash, Structural)]
pub enum TokenKind {
    Process,
    Import,
    From,
    As,
    Subprocess,
    Start,
    End,
    Task,
    User,
    Service,
    Script,
    Call,
    Xor,
    And,
    Event,
    Group,
    Pool,
    Lane,
    Note,
    SequenceFlow,
    MessageFlow,
    DefaultFlow,
    Association,
    Namespace,
    LeftBrace,
    RightBrace,
    LeftParen,
    RightParen,
    LeftBracket,
    RightBracket,
    Comma,
    Equals,
    At,
    Question,
    StringLiteral,
    NumberLiteral,
    Identifier,
    LineComment,
    BlockComment,
    Newline,
    CarriageReturnNewline,
    Unknown,
    Eof,
}

/// One token: its kind, its position, and the exact source slice it covers.
#[derive(Debug, PartialEq, Eq)]
pub struct Token {
    pub kind: TokenKind,
    pub span: Span,
    pub text: String,
}

/// Mathematical model of a `Token`.
pub struct TokenModel {
    pub kind: TokenKind,
    pub span: SpanModel,
    pub text: Seq<char>,
}

impl View for Token {
    type V = TokenModel;

    open spec fn view(&self) -> TokenModel {
        TokenModel { kind: self.kind, span: self.span@, text: self.text@ }
    }
}

impl Clone for Token {
    fn clone(&self) -> (r: Token)
        ensures
            r@ == self@,
    {
        Token { kind: self.kind, span: self.span.clone(), text: self.text.clone() }
    }
}

/// The models of a token sequence.
pub open spec fn token_models(ts: Seq<Token>) -> Seq<TokenModel> {
    ts.map_values(|t: Token| t@)
}

// ---------------------------------------------------------------------------
// Character classes of the token grammar.
// ---------------------------------------------------------------------------

/// Blank characters that separate tokens and produce none: space, tab and
/// form feed. Newlines are not skipped; they are tokens of their own.
pub open spec fn is_skip_char(c: char) -> bool {
    c == ' ' || c == '\t' || c == '\u{000C}'
}

pub open spec fn is_digit_char(c: char) -> bool {
    '0' <= c && c <= '9'
}

pub open spec fn is_letter_char(c: char) -> bool {
    ('a' <= c && c <= 'z') || ('A' <= c && c <= 'Z')
}

pub open spec fn is_ident_start_char(c: char) -> bool {
    is_letter_char(c) || c == '_'
}

pub open spec fn is_ident_char(c: char) -> bool {
    is_ident_start_char(c) || is_digit_char(c)
}

// ---------------------------------------------------------------------------
// Longest-match scanning, as spec functions. Each `*_end` function returns
// the index just past the matched part, or -1 where the rule cannot match.
// ---------------------------------------------------------------------------

/// End of a run of identifier characters starting at `j`.
pub open spec fn ident_run_end(s: Seq<char>, j: int) -> int
    decreases s.len() - j when 0 <= j <= s.len()
{
    if j < s.len() && is_ident_char(s[j]) {
        ident_run_end(s, j + 1)
    } else {
        j
    }
}

/// End of a run of decimal digits starting at `j`.
pub open spec fn digit_run_end(s: Seq<char>, j: int) -> int
    decreases s.len() - j when 0 <= j <= s.len()
{
    if j < s.len() && is_digit_char(s[j]) {
        digit_run_end(s, j + 1)
    } else {
        j
    }
}

/// End of a run of letters starting at `j`.
pub open spec fn letter_run_end(s: Seq<char>, j: int) -> int
    decreases s.len() - j when 0 <= j <= s.len()
{
    if j < s.len() && is_letter_char(s[j]) {
        letter_run_end(s, j + 1)
    } else {
        j
    }
}

/// End of a line comment whose `//` sits just before `j`: everything up to
/// but excluding the next newline (or the end of input).
pub open spec fn line_comment_end(s: Seq<char>, j: int) -> int
    decreases s.len() - j when 0 <= j <= s.len()
{
    if j < s.len() && s[j] != '\n' {
        line_comment_end(s, j + 1)
    } else {
        j
    }
}

/// End of a string literal whose opening quote sits just before `j`:
/// content characters are anything but a quote or backslash, or a backslash
/// followed by any character other than a newline. Returns the index just
/// past the closing quote, or -1 when the literal never closes.
pub open spec fn string_end(s: Seq<char>, j: int) -> int
    decreases s.len() - j when 0 <= j <= s.len()
{
    if j >= s.len() {
        -1
    } else if s[j] == '"' {
        j + 1
    } else if s[j] == '\\' {
        if j + 1 < s.len() && s[j + 1] != '\n' {
            string_end(s, j + 2)
        } else {
            -1
        }
    } else {
        string_end(s, j + 1)
    }
}

/// End of a block comment whose `/*` sits just before `j`: content is any
/// character but `*`, or `*` followed by something other than `/` (both
/// consumed). Returns the index just past the closing `*/`, or -1 when the
/// comment never closes under that rule.
pub open spec fn block_comment_end(s: Seq<char>, j: int) -> int
    decreases s.len() - j when 0 <= j <= s.len()
{
    if j >= s.len() {
        -1
    } else if s[j] == '*' {
        if j + 1 < s.len() {
            if s[j + 1] == '/' {
                j + 2
            } else {
                block_comment_end(s, j + 2)
            }
        } else {
            -1
        }
    } else {
        block_comment_end(s, j + 1)
    }
}

/// End of a number literal starting at the digit at `i`: digits, then an
/// optional fraction (a dot followed by at least one digit), then any run
/// of letters (which later becomes a duration unit).
pub open spec fn number_end(s: Seq<char>, i: int) -> int
    recommends 0 <= i < s.len(), is_digit_char(s[i])
{
    let j = digit_run_end(s, i + 1);
    let k = if j < s.len() && s[j] == '.' && j + 1 < s.len() && is_digit_char(s[j + 1]) {
        digit_run_end(s, j + 2)
    } else {
        j
    };
    letter_run_end(s, k)
}

/// The token kind of a word: the matching keyword, or `Identifier`.
pub open spec fn ident_kind(text: Seq<char>) -> TokenKind {
    if text == "process"@ { TokenKind::Process }
    else if text == "import"@ { TokenKind::Import }
    else if text == "from"@ { TokenKind::From }
    else if text == "as"@ { TokenKind::As }
    else if text == "subprocess"@ { TokenKind::Subprocess }
    else if text == "start"@ { TokenKind::Start }
    else if text == "end"@ { TokenKind::End }
    else if text == "task"@ { TokenKind::Task }
    else if text == "user"@ { TokenKind::User }
    else if text == "service"@ { TokenKind::Service }
    else if text == "script"@ { TokenKind::Script }
    else if text == "call"@ { TokenKind::Call }
    else if text == "xor"@ { TokenKind::Xor }
    else if text == "and"@ { TokenKind::And }
    else if text == "event"@ { TokenKind::Event }
    else if text == "group"@ { TokenKind::Group }
    else if text == "pool"@ { TokenKind::Pool }
    else if text == "lane"@ { TokenKind::Lane }
    else if text == "note"@ { TokenKind::Note }
    else { TokenKind::Identifier }
}

/// The token found at position `i` (not a blank): its kind and its length
/// in characters. Longest match, with multi-character operators tried
/// before their single-character prefixes.
pub open spec fn scan_at(s: Seq<char>, i: int) -> (TokenKind, int)
    recommends 0 <= i < s.len(), !is_skip_char(s[i])
{
    let c = s[i];
    if c == '\n' {
        (TokenKind::Newline, 1)
    } else if c == '\r' {
        if i + 1 < s.len() && s[i + 1] == '\n' {
            (TokenKind::CarriageReturnNewline, 2)
        } else {
            (TokenKind::Unknown, 1)
        }
    } else if c == '-' {
        if i + 2 < s.len() && s[i + 1] == '-' && s[i + 2] == '>' {
            (TokenKind::MessageFlow, 3)
        } else if i + 1 < s.len() && s[i + 1] == '>' {
            (TokenKind::SequenceFlow, 2)
        } else {
            (TokenKind::Unknown, 1)
        }
    } else if c == '=' {
        if i + 1 < s.len() && s[i + 1] == '>' {
            (TokenKind::DefaultFlow, 2)
        } else {
            (TokenKind::Equals, 1)
        }
    } else if c == '.' {
        if i + 2 < s.len() && s[i + 1] == '.' && s[i + 2] == '>' {
            (TokenKind::Association, 3)
        } else {
            (TokenKind::Unknown, 1)
        }
    } else if c == ':' {
        if i + 1 < s.len() && s[i + 1] == ':' {
            (TokenKind::Namespace, 2)
        } else {
            (TokenKind::Unknown, 1)
        }
    } else if c == '{' {
        (TokenKind::LeftBrace, 1)
    } else if c == '}' {
        (TokenKind::RightBrace, 1)
    } else if c == '(' {
        (TokenKind::LeftParen, 1)
    } else if c == ')' {
        (TokenKind::RightParen, 1)
    } else if c == '[' {
        (TokenKind::LeftBracket, 1)
    } else if c == ']' {
        (TokenKind::RightBracket, 1)
    } else if c == ',' {
        (TokenKind::Comma, 1)
    } else if c == '@' {
        (TokenKind::At, 1)
    } else if c == '?' {
        (TokenKind::Question, 1)
    } else if c == '"' {
        let e = string_end(s, i + 1);
        if e >= 0 {
            (TokenKind::StringLiteral, e - i)
        } else {
            (TokenKind::Unknown, 1)
        }
    } else if c == '/' {
        if i + 1 < s.len() && s[i + 1] == '/' {
            (TokenKind::LineComment, line_comment_end(s, i + 2) - i)
        } else if i + 1 < s.len() && s[i + 1] == '*' {
            let e = block_comment_end(s, i + 2);
            if e >= 0 {
                (TokenKind::BlockComment, e - i)
            } else {
                (TokenKind::Unknown, 1)
            }
        } else {
            (TokenKind::Unknown, 1)
        }
    } else if is_digit_char(c) {
        (TokenKind::NumberLiteral, number_end(s, i) - i)
    } else if is_ident_start_char(c) {
        let j = ident_run_end(s, i + 1);
        (ident_kind(s.subrange(i, j)), j - i)
    } else {
        (TokenKind::Unknown, 1)
    }
}

// ---------------------------------------------------------------------------
// Bounds of the scanning functions, needed for termination of the token
// stream definition and for the well-formedness of spans.
// ---------------------------------------------------------------------------

pub proof fn lemma_ident_run_end_bounds(s: Seq<char>, j: int)
    requires
        0 <= j <= s.len(),
    ensures
        j <= ident_run_end(s, j) <= s.len(),
    decreases s.len() - j,
{
    if j < s.len() && is_ident_char(s[j]) {
        lemma_ident_run_end_bounds(s, j + 1);
    }
}

pub proof fn lemma_digit_run_end_bounds(s: Seq<char>, j: int)
    requires
        0 <= j <= s.len(),
    ensures
        j <= digit_run_end(s, j) <= s.len(),
    decreases s.len() - j,
{
    if j < s.len() && is_digit_char(s[j]) {
        lemma_digit_run_end_bounds(s, j + 1);
    }
}

pub proof fn lemma_letter_run_end_bounds(s: Seq<char>, j: int)
    requires
        0 <= j <= s.len(),
    ensures
        j <= letter_run_end(s, j) <= s.len(),
    decreases s.len() - j,
{
    if j < s.len() && is_letter_char(s[j]) {
        lemma_letter_run_end_bounds(s, j + 1);
    }
}

pub proof fn lemma_line_comment_end_bounds(s: Seq<char>, j: int)
    requires
        0 <= j <= s.len(),
    ensures
        j <= line_comment_end(s, j) <= s.len(),
    decreases s.len() - j,
{
    if j < s.len() && s[j] != '\n' {
        lemma_line_comment_end_bounds(s, j + 1);
    }
}

pub proof fn lemma_string_end_bounds(s: Seq<char>, j: int)
    requires
        0 <= j <= s.len(),
    ensures
        string_end(s, j) == -1 || (j < string_end(s, j) <= s.len()),
    decreases s.len() - j,
{
    if j < s.len() {
        if s[j] == '"' {
        } else if s[j] == '\\' {
            if j + 1 < s.len() && s[j + 1] != '\n' {
                lemma_string_end_bounds(s, j + 2);
            }
        } else {
            lemma_string_end_bounds(s, j + 1);
        }
    }
}

pub proof fn lemma_block_comment_end_bounds(s: Seq<char>, j: int)
    requires
        0 <= j <= s.len(),
    ensures
        block_comment_end(s, j) == -1 || (j < block_comment_end(s, j) <= s.len()),
    decreases s.len() - j,
{
    if j < s.len() {
        if s[j] == '*' {
            if j + 1 < s.len() && s[j + 1] != '/' {
                lemma_block_comment_end_bounds(s, j + 2);
            }
        } else {
            lemma_block_comment_end_bounds(s, j + 1);
        }
    }
}

pub proof fn lemma_number_end_bounds(s: Seq<char>, i: int)
    requires
        0 <= i < s.len(),
        is_digit_char(s[i]),
    ensures
        i < number_end(s, i) <= s.len(),
{
    lemma_digit_run_end_bounds(s, i + 1);
    let j = digit_run_end(s, i + 1);
    if j < s.len() && s[j] == '.' && j + 1 < s.len() && is_digit_char(s[j + 1]) {
        lemma_digit_run_end_bounds(s, j + 2);
        lemma_letter_run_end_bounds(s, digit_run_end(s, j + 2));
    } else {
        lemma_letter_run_end_bounds(s, j);
    }
}

/// Every scanned token covers at least one character and stays inside the
/// input.
pub proof fn lemma_scan_at_bounds(s: Seq<char>, i: int)
    requires
        0 <= i < s.len(),
        !is_skip_char(s[i]),
    ensures
        1 <= scan_at(s, i).1,
        i + scan_at(s, i).1 <= s.len(),
{
    let c = s[i];
    if c == '"' {
        lemma_string_end_bounds(s, i + 1);
    } else if c == '/' {
        if i + 1 < s.len() && s[i + 1] == '/' {
            lemma_line_comment_end_bounds(s, i + 2);
        } else if i + 1 < s.len() && s[i + 1] == '*' {
            lemma_block_comment_end_bounds(s, i + 2);
        }
    } else if c == '\n' || c == '\r' || c == '-' || c == '=' || c == '.' || c == ':' {
    } else if is_digit_char(c) {
        lemma_number_end_bounds(s, i);
    } else if is_ident_start_char(c) {
        lemma_ident_run_end_bounds(s, i + 1);
    }
}

// ---------------------------------------------------------------------------
// Byte offsets, lines and columns.
// ---------------------------------------------------------------------------

/// The byte offset of character index `i` in `s`: the length of the UTF-8
/// encoding of the characters before it.
pub open spec fn byte_at(s: Seq<char>, i: int) -> int {
    encode_utf8(s.take(i)).len() as int
}

/// Encoding a concatenation encodes each part.
pub proof fn lemma_encode_utf8_concat(a: Seq<char>, b: Seq<char>)
    ensures
        encode_utf8(a + b) == encode_utf8(a) + encode_utf8(b),
    decreases a.len(),
{
    if a.len() == 0 {
        assert(a + b =~= b);
        assert(encode_utf8(a) + encode_utf8(b) =~= encode_utf8(b));
    } else {
        assert((a + b).drop_first() =~= a.drop_first() + b);
        lemma_encode_utf8_concat(a.drop_first(), b);
        assert(encode_utf8(a + b) =~= encode_utf8(a) + encode_utf8(b));
    }
}

/// A character encodes to one through four bytes.
pub proof fn lemma_encode_utf8_len(s: Seq<char>)
    ensures
        s.len() <= encode_utf8(s).len() <= 4 * s.len(),
    decreases s.len(),
{
    if s.len() > 0 {
        lemma_encode_utf8_len(s.drop_first());
    }
}

/// Byte offsets grow with the character index.
pub proof fn lemma_byte_at_mono(s: Seq<char>, i: int, j: int)
    requires
        0 <= i <= j <= s.len(),
    ensures
        byte_at(s, i) <= byte_at(s, j),
        byte_at(s, j) - byte_at(s, i) == encode_utf8(s.subrange(i, j)).len(),
{
    assert(s.take(j) =~= s.take(i) + s.subrange(i, j));
    lemma_encode_utf8_concat(s.take(i), s.subrange(i, j));
}

/// A byte offset is bounded by four bytes per character.
pub proof fn lemma_byte_at_bound(s: Seq<char>, i: int)
    requires
        0 <= i <= s.len(),
    ensures
        i <= byte_at(s, i) <= 4 * i,
{
    lemma_encode_utf8_len(s.take(i));
}

/// The 1-based line of character index `i`: one more than the number of
/// newline characters before it.
pub open spec fn line_of(s: Seq<char>, i: int) -> int
    decreases i when 0 <= i <= s.len()
{
    if i <= 0 {
        1
    } else {
        line_of(s, i - 1) + if s[i - 1] == '\n' { 1int } else { 0int }
    }
}

/// The 1-based column of character index `i`: the number of characters
/// since the last newline, plus one.
pub open spec fn col_of(s: Seq<char>, i: int) -> int
    decreases i when 0 <= i <= s.len()
{
    if i <= 0 {
        1
    } else if s[i - 1] == '\n' {
        1
    } else {
        col_of(s, i - 1) + 1
    }
}

pub proof fn lemma_line_col_bounds(s: Seq<char>, i: int)
    requires
        0 <= i <= s.len(),
    ensures
        1 <= line_of(s, i) <= i + 1,
        1 <= col_of(s, i) <= i + 1,
    decreases i,
{
    if i > 0 {
        lemma_line_col_bounds(s, i - 1);
    }
}

// ---------------------------------------------------------------------------
// The token stream.
// ---------------------------------------------------------------------------

/// The model of the token whose characters are `s[i .. j]`.
pub open spec fn model_at(s: Seq<char>, file: Seq<char>, i: int, j: int, kind: TokenKind) -> TokenModel {
    TokenModel {
        kind: kind,
        span: SpanModel {
            start: byte_at(s, i),
            end: byte_at(s, j),
            line: line_of(s, i),
            column: col_of(s, i),
            file: file,
        },
        text: s.subrange(i, j),
    }
}

/// The tokens of `s` from character index `i` on, without the final `Eof`.
pub open spec fn content_tokens(s: Seq<char>, file: Seq<char>, i: int) -> Seq<TokenModel>
    decreases s.len() - i when 0 <= i <= s.len() via content_tokens_decreases
{
    if i >= s.len() {
        Seq::empty()
    } else if is_skip_char(s[i]) {
        content_tokens(s, file, i + 1)
    } else {
        let (kind, len) = scan_at(s, i);
        seq![model_at(s, file, i, i + len, kind)] + content_tokens(s, file, i + len)
    }
}

#[via_fn]
proof fn content_tokens_decreases(s: Seq<char>, file: Seq<char>, i: int) {
    if 0 <= i && i < s.len() && !is_skip_char(s[i]) {
        lemma_scan_at_bounds(s, i);
    }
}

/// The line carried by the `Eof` token: starts at 1 and steps once per
/// newline token produced.
pub open spec fn eof_line(toks: Seq<TokenModel>) -> int
    decreases toks.len(),
{
    if toks.len() == 0 {
        1
    } else {
        eof_line(toks.drop_last()) + if toks.last().kind == TokenKind::Newline
            || toks.last().kind == TokenKind::CarriageReturnNewline { 1int } else { 0int }
    }
}

/// The column carried by the `Eof` token: reset by newline tokens and
/// advanced by each other token's byte width. Skipped blanks do not count,
/// so this can differ from the scanning column of the same offset.
pub open spec fn eof_col(toks: Seq<TokenModel>) -> int
    decreases toks.len(),
{
    if toks.len() == 0 {
        1
    } else if toks.last().kind == TokenKind::Newline
        || toks.last().kind == TokenKind::CarriageReturnNewline {
        1
    } else {
        eof_col(toks.drop_last()) + (toks.last().span.end - toks.last().span.start)
    }
}

/// The full token stream of an input: its content tokens, then one `Eof`
/// token whose span collapses to the byte length of the input.
pub open spec fn spec_tokenize(s: Seq<char>, file: Seq<char>) -> Seq<TokenModel> {
    let content = content_tokens(s, file, 0);
    content.push(TokenModel {
        kind: TokenKind::Eof,
        span: SpanModel {
            start: byte_at(s, s.len() as int),
            end: byte_at(s, s.len() as int),
            line: eof_line(content),
            column: eof_col(content),
            file: file,
        },
        text: Seq::empty(),
    })
}

/// The token stream of any input is non-empty and ends with one `Eof`
/// token whose span collapses to the byte length of the input. Together
/// with `tokenize`'s postcondition, this pins the law down for the
/// executable lexer as well: lexing is total and always closes the stream
/// the same way.
pub proof fn lemma_tokenize_ends_with_eof(s: Seq<char>, file: Seq<char>)
    ensures
        spec_tokenize(s, file).len() >= 1,
        spec_tokenize(s, file).last().kind == TokenKind::Eof,
        spec_tokenize(s, file).last().span.start == byte_at(s, s.len() as int),
        spec_tokenize(s, file).last().span.end == byte_at(s, s.len() as int),
        spec_tokenize(s, file).last().text.len() == 0,
{
}

// ---------------------------------------------------------------------------
// Executable scanning.
// ---------------------------------------------------------------------------

/// The characters of a string slice, as a vector.
pub(crate) fn chars_of(s: &str) -> (v: Vec<char>)
    ensures
        v@ == s@,
{
    let n = s.unicode_len();
    let mut v: Vec<char> = Vec::new();
    let mut k: usize = 0;
    while k < n
        invariant
            k <= n,
            n == s@.len(),
            v@ == s@.take(k as int),
        decreases n - k,
    {
        let c = s.get_char(k);
        v.push(c);
        proof {
            assert(s@.take(k as int).push(s@[k as int]) =~= s@.take(k as int + 1));
        }
        k = k + 1;
    }
    proof {
        assert(s@.take(n as int) =~= s@);
    }
    v
}

fn is_skip_char_ex(c: char) -> (r: bool)
    ensures
        r == is_skip_char(c),
{
    c == ' ' || c == '\t' || c == '\u{000C}'
}

fn is_digit_char_ex(c: char) -> (r: bool)
    ensures
        r == is_digit_char(c),
{
    '0' <= c && c <= '9'
}

fn is_letter_char_ex(c: char) -> (r: bool)
    ensures
        r == is_letter_char(c),
{
    ('a' <= c && c <= 'z') || ('A' <= c && c <= 'Z')
}

fn is_ident_start_char_ex(c: char) -> (r: bool)
    ensures
        r == is_ident_start_char(c),
{
    is_letter_char_ex(c) || c == '_'
}

fn is_ident_char_ex(c: char) -> (r: bool)
    ensures
        r == is_ident_char(c),
{
    is_ident_start_char_ex(c) || is_digit_char_ex(c)
}

fn ident_run_end_ex(s: &Vec<char>, j0: usize) -> (r: usize)
    requires
        j0 <= s@.len(),
    ensures
        r as int == ident_run_end(s@, j0 as int),
        j0 <= r <= s@.len(),
{
    let mut j = j0;
    while j < s.len() && is_ident_char_ex(s[j])
        invariant
            j0 <= j <= s@.len(),
            ident_run_end(s@, j0 as int) == ident_run_end(s@, j as int),
        decreases s@.len() - j,
    {
        j = j + 1;
    }
    j
}

pub(crate) fn digit_run_end_ex(s: &Vec<char>, j0: usize) -> (r: usize)
    requires
        j0 <= s@.len(),
    ensures
        r as int == digit_run_end(s@, j0 as int),
        j0 <= r <= s@.len(),
{
    let mut j = j0;
    while j < s.len() && is_digit_char_ex(s[j])
        invariant
            j0 <= j <= s@.len(),
            digit_run_end(s@, j0 as int) == digit_run_end(s@, j as int),
        decreases s@.len() - j,
    {
        j = j + 1;
    }
    j
}

fn letter_run_end_ex(s: &Vec<char>, j0: usize) -> (r: usize)
    requires
        j0 <= s@.len(),
    ensures
        r as int == letter_run_end(s@, j0 as int),
        j0 <= r <= s@.len(),
{
    let mut j = j0;
    while j < s.len() && is_letter_char_ex(s[j])
        invariant
            j0 <= j <= s@.len(),
            letter_run_end(s@, j0 as int) == letter_run_end(s@, j as int),
        decreases s@.len() - j,
    {
        j = j + 1;
    }
    j
}

fn line_comment_end_ex(s: &Vec<char>, j0: usize) -> (r: usize)
    requires
        j0 <= s@.len(),
    ensures
        r as int == line_comment_end(s@, j0 as int),
        j0 <= r <= s@.len(),
{
    let mut j = j0;
    while j < s.len() && s[j] != '\n'
        invariant
            j0 <= j <= s@.len(),
            line_comment_end(s@, j0 as int) == line_comment_end(s@, j as int),
        decreases s@.len() - j,
    {
        j = j + 1;
    }
    j
}

/// Scans a string literal body; returns whether it closes and, if so, the
/// index just past the closing quote.
fn string_end_ex(s: &Vec<char>, j0: usize) -> (r: (bool, usize))
    requires
        j0 <= s@.len(),
    ensures
        r.0 ==> r.1 as int == string_end(s@, j0 as int) && j0 < r.1 <= s@.len(),
        !r.0 ==> string_end(s@, j0 as int) == -1,
{
    let mut j = j0;
    loop
        invariant
            j0 <= j <= s@.len(),
            string_end(s@, j0 as int) == string_end(s@, j as int),
        decreases s@.len() - j,
    {
        if j >= s.len() {
            return (false, 0);
        }
        let c = s[j];
        if c == '"' {
            return (true, j + 1);
        }
        if c == '\\' {
            if j + 1 < s.len() && s[j + 1] != '\n' {
                j = j + 2;
            } else {
                return (false, 0);
            }
        } else {
            j = j + 1;
        }
    }
}

/// Scans a block comment body; returns whether it closes and, if so, the
/// index just past the closing `*/`.
fn block_comment_end_ex(s: &Vec<char>, j0: usize) -> (r: (bool, usize))
    requires
        j0 <= s@.len(),
    ensures
        r.0 ==> r.1 as int == block_comment_end(s@, j0 as int) && j0 < r.1 <= s@.len(),
        !r.0 ==> block_comment_end(s@, j0 as int) == -1,
{
    let mut j = j0;
    loop
        invariant
            j0 <= j <= s@.len(),
            block_comment_end(s@, j0 as int) == block_comment_end(s@, j as int),
        decreases s@.len() - j,
    {
        if j >= s.len() {
            return (false, 0);
        }
        if s[j] == '*' {
            if j + 1 < s.len() {
                if s[j + 1] == '/' {
                    return (true, j + 2);
                } else {
                    j = j + 2;
                }
            } else {
                return (false, 0);
            }
        } else {
            j = j + 1;
        }
    }
}

/// Whether the characters `s[lo .. hi]` spell exactly the literal `lit`.
fn range_eq_lit(s: &Vec<char>, lo: usize, hi: usize, lit: &str) -> (r: bool)
    requires
        lo <= hi <= s@.len(),
    ensures
        r == (s@.subrange(lo as int, hi as int) == lit@),
{
    let n = lit.unicode_len();
    if hi - lo != n {
        proof {
            assert(s@.subrange(lo as int, hi as int).len() != lit@.len());
        }
        return false;
    }
    let mut k: usize = 0;
    while k < n
        invariant
            k <= n,
            n == lit@.len(),
            lo <= hi <= s@.len(),
            hi - lo == n,
            forall|m: int| 0 <= m < k ==> s@.subrange(lo as int, hi as int)[m] == lit@[m],
        decreases n - k,
    {
        if s[lo + k] != lit.get_char(k) {
            proof {
                assert(s@.subrange(lo as int, hi as int)[k as int] != lit@[k as int]);
            }
            return false;
        }
        k = k + 1;
    }
    proof {
        assert(s@.subrange(lo as int, hi as int) =~= lit@);
    }
    true
}

/// The token kind of the word `s[lo .. hi]`: a keyword or an identifier.
fn ident_kind_of(s: &Vec<char>, lo: usize, hi: usize) -> (r: TokenKind)
    requires
        lo <= hi <= s@.len(),
    ensures
        r == ident_kind(s@.subrange(lo as int, hi as int)),
{
    if range_eq_lit(s, lo, hi, "process") { TokenKind::Process }
    else if range_eq_lit(s, lo, hi, "import") { TokenKind::Import }
    else if range_eq_lit(s, lo, hi, "from") { TokenKind::From }
    else if range_eq_lit(s, lo, hi, "as") { TokenKind::As }
    else if range_eq_lit(s, lo, hi, "subprocess") { TokenKind::Subprocess }
    else if range_eq_lit(s, lo, hi, "start") { TokenKind::Start }
    else if range_eq_lit(s, lo, hi, "end") { TokenKind::End }
    else if range_eq_lit(s, lo, hi, "task") { TokenKind::Task }
    else if range_eq_lit(s, lo, hi, "user") { TokenKind::User }
    else if range_eq_lit(s, lo, hi, "service") { TokenKind::Service }
    else if range_eq_lit(s, lo, hi, "script") { TokenKind::Script }
    else if range_eq_lit(s, lo, hi, "call") { TokenKind::Call }
    else if range_eq_lit(s, lo, hi, "xor") { TokenKind::Xor }
    else if range_eq_lit(s, lo, hi, "and") { TokenKind::And }
    else if range_eq_lit(s, lo, hi, "event") { TokenKind::Event }
    else if range_eq_lit(s, lo, hi, "group") { TokenKind::Group }
    else if range_eq_lit(s, lo, hi, "pool") { TokenKind::Pool }
    else if range_eq_lit(s, lo, hi, "lane") { TokenKind::Lane }
    else if range_eq_lit(s, lo, hi, "note") { TokenKind::Note }
    else { TokenKind::Identifier }
}

/// Finds the token at character index `i`, returning its kind and its
/// length in characters.
fn scan_token(s: &Vec<char>, i: usize) -> (r: (TokenKind, usize))
    requires
        i < s@.len(),
        4 * s@.len() + 4 <= usize::MAX,
        !is_skip_char(s@[i as int]),
    ensures
        r.0 == scan_at(s@, i as int).0,
        r.1 as int == scan_at(s@, i as int).1,
        1 <= r.1,
        i + r.1 <= s@.len(),
{
    proof {
        lemma_scan_at_bounds(s@, i as int);
    }
    let c = s[i];
    if c == '\n' {
        (TokenKind::Newline, 1)
    } else if c == '\r' {
        if i + 1 < s.len() && s[i + 1] == '\n' {
            (TokenKind::CarriageReturnNewline, 2)
        } else {
            (TokenKind::Unknown, 1)
        }
    } else if c == '-' {
        if i + 2 < s.len() && s[i + 1] == '-' && s[i + 2] == '>' {
            (TokenKind::MessageFlow, 3)
        } else if i + 1 < s.len() && s[i + 1] == '>' {
            (TokenKind::SequenceFlow, 2)
        } else {
            (TokenKind::Unknown, 1)
        }
    } else if c == '=' {
        if i + 1 < s.len() && s[i + 1] == '>' {
            (TokenKind::DefaultFlow, 2)
        } else {
            (TokenKind::Equals, 1)
        }
    } else if c == '.' {
        if i + 2 < s.len() && s[i + 1] == '.' && s[i + 2] == '>' {
            (TokenKind::Association, 3)
        } else {
            (TokenKind::Unknown, 1)
        }
    } else if c == ':' {
        if i + 1 < s.len() && s[i + 1] == ':' {
            (TokenKind::Namespace, 2)
        } else {
            (TokenKind::Unknown, 1)
        }
    } else if c == '{' {
        (TokenKind::LeftBrace, 1)
    } else if c == '}' {
        (TokenKind::RightBrace, 1)
    } else if c == '(' {
        (TokenKind::LeftParen, 1)
    } else if c == ')' {
        (TokenKind::RightParen, 1)
    } else if c == '[' {
        (TokenKind::LeftBracket, 1)
    } else if c == ']' {
        (TokenKind::RightBracket, 1)
    } else if c == ',' {
        (TokenKind::Comma, 1)
    } else if c == '@' {
        (TokenKind::At, 1)
    } else if c == '?' {
        (TokenKind::Question, 1)
    } else if c == '"' {
        let (closed, e) = string_end_ex(s, i + 1);
        if closed {
            (TokenKind::StringLiteral, e - i)
        } else {
            (TokenKind::Unknown, 1)
        }
    } else if c == '/' {
        if i + 1 < s.len() && s[i + 1] == '/' {
            let e = line_comment_end_ex(s, i + 2);
            (TokenKind::LineComment, e - i)
        } else if i + 1 < s.len() && s[i + 1] == '*' {
            let (closed, e) = block_comment_end_ex(s, i + 2);
            if closed {
                (TokenKind::BlockComment, e - i)
            } else {
                (TokenKind::Unknown, 1)
            }
        } else {
            (TokenKind::Unknown, 1)
        }
    } else if is_digit_char_ex(c) {
        let j = digit_run_end_ex(s, i + 1);
        let k = if j < s.len() && s[j] == '.' && j + 1 < s.len() && is_digit_char_ex(s[j + 1]) {
            digit_run_end_ex(s, j + 2)
        } else {
            j
        };
        let e = letter_run_end_ex(s, k);
        (TokenKind::NumberLiteral, e - i)
    } else if is_ident_start_char_ex(c) {
        let j = ident_run_end_ex(s, i + 1);
        (ident_kind_of(s, i, j), j - i)
    } else {
        (TokenKind::Unknown, 1)
    }
}

/// The line and column of character index `i`, found by scanning all
/// preceding characters.
fn position_of(s: &Vec<char>, i: usize) -> (r: (usize, usize))
    requires
        i <= s@.len(),
        4 * s@.len() + 4 <= usize::MAX,
    ensures
        r.0 as int == line_of(s@, i as int),
        r.1 as int == col_of(s@, i as int),
{
    let mut line: usize = 1;
    let mut col: usize = 1;
    let mut k: usize = 0;
    while k < i
        invariant
            k <= i <= s@.len(),
            4 * s@.len() + 4 <= usize::MAX,
            line as int == line_of(s@, k as int),
            col as int == col_of(s@, k as int),
        decreases i - k,
    {
        proof {
            lemma_line_col_bounds(s@, k as int);
        }
        if s[k] == '\n' {
            line = line + 1;
            col = 1;
        } else {
            col = col + 1;
        }
        k = k + 1;
    }
    (line, col)
}

/// The byte offset of character index `i` of `input`.
fn byte_offset(input: &str, i: usize) -> (r: usize)
    requires
        i <= input@.len(),
        4 * input@.len() + 4 <= usize::MAX,
    ensures
        r as int == byte_at(input@, i as int),
{
    let sub = input.substring_char(0, i);
    proof {
        assert(sub@ =~= input@.take(i as int));
        lemma_encode_utf8_len(input@.take(i as int));
    }
    sub.len()
}

proof fn lemma_token_models_push(ts: Seq<Token>, t: Token)
    ensures
        token_models(ts.push(t)) == token_models(ts).push(t@),
{
    assert(token_models(ts.push(t)) =~= token_models(ts).push(t@));
}

/// The lexer: holds the input text and the path it was read from.
pub struct Lexer {
    pub input: String,
    pub file_path: String,
}

impl Lexer {
    pub fn new(input: &str, file_path: &str) -> (r: Lexer)
        ensures
            r.input@ == input@,
            r.file_path@ == file_path@,
    {
        Lexer { input: input.to_owned(), file_path: file_path.to_owned() }
    }

    /// Turns the whole input into tokens. Total: every character lands in
    /// some token, unmatched ones as `Unknown`, and the stream always ends
    /// with one `Eof` token whose span collapses to the end-of-input byte
    /// offset. The result is a function of the input text and file path
    /// alone, so equal inputs give equal token streams.
    pub fn tokenize(&self) -> (r: Vec<Token>)
        requires
            4 * self.input@.len() + 4 <= usize::MAX,
        ensures
            token_models(r@) == spec_tokenize(self.input@, self.file_path@),
            r@.len() >= 1,
            r@.last().kind == TokenKind::Eof,
            r@.last().span.start == byte_at(self.input@, self.input@.len() as int),
            r@.last().span.end == byte_at(self.input@, self.input@.len() as int),
    {
        let ghost f = self.file_path@;
        let s = chars_of(self.input.as_str());
        let n = s.len();
        let mut toks: Vec<Token> = Vec::new();
        let mut i: usize = 0;
        let mut eofl: usize = 1;
        let mut eofc: usize = 1;
        proof {
            assert(token_models(toks@) =~= Seq::<TokenModel>::empty());
            assert(content_tokens(s@, f, 0) =~=
                token_models(toks@) + content_tokens(s@, f, 0));
        }
        while i < n
            invariant
                i <= n,
                n == s@.len(),
                s@ == self.input@,
                f == self.file_path@,
                4 * self.input@.len() + 4 <= usize::MAX,
                content_tokens(s@, f, 0) == token_models(toks@) + content_tokens(s@, f, i as int),
                eofl as int == eof_line(token_models(toks@)),
                eofc as int == eof_col(token_models(toks@)),
                eofl as int <= 1 + i as int,
                eofc as int <= 1 + byte_at(s@, i as int),
            decreases n - i,
        {
            if is_skip_char_ex(s[i]) {
                proof {
                    assert(content_tokens(s@, f, i as int) == content_tokens(s@, f, i as int + 1));
                    lemma_byte_at_mono(s@, i as int, i as int + 1);
                }
                i = i + 1;
            } else {
                let (kind, len) = scan_token(&s, i);
                let start_b = byte_offset(self.input.as_str(), i);
                let end_b = byte_offset(self.input.as_str(), i + len);
                let (line, col) = position_of(&s, i);
                let text = self.input.as_str().substring_char(i, i + len).to_owned();
                let tok = Token {
                    kind,
                    span: Span {
                        start: start_b,
                        end: end_b,
                        line,
                        column: col,
                        file: self.file_path.clone(),
                    },
                    text,
                };
                proof {
                    assert(tok@ == model_at(s@, f, i as int, i as int + len as int, kind));
                    assert(content_tokens(s@, f, i as int) ==
                        seq![model_at(s@, f, i as int, i as int + len as int, kind)]
                            + content_tokens(s@, f, i as int + len as int));
                    lemma_token_models_push(toks@, tok);
                    assert(token_models(toks@).push(tok@) + content_tokens(s@, f, i as int + len as int)
                        =~= token_models(toks@) + content_tokens(s@, f, i as int));
                    lemma_byte_at_mono(s@, i as int, i as int + len as int);
                    lemma_byte_at_bound(s@, i as int + len as int);
                    assert(token_models(toks@.push(tok)).drop_last() =~= token_models(toks@));
                }
                toks.push(tok);
                if kind == TokenKind::Newline || kind == TokenKind::CarriageReturnNewline {
                    eofl = eofl + 1;
                    eofc = 1;
                } else {
                    eofc = eofc + (end_b - start_b);
                }
                i = i + len;
            }
        }
        proof {
            assert(content_tokens(s@, f, n as int) =~= Seq::<TokenModel>::empty());
            assert(token_models(toks@) + content_tokens(s@, f, n as int) =~= token_models(toks@));
            assert(token_models(toks@) == content_tokens(s@, f, 0));
        }
        let end_b = byte_offset(self.input.as_str(), n);
        let eof_tok = Token {
            kind: TokenKind::Eof,
            span: Span {
                start: end_b,
                end: end_b,
                line: eofl,
                column: eofc,
                file: self.file_path.clone(),
            },
            text: String::new(),
        };
        proof {
            lemma_token_models_push(toks@, eof_tok);
        }
        toks.push(eof_tok);
        proof {
            assert(token_models(toks@) == spec_tokenize(self.input@, self.file_path@));
        }
        toks
    }
}

} // verus!
