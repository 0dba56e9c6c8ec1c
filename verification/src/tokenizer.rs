//! Lexical scanner: turns a source-text buffer into a stream of tokens.
//!
//! The grammar is a single prioritized alternation, evaluated greedily from
//! the current position; the first alternative that matches is taken, in
//! this order: number, symbol, string, block, whitespace (with comments),
//! unterminated string, clipped token at end of input, boolean, dot, quote
//! mark. The spec functions below state the grammar; the scanner is proved
//! to produce exactly the tokens they describe.

use vstd::prelude::*;
use vstd::std_specs::iter::IteratorSpec;

verus! {

broadcast use vstd::string::axiom_spec_iter, vstd::string::next_postcondition;

/// An opening or closing parenthesis.
#[derive(Debug, PartialEq, Eq, Structural, Copy, Clone)]
pub enum Block {
    Start,
    End,
}

/// A reader shorthand mark; only the quote mark `'` exists.
#[derive(Debug, PartialEq, Eq, Structural, Copy, Clone)]
pub enum Mark {
    Quote,
}

/// One lexical token. String, symbol and number tokens carry the raw text
/// they were scanned from; string escapes are passed through unresolved.
#[derive(Debug, PartialEq, Eq, Clone)]
pub enum Token {
    Block(Block),
    TString(String),
    Symbol(String),
    Number(String),
    Bool(bool),
    Dot,
    Mark(Mark),
}

/// The mathematical value of a token: the same shape, with text as a
/// sequence of characters.
pub enum TokenView {
    Block(Block),
    TString(Seq<char>),
    Symbol(Seq<char>),
    Number(Seq<char>),
    Bool(bool),
    Dot,
    Mark(Mark),
}

impl View for Token {
    type V = TokenView;

    open spec fn view(&self) -> TokenView {
        match self {
            Token::Block(b) => TokenView::Block(*b),
            Token::TString(s) => TokenView::TString(s@),
            Token::Symbol(s) => TokenView::Symbol(s@),
            Token::Number(s) => TokenView::Number(s@),
            Token::Bool(b) => TokenView::Bool(*b),
            Token::Dot => TokenView::Dot,
            Token::Mark(m) => TokenView::Mark(*m),
        }
    }
}

/// A failure that ends a scan: the input stopped in the middle of a token
/// that could only have continued, or no grammar rule matches at all.
#[derive(Debug, PartialEq, Eq, Structural, Copy, Clone)]
pub enum TokenizerError {
    UnexpectedEndOfFile,
    UnknownToken,
}

// ---------------------------------------------------------------------------
// Character classes of the lexical grammar (ASCII, as in the grammar).
// ---------------------------------------------------------------------------

/// Whitespace characters: space, tab, newline, vertical tab, form feed,
/// carriage return.
pub open spec fn is_space_char(c: char) -> bool {
    c == ' ' || c == '\t' || c == '\n' || c == '\x0b' || c == '\x0c' || c == '\r'
}

/// Decimal digits.
pub open spec fn is_digit_char(c: char) -> bool {
    48 <= c as int && c as int <= 57
}

/// ASCII letters.
pub open spec fn is_alpha_char(c: char) -> bool {
    (65 <= c as int && c as int <= 90) || (97 <= c as int && c as int <= 122)
}

/// The special initial characters a symbol may start with.
pub open spec fn is_special_initial(c: char) -> bool {
    c == '!' || c == '$' || c == '%' || c == '&' || c == '*' || c == '/' || c == ':' || c == '<'
        || c == '=' || c == '>' || c == '?' || c == '^' || c == '_' || c == '~'
}

/// A character that may start a normal symbol.
pub open spec fn is_initial_char(c: char) -> bool {
    is_alpha_char(c) || is_special_initial(c)
}

/// The extra characters a symbol may continue with.
pub open spec fn is_special_subsequent(c: char) -> bool {
    c == '+' || c == '.' || c == '@' || c == '-'
}

/// A character that may continue a normal symbol.
pub open spec fn is_subsequent_char(c: char) -> bool {
    is_digit_char(c) || is_initial_char(c) || is_special_subsequent(c)
}

/// A delimiter character: whitespace, parenthesis, string quote, or the
/// start of a comment.
pub open spec fn is_delim_char(c: char) -> bool {
    is_space_char(c) || c == '(' || c == ')' || c == '"' || c == ';'
}

/// Position `i` of `s` delimits a token: it is past the end of the input or
/// holds a delimiter character. The delimiter itself is never consumed.
pub open spec fn delim_at(s: Seq<char>, i: int) -> bool
    recommends
        0 <= i,
{
    i >= s.len() || is_delim_char(s[i])
}

// ---------------------------------------------------------------------------
// Maximal runs, from a given position.
// ---------------------------------------------------------------------------

/// The end of the run of digits starting at `i`.
pub open spec fn digits_end(s: Seq<char>, i: int) -> int
    recommends
        0 <= i <= s.len(),
    decreases s.len() - i,
{
    if i < s.len() && is_digit_char(s[i]) {
        digits_end(s, i + 1)
    } else {
        i
    }
}

/// The end of the run of symbol-subsequent characters starting at `i`.
pub open spec fn subsequent_end(s: Seq<char>, i: int) -> int
    recommends
        0 <= i <= s.len(),
    decreases s.len() - i,
{
    if i < s.len() && is_subsequent_char(s[i]) {
        subsequent_end(s, i + 1)
    } else {
        i
    }
}

/// The end of the run of whitespace and comments starting at `i`. Inside a
/// comment every character up to the next newline belongs to the run; the
/// newline itself is whitespace and also consumed.
pub open spec fn ws_end(s: Seq<char>, i: int, in_comment: bool) -> int
    recommends
        0 <= i <= s.len(),
    decreases s.len() - i,
{
    if i >= s.len() {
        i
    } else if in_comment {
        ws_end(s, i + 1, s[i] != '\n')
    } else if is_space_char(s[i]) {
        ws_end(s, i + 1, false)
    } else if s[i] == ';' {
        ws_end(s, i + 1, true)
    } else {
        i
    }
}

/// The end of a string body starting at `i` (just after the opening quote):
/// the body extends over characters other than quote, backslash and newline,
/// and over backslash escapes of any character except a newline. The result
/// is the position of the first character that cannot belong to the body.
pub open spec fn body_end(s: Seq<char>, i: int) -> int
    recommends
        0 <= i <= s.len(),
    decreases s.len() - i,
{
    if i >= s.len() {
        i
    } else if s[i] == '"' || s[i] == '\n' {
        i
    } else if s[i] == '\\' {
        if i + 2 <= s.len() && s[i + 1] != '\n' {
            body_end(s, i + 2)
        } else {
            i
        }
    } else {
        body_end(s, i + 1)
    }
}

proof fn lemma_digits_end_bounds(s: Seq<char>, i: int)
    requires
        0 <= i <= s.len(),
    ensures
        i <= digits_end(s, i) <= s.len(),
    decreases s.len() - i,
{
    if i < s.len() && is_digit_char(s[i]) {
        lemma_digits_end_bounds(s, i + 1);
    }
}

proof fn lemma_subsequent_end_bounds(s: Seq<char>, i: int)
    requires
        0 <= i <= s.len(),
    ensures
        i <= subsequent_end(s, i) <= s.len(),
    decreases s.len() - i,
{
    if i < s.len() && is_subsequent_char(s[i]) {
        lemma_subsequent_end_bounds(s, i + 1);
    }
}

proof fn lemma_ws_end_bounds(s: Seq<char>, i: int, in_comment: bool)
    requires
        0 <= i <= s.len(),
    ensures
        i <= ws_end(s, i, in_comment) <= s.len(),
    decreases s.len() - i,
{
    if i < s.len() {
        if in_comment {
            lemma_ws_end_bounds(s, i + 1, s[i] != '\n');
        } else if is_space_char(s[i]) {
            lemma_ws_end_bounds(s, i + 1, false);
        } else if s[i] == ';' {
            lemma_ws_end_bounds(s, i + 1, true);
        }
    }
}

proof fn lemma_body_end_bounds(s: Seq<char>, i: int)
    requires
        0 <= i <= s.len(),
    ensures
        i <= body_end(s, i) <= s.len(),
    decreases s.len() - i,
{
    if i < s.len() {
        if s[i] == '"' || s[i] == '\n' {
        } else if s[i] == '\\' {
            if i + 2 <= s.len() && s[i + 1] != '\n' {
                lemma_body_end_bounds(s, i + 2);
            }
        } else {
            lemma_body_end_bounds(s, i + 1);
        }
    }
}

// ---------------------------------------------------------------------------
// The grammar alternatives, at position `i` of input `s`.
// ---------------------------------------------------------------------------

/// Where the sign of a number at `i` ends: one past a leading `+`/`-`.
pub open spec fn sign_end(s: Seq<char>, i: int) -> int
    recommends
        0 <= i <= s.len(),
{
    if i < s.len() && (s[i] == '+' || s[i] == '-') {
        i + 1
    } else {
        i
    }
}

/// Where a number token starting at `i` would end.
pub open spec fn number_end(s: Seq<char>, i: int) -> int
    recommends
        0 <= i <= s.len(),
{
    digits_end(s, sign_end(s, i))
}

/// A number matches at `i`: an optional sign, at least one digit, and a
/// delimiter right after the digits.
pub open spec fn number_matches(s: Seq<char>, i: int) -> bool
    recommends
        0 <= i <= s.len(),
{
    number_end(s, i) > sign_end(s, i) && delim_at(s, number_end(s, i))
}

/// Where a symbol token starting at `i` would end, assuming one matches:
/// the subsequent run after a normal initial character, three characters
/// for `...`, or a single `+`/`-`.
pub open spec fn symbol_end(s: Seq<char>, i: int) -> int
    recommends
        0 <= i < s.len(),
{
    if is_initial_char(s[i]) {
        subsequent_end(s, i + 1)
    } else if i + 3 <= s.len() && s[i] == '.' && s[i + 1] == '.' && s[i + 2] == '.' {
        i + 3
    } else {
        i + 1
    }
}

/// A symbol matches at `i`: a normal symbol (initial then subsequents), or
/// one of the odd symbols `+`, `-`, `...`; either must be followed by a
/// delimiter.
pub open spec fn symbol_matches(s: Seq<char>, i: int) -> bool
    recommends
        0 <= i <= s.len(),
{
    i < s.len() && {
        if is_initial_char(s[i]) {
            delim_at(s, subsequent_end(s, i + 1))
        } else if s[i] == '+' || s[i] == '-' {
            delim_at(s, i + 1)
        } else if i + 3 <= s.len() && s[i] == '.' && s[i + 1] == '.' && s[i + 2] == '.' {
            delim_at(s, i + 3)
        } else {
            false
        }
    }
}

/// A complete string literal matches at `i`: an opening quote, a body, and
/// a closing quote.
pub open spec fn good_string_matches(s: Seq<char>, i: int) -> bool
    recommends
        0 <= i <= s.len(),
{
    i < s.len() && s[i] == '"' && body_end(s, i + 1) < s.len() && s[body_end(s, i + 1)] == '"'
}

/// An unterminated string at `i`: an opening quote whose body runs to the
/// end of the input, possibly with a trailing lone backslash.
pub open spec fn bad_eof_string_matches(s: Seq<char>, i: int) -> bool
    recommends
        0 <= i <= s.len(),
{
    i < s.len() && s[i] == '"' && {
        let p = body_end(s, i + 1);
        p == s.len() || (s[p] == '\\' && p + 1 == s.len())
    }
}

/// An unambiguous prefix of a longer token, cut short by the end of the
/// input: exactly `..` or a lone `#` at the very end.
pub open spec fn clipped_matches(s: Seq<char>, i: int) -> bool
    recommends
        0 <= i <= s.len(),
{
    (i + 2 == s.len() && s[i] == '.' && s[i + 1] == '.') || (i + 1 == s.len() && s[i] == '#')
}

/// A boolean literal `#t` or `#f` followed by a delimiter.
pub open spec fn boolean_matches(s: Seq<char>, i: int) -> bool
    recommends
        0 <= i <= s.len(),
{
    i + 2 <= s.len() && s[i] == '#' && (s[i + 1] == 't' || s[i + 1] == 'f') && delim_at(s, i + 2)
}

/// A dot followed by a delimiter.
pub open spec fn dot_matches(s: Seq<char>, i: int) -> bool
    recommends
        0 <= i <= s.len(),
{
    i < s.len() && s[i] == '.' && delim_at(s, i + 1)
}

// ---------------------------------------------------------------------------
// One scanning step, and the token stream it induces.
// ---------------------------------------------------------------------------

/// The outcome of one scanning step at a position: a token ending at
/// `next`, a whitespace run ending at `next`, the end of the input, or a
/// failure.
pub enum StepView {
    Token { t: TokenView, next: int },
    Whitespace { next: int },
    EndOfInput,
    Failure(TokenizerError),
}

/// The grammar's single prioritized alternation: what one scanning step at
/// position `i` of `s` produces. Alternatives are tried in the fixed order
/// of the grammar and the first match wins.
pub open spec fn next_step(s: Seq<char>, i: int) -> StepView
    recommends
        0 <= i <= s.len(),
{
    if i >= s.len() {
        StepView::EndOfInput
    } else if number_matches(s, i) {
        StepView::Token { t: TokenView::Number(s.subrange(i, number_end(s, i))), next: number_end(s, i) }
    } else if symbol_matches(s, i) {
        StepView::Token { t: TokenView::Symbol(s.subrange(i, symbol_end(s, i))), next: symbol_end(s, i) }
    } else if good_string_matches(s, i) {
        StepView::Token {
            t: TokenView::TString(s.subrange(i + 1, body_end(s, i + 1))),
            next: body_end(s, i + 1) + 1,
        }
    } else if s[i] == '(' {
        StepView::Token { t: TokenView::Block(Block::Start), next: i + 1 }
    } else if s[i] == ')' {
        StepView::Token { t: TokenView::Block(Block::End), next: i + 1 }
    } else if is_space_char(s[i]) || s[i] == ';' {
        StepView::Whitespace { next: ws_end(s, i, false) }
    } else if bad_eof_string_matches(s, i) {
        StepView::Failure(TokenizerError::UnexpectedEndOfFile)
    } else if clipped_matches(s, i) {
        StepView::Failure(TokenizerError::UnexpectedEndOfFile)
    } else if boolean_matches(s, i) {
        StepView::Token { t: TokenView::Bool(s[i + 1] == 't'), next: i + 2 }
    } else if dot_matches(s, i) {
        StepView::Token { t: TokenView::Dot, next: i + 1 }
    } else if s[i] == '\'' {
        StepView::Token { t: TokenView::Mark(Mark::Quote), next: i + 1 }
    } else {
        StepView::Failure(TokenizerError::UnknownToken)
    }
}

/// Every step of the grammar stays within the input and, except at the end
/// of the input, makes progress.
pub proof fn lemma_next_step_bounds(s: Seq<char>, i: int)
    requires
        0 <= i <= s.len(),
    ensures
        next_step(s, i) matches StepView::Token { next, .. } ==> i < next <= s.len(),
        next_step(s, i) matches StepView::Whitespace { next } ==> i < next <= s.len(),
{
    if i < s.len() {
        lemma_digits_end_bounds(s, sign_end(s, i));
        if i + 1 <= s.len() {
            lemma_subsequent_end_bounds(s, i + 1);
            lemma_body_end_bounds(s, i + 1);
        }
        lemma_ws_end_bounds(s, i + 1, s[i] != '\n');
        lemma_ws_end_bounds(s, i + 1, false);
        lemma_ws_end_bounds(s, i + 1, true);
    }
}

/// What the whole scan yields from position `i` on: the next real token and
/// the position after it, the clean end of the input, or a failure.
/// Whitespace is skipped silently.
pub enum ScanNext {
    Tok { t: TokenView, next: int },
    End,
    Fail(TokenizerError),
}

/// The next token of the stream at position `i`, skipping whitespace.
pub open spec fn scan_next(s: Seq<char>, i: int) -> ScanNext
    recommends
        0 <= i <= s.len(),
    decreases s.len() - i
        when 0 <= i <= s.len()
        via scan_next_decreases
{
    match next_step(s, i) {
        StepView::EndOfInput => ScanNext::End,
        StepView::Whitespace { next } => scan_next(s, next),
        StepView::Token { t, next } => ScanNext::Tok { t, next },
        StepView::Failure(e) => ScanNext::Fail(e),
    }
}

#[via_fn]
proof fn scan_next_decreases(s: Seq<char>, i: int) {
    lemma_next_step_bounds(s, i);
}

/// The token stream from position `i` to the end of the input, or the
/// failure that cuts it short.
pub open spec fn scan_tokens(s: Seq<char>, i: int) -> Result<Seq<TokenView>, TokenizerError>
    recommends
        0 <= i <= s.len(),
    decreases s.len() - i
        when 0 <= i <= s.len()
        via scan_tokens_decreases
{
    match next_step(s, i) {
        StepView::EndOfInput => Ok(seq![]),
        StepView::Whitespace { next } => scan_tokens(s, next),
        StepView::Token { t, next } => match scan_tokens(s, next) {
            Ok(ts) => Ok(seq![t] + ts),
            Err(e) => Err(e),
        },
        StepView::Failure(e) => Err(e),
    }
}

#[via_fn]
proof fn scan_tokens_decreases(s: Seq<char>, i: int) {
    lemma_next_step_bounds(s, i);
}

/// The next token and the whole stream agree: the stream from `i` is empty
/// where the scan ends, fails where the scan fails, and otherwise starts
/// with the scanned token, followed by the stream from just after it. So a
/// caller that repeatedly takes the next token walks exactly the stream
/// `scan_tokens` describes.
pub proof fn lemma_scan_next_tokens(s: Seq<char>, i: int)
    requires
        0 <= i <= s.len(),
    ensures
        scan_next(s, i) matches ScanNext::End ==> scan_tokens(s, i) == Ok::<
            Seq<TokenView>,
            TokenizerError,
        >(seq![]),
        scan_next(s, i) matches ScanNext::Fail(e) ==> scan_tokens(s, i) == Err::<
            Seq<TokenView>,
            TokenizerError,
        >(e),
        scan_next(s, i) matches ScanNext::Tok { t, next } ==> (i < next <= s.len()
            && match scan_tokens(s, next) {
            Ok(ts) => scan_tokens(s, i) == Ok::<Seq<TokenView>, TokenizerError>(seq![t] + ts),
            Err(e) => scan_tokens(s, i) == Err::<Seq<TokenView>, TokenizerError>(e),
        }),
    decreases s.len() - i,
{
    lemma_next_step_bounds(s, i);
    match next_step(s, i) {
        StepView::Whitespace { next } => {
            lemma_scan_next_tokens(s, next);
        },
        _ => {},
    }
}

// ---------------------------------------------------------------------------
// Laws of the grammar.
// ---------------------------------------------------------------------------

proof fn lemma_ws_end_all_space(s: Seq<char>, i: int)
    requires
        0 <= i <= s.len(),
        forall|k: int| i <= k < s.len() ==> is_space_char(s[k]),
    ensures
        ws_end(s, i, false) == s.len(),
    decreases s.len() - i,
{
    if i < s.len() {
        lemma_ws_end_all_space(s, i + 1);
    }
}

/// Law: an input text composed only of whitespace characters scans to the
/// empty token stream, with no error.
pub proof fn lemma_whitespace_scans_empty(s: Seq<char>)
    requires
        forall|k: int| 0 <= k < s.len() ==> is_space_char(s[k]),
    ensures
        scan_tokens(s, 0) == Ok::<Seq<TokenView>, TokenizerError>(Seq::<TokenView>::empty()),
{
    assert(Seq::<TokenView>::empty() =~= seq![]);
    if s.len() > 0 {
        lemma_ws_end_all_space(s, 0);
        assert(next_step(s, 0) matches StepView::Whitespace { next } && next == s.len());
        assert(scan_tokens(s, s.len() as int) == Ok::<Seq<TokenView>, TokenizerError>(seq![]));
        assert(scan_tokens(s, 0) == scan_tokens(s, s.len() as int));
    }
}

proof fn lemma_subsequent_run(s: Seq<char>, i: int, e: int)
    requires
        0 <= i <= e <= s.len(),
        forall|k: int| i <= k < e ==> is_subsequent_char(s[k]),
        e == s.len() || !is_subsequent_char(s[e]),
    ensures
        subsequent_end(s, i) == e,
    decreases e - i,
{
    if i < e {
        lemma_subsequent_run(s, i + 1, e);
    }
}

/// The shape of a symbol's text: a normal symbol (an initial character
/// followed by subsequent characters) or one of the odd symbols `+`, `-`,
/// `...`.
pub open spec fn symbol_shaped(t: Seq<char>) -> bool {
    ||| (t.len() >= 1 && is_initial_char(t[0]) && forall|k: int|
        1 <= k < t.len() ==> is_subsequent_char(t[k]))
    ||| t == seq!['+']
    ||| t == seq!['-']
    ||| t == seq!['.', '.', '.']
}

/// Law: when the input starts with symbol-shaped text followed immediately
/// by a delimiter (a parenthesis, whitespace, a string quote, a comment
/// start, or the end of the input), the scan yields exactly one Symbol
/// token spanning that text, and the delimiter is not consumed. When the
/// text is the whole input, the symbol is the whole token stream.
pub proof fn lemma_symbol_scan(s: Seq<char>, t: Seq<char>)
    requires
        symbol_shaped(t),
        t.len() <= s.len(),
        s.subrange(0, t.len() as int) == t,
        delim_at(s, t.len() as int),
    ensures
        scan_next(s, 0) matches ScanNext::Tok { t: tok, next }
            && tok == TokenView::Symbol(t)
            && next == t.len(),
        t.len() == s.len() ==> (scan_tokens(s, 0) matches Ok(ts)
            && ts == seq![TokenView::Symbol(t)]),
{
    let len = t.len() as int;
    assert(forall|k: int| 0 <= k < len ==> s[k] == t[k]);
    if t.len() >= 1 && is_initial_char(t[0]) && (forall|k: int|
        1 <= k < t.len() ==> is_subsequent_char(t[k])) {
        lemma_subsequent_run(s, 1, len);
        assert(!number_matches(s, 0));
        assert(symbol_matches(s, 0));
        assert(symbol_end(s, 0) == len);
    } else if t == seq!['.', '.', '.'] {
        assert(s[0] == '.' && s[1] == '.' && s[2] == '.');
        assert(!number_matches(s, 0));
        assert(symbol_matches(s, 0));
        assert(symbol_end(s, 0) == len);
    } else {
        assert(s[0] == '+' || s[0] == '-');
        assert(digits_end(s, 1) == 1);
        assert(!number_matches(s, 0));
        assert(symbol_matches(s, 0));
        assert(symbol_end(s, 0) == len);
    }
    assert(s.subrange(0, symbol_end(s, 0)) == t);
    if t.len() == s.len() {
        assert(scan_tokens(s, len) == Ok::<Seq<TokenView>, TokenizerError>(seq![]));
        assert(seq![TokenView::Symbol(t)] + seq![] =~= seq![TokenView::Symbol(t)]);
    }
}

// ---------------------------------------------------------------------------
// Executable character classification.
// ---------------------------------------------------------------------------

fn is_space(c: char) -> (b: bool)
    ensures
        b == is_space_char(c),
{
    c == ' ' || c == '\t' || c == '\n' || c == '\x0b' || c == '\x0c' || c == '\r'
}

fn is_digit(c: char) -> (b: bool)
    ensures
        b == is_digit_char(c),
{
    let u: u32 = c as u32;
    48 <= u && u <= 57
}

fn is_initial(c: char) -> (b: bool)
    ensures
        b == is_initial_char(c),
{
    let u: u32 = c as u32;
    (65 <= u && u <= 90) || (97 <= u && u <= 122) || c == '!' || c == '$' || c == '%' || c == '&'
        || c == '*' || c == '/' || c == ':' || c == '<' || c == '=' || c == '>' || c == '?'
        || c == '^' || c == '_' || c == '~'
}

fn is_subsequent(c: char) -> (b: bool)
    ensures
        b == is_subsequent_char(c),
{
    is_digit(c) || is_initial(c) || c == '+' || c == '.' || c == '@' || c == '-'
}

fn is_delim(c: char) -> (b: bool)
    ensures
        b == is_delim_char(c),
{
    is_space(c) || c == '(' || c == ')' || c == '"' || c == ';'
}

/// Whether position `i` delimits a token: past the end, or a delimiter.
fn delim_here(chars: &Vec<char>, i: usize) -> (b: bool)
    requires
        i <= chars@.len(),
    ensures
        b == delim_at(chars@, i as int),
{
    i == chars.len() || is_delim(chars[i])
}

// ---------------------------------------------------------------------------
// Executable maximal runs.
// ---------------------------------------------------------------------------

fn scan_digits(chars: &Vec<char>, from: usize) -> (r: usize)
    requires
        from <= chars@.len(),
    ensures
        r == digits_end(chars@, from as int),
        from <= r <= chars@.len(),
{
    let n: usize = chars.len();
    let mut j: usize = from;
    while j < n && is_digit(chars[j])
        invariant
            from <= j <= n,
            n == chars@.len(),
            digits_end(chars@, from as int) == digits_end(chars@, j as int),
        decreases n - j,
    {
        j = j + 1;
    }
    j
}

fn scan_subsequents(chars: &Vec<char>, from: usize) -> (r: usize)
    requires
        from <= chars@.len(),
    ensures
        r == subsequent_end(chars@, from as int),
        from <= r <= chars@.len(),
{
    let n: usize = chars.len();
    let mut j: usize = from;
    while j < n && is_subsequent(chars[j])
        invariant
            from <= j <= n,
            n == chars@.len(),
            subsequent_end(chars@, from as int) == subsequent_end(chars@, j as int),
        decreases n - j,
    {
        j = j + 1;
    }
    j
}

fn scan_ws(chars: &Vec<char>, from: usize) -> (r: usize)
    requires
        from <= chars@.len(),
    ensures
        r == ws_end(chars@, from as int, false),
        from <= r <= chars@.len(),
{
    let n: usize = chars.len();
    let mut j: usize = from;
    let mut in_comment: bool = false;
    loop
        invariant
            from <= j <= n,
            n == chars@.len(),
            ws_end(chars@, from as int, false) == ws_end(chars@, j as int, in_comment),
        ensures
            from <= j <= n,
            ws_end(chars@, from as int, false) == j as int,
        decreases n - j,
    {
        if j == n {
            break;
        }
        let c = chars[j];
        if in_comment {
            in_comment = c != '\n';
            j = j + 1;
        } else if is_space(c) {
            j = j + 1;
        } else if c == ';' {
            in_comment = true;
            j = j + 1;
        } else {
            break;
        }
    }
    j
}

fn scan_body(chars: &Vec<char>, from: usize) -> (r: usize)
    requires
        from <= chars@.len(),
    ensures
        r == body_end(chars@, from as int),
        from <= r <= chars@.len(),
{
    let n: usize = chars.len();
    let mut j: usize = from;
    loop
        invariant
            from <= j <= n,
            n == chars@.len(),
            body_end(chars@, from as int) == body_end(chars@, j as int),
        ensures
            from <= j <= n,
            body_end(chars@, from as int) == j as int,
        decreases n - j,
    {
        if j == n {
            break;
        }
        let c = chars[j];
        if c == '"' || c == '\n' {
            break;
        }
        if c == '\\' {
            if j + 1 < n && chars[j + 1] != '\n' {
                j = j + 2;
            } else {
                break;
            }
        } else {
            j = j + 1;
        }
    }
    j
}

/// The text of the input between two positions, as an owned string.
fn substring(chars: &Vec<char>, from: usize, to: usize) -> (r: String)
    requires
        from <= to <= chars@.len(),
    ensures
        r@ == chars@.subrange(from as int, to as int),
{
    let mut r = String::new();
    let mut j: usize = from;
    while j < to
        invariant
            from <= j <= to <= chars@.len(),
            r@ == chars@.subrange(from as int, j as int),
        decreases to - j,
    {
        r.push(chars[j]);
        j = j + 1;
        proof {
            assert(r@ =~= chars@.subrange(from as int, j as int));
        }
    }
    r
}

// ---------------------------------------------------------------------------
// The scanner.
// ---------------------------------------------------------------------------

/// What one scanning step yields internally: a real token, the end of the
/// input, or a whitespace run that the token stream silently discards.
enum InternalToken {
    PublicToken(Token),
    EndOfFile,
    Whitespace,
}

impl InternalToken {
    /// Whether the token stream discards this step silently.
    fn can_ignore(&self) -> (b: bool)
        ensures
            b == (self is Whitespace),
    {
        match self {
            InternalToken::PublicToken(_) => false,
            InternalToken::EndOfFile => false,
            InternalToken::Whitespace => true,
        }
    }

    /// The public token of this step, if it carries one.
    fn into_option(self) -> (r: Option<Token>)
        ensures
            match self {
                InternalToken::PublicToken(t) => r matches Some(t2) && t2 == t,
                _ => r is None,
            },
    {
        match self {
            InternalToken::PublicToken(token) => Some(token),
            _ => None,
        }
    }

    /// The public token of a step known to carry one.
    fn into_public(self) -> (t: Token)
        requires
            self is PublicToken,
        ensures
            self matches InternalToken::PublicToken(t2) && t2 == t,
    {
        match self.into_option() {
            Some(t) => t,
            None => vstd::pervasive::unreached(),
        }
    }
}

/// The scanner: a position in a source-text buffer, advanced token by
/// token. `input()` is the whole text and `pos()` the current position.
pub struct Tokenizer {
    chars: Vec<char>,
    pos: usize,
}

impl Tokenizer {
    /// The whole source text this scanner walks over.
    pub closed spec fn input(&self) -> Seq<char> {
        self.chars@
    }

    /// The current position of the scan within the input.
    pub closed spec fn pos(&self) -> int {
        self.pos as int
    }

    /// The position never leaves the input.
    pub open spec fn wf(&self) -> bool {
        0 <= self.pos() <= self.input().len()
    }

    /// A scanner at the start of the given source text.
    pub fn new(input: &str) -> (t: Tokenizer)
        ensures
            t.wf(),
            t.input() == input@,
            t.pos() == 0,
    {
        let mut chars: Vec<char> = Vec::new();
        let mut it = input.chars();
        loop
            invariant
                chars@ + it.remaining() == input@,
            ensures
                chars@ + it.remaining() == input@,
                it.remaining().len() == 0,
            decreases input@.len() - chars@.len(),
        {
            match it.next() {
                Some(c) => chars.push(c),
                None => break,
            }
        }
        proof {
            assert(chars@ =~= input@);
        }
        Tokenizer { chars, pos: 0 }
    }

    /// One step of the scan: the token or whitespace run at the current
    /// position, exactly as the grammar describes it, advancing past what
    /// was matched; or the end of the input or a failure, leaving the
    /// scanner where it stood.
    fn gen_token(&mut self) -> (r: Result<InternalToken, TokenizerError>)
        requires
            old(self).wf(),
        ensures
            final(self).wf(),
            final(self).input() == old(self).input(),
            match next_step(old(self).input(), old(self).pos()) {
                StepView::EndOfInput => r matches Ok(t) && t is EndOfFile && *final(self)
                    == *old(self),
                StepView::Whitespace { next } => r matches Ok(t) && t is Whitespace
                    && final(self).pos() == next,
                StepView::Token { t, next } => r matches Ok(it) && it matches
                    InternalToken::PublicToken(tok) && tok@ == t && final(self).pos() == next,
                StepView::Failure(e) => r matches Err(e2) && e2 == e && *final(self) == *old(self),
            },
    {
        let i: usize = self.pos;
        let n: usize = self.chars.len();
        if i == n {
            return Ok(InternalToken::EndOfFile);
        }
        let c = self.chars[i];

        // Number: optional sign, digits, then a delimiter.
        let sj: usize = if c == '+' || c == '-' {
            i + 1
        } else {
            i
        };
        let de: usize = scan_digits(&self.chars, sj);
        if de > sj && delim_here(&self.chars, de) {
            let text = substring(&self.chars, i, de);
            self.pos = de;
            return Ok(InternalToken::PublicToken(Token::Number(text)));
        }

        if is_initial(c) {
            // Normal symbol: initial, subsequents, then a delimiter.
            let se = scan_subsequents(&self.chars, i + 1);
            if delim_here(&self.chars, se) {
                let text = substring(&self.chars, i, se);
                self.pos = se;
                return Ok(InternalToken::PublicToken(Token::Symbol(text)));
            }
            return Err(TokenizerError::UnknownToken);
        } else if c == '+' || c == '-' {
            // Odd symbol `+` or `-`: alone before a delimiter.
            if delim_here(&self.chars, i + 1) {
                let text = substring(&self.chars, i, i + 1);
                self.pos = i + 1;
                return Ok(InternalToken::PublicToken(Token::Symbol(text)));
            }
            return Err(TokenizerError::UnknownToken);
        } else if c == '.' {
            if n - i >= 3 && self.chars[i + 1] == '.' && self.chars[i + 2] == '.' {
                // Odd symbol `...` before a delimiter.
                if delim_here(&self.chars, i + 3) {
                    let text = substring(&self.chars, i, i + 3);
                    self.pos = i + 3;
                    return Ok(InternalToken::PublicToken(Token::Symbol(text)));
                }
                return Err(TokenizerError::UnknownToken);
            } else if n - i == 2 && self.chars[i + 1] == '.' {
                // `..` clipped by the end of the input.
                return Err(TokenizerError::UnexpectedEndOfFile);
            } else if delim_here(&self.chars, i + 1) {
                self.pos = i + 1;
                return Ok(InternalToken::PublicToken(Token::Dot));
            }
            return Err(TokenizerError::UnknownToken);
        } else if c == '"' {
            let be = scan_body(&self.chars, i + 1);
            if be < n && self.chars[be] == '"' {
                // Complete string literal; the token body excludes the quotes.
                let text = substring(&self.chars, i + 1, be);
                self.pos = be + 1;
                return Ok(InternalToken::PublicToken(Token::TString(text)));
            }
            if be == n || (self.chars[be] == '\\' && be + 1 == n) {
                // The input ends inside the string.
                return Err(TokenizerError::UnexpectedEndOfFile);
            }
            return Err(TokenizerError::UnknownToken);
        } else if c == '(' {
            self.pos = i + 1;
            return Ok(InternalToken::PublicToken(Token::Block(Block::Start)));
        } else if c == ')' {
            self.pos = i + 1;
            return Ok(InternalToken::PublicToken(Token::Block(Block::End)));
        } else if is_space(c) || c == ';' {
            let w = scan_ws(&self.chars, i);
            self.pos = w;
            return Ok(InternalToken::Whitespace);
        } else if c == '#' {
            if i + 1 == n {
                // A lone `#` clipped by the end of the input.
                return Err(TokenizerError::UnexpectedEndOfFile);
            }
            let c2 = self.chars[i + 1];
            if (c2 == 't' || c2 == 'f') && delim_here(&self.chars, i + 2) {
                self.pos = i + 2;
                return Ok(InternalToken::PublicToken(Token::Bool(c2 == 't')));
            }
            return Err(TokenizerError::UnknownToken);
        } else if c == '\'' {
            self.pos = i + 1;
            return Ok(InternalToken::PublicToken(Token::Mark(Mark::Quote)));
        }
        Err(TokenizerError::UnknownToken)
    }

    /// The next token of the stream: whitespace and comments are skipped
    /// silently, the scan stops cleanly at the end of the input, and a
    /// failure is handed to the caller exactly as the grammar classifies
    /// it.
    pub fn next(&mut self) -> (r: Option<Result<Token, TokenizerError>>)
        requires
            old(self).wf(),
        ensures
            final(self).wf(),
            final(self).input() == old(self).input(),
            match scan_next(old(self).input(), old(self).pos()) {
                ScanNext::Tok { t, next } => r matches Some(Ok(tok)) && tok@ == t
                    && final(self).pos() == next,
                ScanNext::End => r is None && final(self).pos() == final(self).input().len(),
                ScanNext::Fail(e) => r matches Some(Err(e2)) && e2 == e,
            },
    {
        loop
            invariant
                self.wf(),
                self.input() == old(self).input(),
                scan_next(self.input(), self.pos()) == scan_next(
                    old(self).input(),
                    old(self).pos(),
                ),
            decreases self.input().len() - self.pos(),
        {
            proof {
                lemma_next_step_bounds(self.input(), self.pos());
            }
            match self.gen_token() {
                Ok(tok) => {
                    if !tok.can_ignore() {
                        match tok {
                            InternalToken::EndOfFile => {
                                return None;
                            },
                            _ => {
                                return Some(Ok(tok.into_public()));
                            },
                        }
                    }
                },
                Err(e) => {
                    return Some(Err(e));
                },
            }
        }
    }
}

} // verus!
