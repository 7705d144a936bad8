use vstd::prelude::*;

use vstd::std_specs::iter::IteratorSpec;

use crate::error::{RuntimeError, SpecRuntimeError};
use crate::token::{tokens_view, SpecToken, Token, TokenValue};

verus! {

broadcast use vstd::string::axiom_spec_iter, vstd::string::next_postcondition;

// ===========================================================================
// The mathematical model of scanning.
//
// `spec_scan` maps a source text (a sequence of characters) to either the
// exact sequence of tokens the scanner produces, ending in `Eof`, or the
// exact lexical error it reports.  `Scanner::scan_tokens` is proved to
// return precisely this value.
// ===========================================================================
/// An ASCII decimal digit.
pub open spec fn is_digit(c: char) -> bool {
    '0' <= c && c <= '9'
}

/// An ASCII letter or underscore: the characters that may start an
/// identifier.
pub open spec fn is_alpha(c: char) -> bool {
    ('a' <= c && c <= 'z') || ('A' <= c && c <= 'Z') || c == '_'
}

/// A character that may continue an identifier.
pub open spec fn is_ident_char(c: char) -> bool {
    is_alpha(c) || is_digit(c)
}

/// The first position at or after `i` that does not hold a digit (the end
/// of the maximal digit run starting at `i`).
pub open spec fn digits_end(s: Seq<char>, i: int) -> int
    decreases s.len() - i,
{
    if i < 0 || i >= s.len() || !is_digit(s[i]) {
        i
    } else {
        digits_end(s, i + 1)
    }
}

/// The first position at or after `i` that does not hold an identifier
/// character.
pub open spec fn ident_end(s: Seq<char>, i: int) -> int
    decreases s.len() - i,
{
    if i < 0 || i >= s.len() || !is_ident_char(s[i]) {
        i
    } else {
        ident_end(s, i + 1)
    }
}

/// The first position at or after `i` that holds a newline, or the length
/// of the text if there is none (the end of an inline comment).
pub open spec fn line_end(s: Seq<char>, i: int) -> int
    decreases s.len() - i,
{
    if i < 0 || i >= s.len() || s[i] == '\n' {
        i
    } else {
        line_end(s, i + 1)
    }
}

/// The first position at or after `i` that holds a double quote, or the
/// length of the text if there is none (the closing quote of a string).
pub open spec fn quote_end(s: Seq<char>, i: int) -> int
    decreases s.len() - i,
{
    if i < 0 || i >= s.len() || s[i] == '"' {
        i
    } else {
        quote_end(s, i + 1)
    }
}

/// The line and column counters after advancing over `s[i..j)`: a newline
/// increments the line and resets the column, any other character
/// increments the column.
pub open spec fn adv_lc(s: Seq<char>, i: int, j: int, line: nat, col: nat) -> (nat, nat)
    decreases j - i,
{
    if i < 0 || i >= j || j > s.len() {
        (line, col)
    } else if s[i] == '\n' {
        adv_lc(s, i + 1, j, line + 1, 0)
    } else {
        adv_lc(s, i + 1, j, line, col + 1)
    }
}

/// The keyword kind spelled by `lex`, if any (case-sensitive).
pub open spec fn keyword_kind(lex: Seq<char>) -> Option<TokenValue> {
    if lex == "and"@ {
        Some(TokenValue::And)
    } else if lex == "class"@ {
        Some(TokenValue::Class)
    } else if lex == "else"@ {
        Some(TokenValue::Else)
    } else if lex == "false"@ {
        Some(TokenValue::False)
    } else if lex == "for"@ {
        Some(TokenValue::For)
    } else if lex == "fun"@ {
        Some(TokenValue::Fun)
    } else if lex == "if"@ {
        Some(TokenValue::If)
    } else if lex == "nil"@ {
        Some(TokenValue::Nil)
    } else if lex == "or"@ {
        Some(TokenValue::Or)
    } else if lex == "print"@ {
        Some(TokenValue::Print)
    } else if lex == "return"@ {
        Some(TokenValue::Return)
    } else if lex == "super"@ {
        Some(TokenValue::Super)
    } else if lex == "this"@ {
        Some(TokenValue::This)
    } else if lex == "true"@ {
        Some(TokenValue::True)
    } else if lex == "var"@ {
        Some(TokenValue::Var)
    } else if lex == "while"@ {
        Some(TokenValue::While)
    } else {
        None
    }
}

/// The outcome of classifying one character position: characters consumed
/// with no token (whitespace, newlines, comments), a token, or a lexical
/// error.  `next` is the first position not consumed; `line` and `col` are
/// the counters after consuming.
pub enum SpecStep {
    Skip { next: int, line: nat, col: nat },
    Tok { token: SpecToken, next: int, line: nat, col: nat },
    Fail { err: SpecRuntimeError },
}

/// One single-character token.
pub open spec fn punct_step(v: TokenValue, c: char, i: int, line: nat, col: nat) -> SpecStep {
    SpecStep::Tok {
        token: SpecToken { value: v, lexeme: seq![c], line },
        next: i + 1,
        line,
        col: col + 1,
    }
}

/// A one-or-two-character operator: the two-character form exactly when the
/// next character is `=` (maximal munch, one character of lookahead).
pub open spec fn two_char_step(
    s: Seq<char>,
    one: TokenValue,
    two: TokenValue,
    c: char,
    i: int,
    line: nat,
    col: nat,
) -> SpecStep {
    if i + 1 < s.len() && s[i + 1] == '=' {
        SpecStep::Tok {
            token: SpecToken { value: two, lexeme: seq![c, '='], line },
            next: i + 2,
            line,
            col: col + 2,
        }
    } else {
        punct_step(one, c, i, line, col)
    }
}

/// The scanner's step: what scanning does at position `i`.
pub open spec fn spec_step(s: Seq<char>, i: int, line: nat, col: nat) -> SpecStep {
    if i < 0 || i >= s.len() {
        SpecStep::Skip { next: i + 1, line, col }
    } else {
        let c = s[i];
        if c == ' ' || c == '\r' || c == '\t' {
            SpecStep::Skip { next: i + 1, line, col: col + 1 }
        } else if c == '\n' {
            SpecStep::Skip { next: i + 1, line: line + 1, col: 0 }
        } else if c == '(' {
            punct_step(TokenValue::LeftParen, c, i, line, col)
        } else if c == ')' {
            punct_step(TokenValue::RightParen, c, i, line, col)
        } else if c == '{' {
            punct_step(TokenValue::LeftBrace, c, i, line, col)
        } else if c == '}' {
            punct_step(TokenValue::RightBrace, c, i, line, col)
        } else if c == ',' {
            punct_step(TokenValue::Comma, c, i, line, col)
        } else if c == '.' {
            punct_step(TokenValue::Dot, c, i, line, col)
        } else if c == '-' {
            punct_step(TokenValue::Minus, c, i, line, col)
        } else if c == '+' {
            punct_step(TokenValue::Plus, c, i, line, col)
        } else if c == ';' {
            punct_step(TokenValue::Semicolon, c, i, line, col)
        } else if c == '*' {
            punct_step(TokenValue::Star, c, i, line, col)
        } else if c == '!' {
            two_char_step(s, TokenValue::Bang, TokenValue::BangEqual, c, i, line, col)
        } else if c == '=' {
            two_char_step(s, TokenValue::Equal, TokenValue::EqualEqual, c, i, line, col)
        } else if c == '>' {
            two_char_step(s, TokenValue::Greater, TokenValue::GreaterEqual, c, i, line, col)
        } else if c == '<' {
            two_char_step(s, TokenValue::Less, TokenValue::LessEqual, c, i, line, col)
        } else if c == '/' {
            if i + 1 < s.len() && s[i + 1] == '/' {
                let j = line_end(s, i);
                SpecStep::Skip { next: j, line, col: (col + (j - i)) as nat }
            } else {
                punct_step(TokenValue::Slash, c, i, line, col)
            }
        } else if c == '"' {
            let q = quote_end(s, i + 1);
            if q >= s.len() {
                SpecStep::Fail {
                    err: SpecRuntimeError::ScanError {
                        line,
                        column: col,
                        offset: i as nat,
                        message: "Unterminated string"@,
                    },
                }
            } else {
                let lc = adv_lc(s, i, q + 1, line, col);
                SpecStep::Tok {
                    token: SpecToken {
                        value: TokenValue::StringLit,
                        lexeme: s.subrange(i + 1, q),
                        line,
                    },
                    next: q + 1,
                    line: lc.0,
                    col: lc.1,
                }
            }
        } else if is_digit(c) {
            let j = digits_end(s, i);
            let k = if j < s.len() && s[j] == '.' && j + 1 < s.len() && is_digit(s[j + 1]) {
                digits_end(s, j + 1)
            } else {
                j
            };
            SpecStep::Tok {
                token: SpecToken { value: TokenValue::Number, lexeme: s.subrange(i, k), line },
                next: k,
                line,
                col: (col + (k - i)) as nat,
            }
        } else if is_alpha(c) {
            let j = ident_end(s, i);
            let lex = s.subrange(i, j);
            let v = match keyword_kind(lex) {
                Some(kw) => kw,
                None => TokenValue::Identifier,
            };
            SpecStep::Tok {
                token: SpecToken { value: v, lexeme: lex, line },
                next: j,
                line,
                col: (col + (j - i)) as nat,
            }
        } else {
            SpecStep::Fail {
                err: SpecRuntimeError::ScanError {
                    line,
                    column: col,
                    offset: i as nat,
                    message: "Unexpected character"@,
                },
            }
        }
    }
}

/// The `Eof` sentinel appended when the cursor reaches the end of input.
pub open spec fn eof_token(line: nat) -> SpecToken {
    SpecToken { value: TokenValue::Eof, lexeme: Seq::empty(), line }
}

/// `x` clamped into `[lo, hi]` (used only to make termination of the scan
/// model manifest; the steps stay inside the bounds, so the clamp never
/// changes a value).
pub open spec fn clampi(x: int, lo: int, hi: int) -> int {
    if x < lo {
        lo
    } else if x > hi {
        hi
    } else {
        x
    }
}

/// The token stream (or lexical error) produced by scanning `s` from
/// position `i` with the given line and column counters.
pub open spec fn spec_scan_at(s: Seq<char>, i: int, line: nat, col: nat) -> Result<
    Seq<SpecToken>,
    SpecRuntimeError,
>
    decreases s.len() - i,
{
    if i < 0 || i >= s.len() {
        Ok(seq![eof_token(line)])
    } else {
        match spec_step(s, i, line, col) {
            SpecStep::Skip { next, line: l2, col: c2 } => spec_scan_at(
                s,
                clampi(next, i + 1, s.len() as int),
                l2,
                c2,
            ),
            SpecStep::Tok { token, next, line: l2, col: c2 } => match spec_scan_at(
                s,
                clampi(next, i + 1, s.len() as int),
                l2,
                c2,
            ) {
                Ok(rest) => Ok(seq![token] + rest),
                Err(e) => Err(e),
            },
            SpecStep::Fail { err } => Err(err),
        }
    }
}

/// The token stream (or lexical error) produced by scanning the whole text
/// `s`, starting at line 1, column 0.
pub open spec fn spec_scan(s: Seq<char>) -> Result<Seq<SpecToken>, SpecRuntimeError> {
    spec_scan_at(s, 0, 1, 0)
}

/// A token stream with `prefix` already emitted and `rest` still to come.
pub open spec fn scan_compose(
    prefix: Seq<SpecToken>,
    rest: Result<Seq<SpecToken>, SpecRuntimeError>,
) -> Result<Seq<SpecToken>, SpecRuntimeError> {
    match rest {
        Ok(ts) => Ok(prefix + ts),
        Err(e) => Err(e),
    }
}

// ===========================================================================
// Bounds of the maximal-run helpers and of the step.
// ===========================================================================
pub proof fn lemma_digits_end(s: Seq<char>, i: int)
    requires
        0 <= i <= s.len(),
    ensures
        i <= digits_end(s, i) <= s.len(),
        forall|k: int| i <= k < digits_end(s, i) ==> is_digit(s[k]),
        digits_end(s, i) < s.len() ==> !is_digit(s[digits_end(s, i)]),
    decreases s.len() - i,
{
    if i < s.len() && is_digit(s[i]) {
        lemma_digits_end(s, i + 1);
    }
}

pub proof fn lemma_ident_end(s: Seq<char>, i: int)
    requires
        0 <= i <= s.len(),
    ensures
        i <= ident_end(s, i) <= s.len(),
        forall|k: int| i <= k < ident_end(s, i) ==> is_ident_char(s[k]),
        ident_end(s, i) < s.len() ==> !is_ident_char(s[ident_end(s, i)]),
    decreases s.len() - i,
{
    if i < s.len() && is_ident_char(s[i]) {
        lemma_ident_end(s, i + 1);
    }
}

pub proof fn lemma_line_end(s: Seq<char>, i: int)
    requires
        0 <= i <= s.len(),
    ensures
        i <= line_end(s, i) <= s.len(),
        forall|k: int| i <= k < line_end(s, i) ==> s[k] != '\n',
        line_end(s, i) < s.len() ==> s[line_end(s, i)] == '\n',
    decreases s.len() - i,
{
    if i < s.len() && s[i] != '\n' {
        lemma_line_end(s, i + 1);
    }
}

pub proof fn lemma_quote_end(s: Seq<char>, i: int)
    requires
        0 <= i <= s.len(),
    ensures
        i <= quote_end(s, i) <= s.len(),
        forall|k: int| i <= k < quote_end(s, i) ==> s[k] != '"',
        quote_end(s, i) < s.len() ==> s[quote_end(s, i)] == '"',
    decreases s.len() - i,
{
    if i < s.len() && s[i] != '"' {
        lemma_quote_end(s, i + 1);
    }
}

/// Advancing over `s[i..j+1)` is advancing over `s[i..j)` and then over the
/// single character `s[j]`.
pub proof fn lemma_adv_lc_snoc(s: Seq<char>, i: int, j: int, line: nat, col: nat)
    requires
        0 <= i <= j < s.len(),
    ensures
        adv_lc(s, i, j + 1, line, col) == (if s[j] == '\n' {
            (adv_lc(s, i, j, line, col).0 + 1, 0 as nat)
        } else {
            (adv_lc(s, i, j, line, col).0, adv_lc(s, i, j, line, col).1 + 1)
        }),
    decreases j - i,
{
    if i < j {
        if s[i] == '\n' {
            lemma_adv_lc_snoc(s, i + 1, j, line + 1, 0);
        } else {
            lemma_adv_lc_snoc(s, i + 1, j, line, col + 1);
        }
    } else {
        assert(adv_lc(s, i, j, line, col) == (line, col));
        if s[j] == '\n' {
            assert(adv_lc(s, j + 1, j + 1, line + 1, 0) == (line + 1, 0 as nat));
        } else {
            assert(adv_lc(s, j + 1, j + 1, line, col + 1) == (line, col + 1));
        }
    }
}

/// Every step that consumes input consumes at least one character and stays
/// inside the text, so the clamp in `spec_scan_at` never changes a value.
pub proof fn lemma_step_bounds(s: Seq<char>, i: int, line: nat, col: nat)
    requires
        0 <= i < s.len(),
    ensures
        match spec_step(s, i, line, col) {
            SpecStep::Skip { next, .. } => i < next <= s.len(),
            SpecStep::Tok { next, .. } => i < next <= s.len(),
            SpecStep::Fail { .. } => true,
        },
{
    let c = s[i];
    if c == '/' && i + 1 < s.len() && s[i + 1] == '/' {
        lemma_line_end(s, i);
    } else if c == '"' {
        lemma_quote_end(s, i + 1);
    } else if is_digit(c) {
        lemma_digits_end(s, i);
        let j = digits_end(s, i);
        if j < s.len() && s[j] == '.' && j + 1 < s.len() && is_digit(s[j + 1]) {
            lemma_digits_end(s, j + 1);
        }
    } else if is_alpha(c) {
        lemma_ident_end(s, i);
    }
}

/// No step emits an `Eof` token: the sentinel comes only from reaching the
/// end of the input.
pub proof fn lemma_step_not_eof(s: Seq<char>, i: int, line: nat, col: nat)
    ensures
        match spec_step(s, i, line, col) {
            SpecStep::Tok { token, .. } => token.value != TokenValue::Eof,
            _ => true,
        },
{
}

pub proof fn lemma_scan_at_eof(s: Seq<char>, i: int, line: nat, col: nat)
    ensures
        match spec_scan_at(s, i, line, col) {
            Ok(ts) => ts.len() >= 1 && ts[ts.len() - 1].value == TokenValue::Eof && (forall|k: int|
                0 <= k < ts.len() - 1 ==> ts[k].value != TokenValue::Eof),
            Err(_) => true,
        },
    decreases s.len() - i,
{
    if i < 0 || i >= s.len() {
    } else {
        match spec_step(s, i, line, col) {
            SpecStep::Skip { next, line: l2, col: c2 } => {
                lemma_scan_at_eof(s, clampi(next, i + 1, s.len() as int), l2, c2);
            },
            SpecStep::Tok { token, next, line: l2, col: c2 } => {
                lemma_step_not_eof(s, i, line, col);
                lemma_scan_at_eof(s, clampi(next, i + 1, s.len() as int), l2, c2);
            },
            SpecStep::Fail { .. } => {},
        }
    }
}

/// Law: scanning any input that succeeds yields a token stream that ends
/// with `Eof`, and `Eof` appears nowhere else in it.  (That scanning always
/// terminates is inherent: the scan model and the scanner both consume at
/// least one character per step.)
pub proof fn lemma_scan_ends_with_single_eof(s: Seq<char>)
    ensures
        match spec_scan(s) {
            Ok(ts) => ts.len() >= 1 && ts[ts.len() - 1].value == TokenValue::Eof && (forall|k: int|
                0 <= k < ts.len() - 1 ==> ts[k].value != TokenValue::Eof),
            Err(_) => true,
        },
{
    lemma_scan_at_eof(s, 0, 1, 0);
}

// ===========================================================================
// Round-trip idempotence: scanning is context-free per token.
// ===========================================================================
/// The shape of a number lexeme with integer part of length `d`: digits,
/// optionally followed by a decimal point and at least one more digit.
pub open spec fn num_wf_at(lex: Seq<char>, d: int) -> bool {
    &&& 1 <= d <= lex.len()
    &&& (forall|k: int| 0 <= k < d ==> is_digit(#[trigger] lex[k]))
    &&& (d == lex.len() || (d + 1 < lex.len() && lex[d] == '.' && (forall|k: int|
        d < k < lex.len() ==> is_digit(#[trigger] lex[k]))))
}

/// The shape of a number lexeme.
pub open spec fn num_wf(lex: Seq<char>) -> bool {
    exists|d: int| num_wf_at(lex, d)
}

/// The lexical shape of each token kind's lexeme, as the scanner produces
/// it.  A string literal's lexeme carries no constraint here: its quote
/// boundaries are not part of the lexeme.
pub open spec fn wf_lexeme(v: TokenValue, lex: Seq<char>) -> bool {
    match v {
        TokenValue::LeftParen => lex == seq!['('],
        TokenValue::RightParen => lex == seq![')'],
        TokenValue::LeftBrace => lex == seq!['{'],
        TokenValue::RightBrace => lex == seq!['}'],
        TokenValue::Comma => lex == seq![','],
        TokenValue::Dot => lex == seq!['.'],
        TokenValue::Minus => lex == seq!['-'],
        TokenValue::Plus => lex == seq!['+'],
        TokenValue::Semicolon => lex == seq![';'],
        TokenValue::Slash => lex == seq!['/'],
        TokenValue::Star => lex == seq!['*'],
        TokenValue::Bang => lex == seq!['!'],
        TokenValue::BangEqual => lex == seq!['!', '='],
        TokenValue::Equal => lex == seq!['='],
        TokenValue::EqualEqual => lex == seq!['=', '='],
        TokenValue::Greater => lex == seq!['>'],
        TokenValue::GreaterEqual => lex == seq!['>', '='],
        TokenValue::Less => lex == seq!['<'],
        TokenValue::LessEqual => lex == seq!['<', '='],
        TokenValue::Identifier => {
            &&& lex.len() >= 1
            &&& is_alpha(lex[0])
            &&& (forall|k: int| 0 <= k < lex.len() ==> is_ident_char(#[trigger] lex[k]))
            &&& keyword_kind(lex) is None
        },
        TokenValue::StringLit => true,
        TokenValue::Number => num_wf(lex),
        TokenValue::And => lex == "and"@,
        TokenValue::Class => lex == "class"@,
        TokenValue::Else => lex == "else"@,
        TokenValue::False => lex == "false"@,
        TokenValue::Fun => lex == "fun"@,
        TokenValue::For => lex == "for"@,
        TokenValue::If => lex == "if"@,
        TokenValue::Nil => lex == "nil"@,
        TokenValue::Or => lex == "or"@,
        TokenValue::Print => lex == "print"@,
        TokenValue::Return => lex == "return"@,
        TokenValue::Super => lex == "super"@,
        TokenValue::This => lex == "this"@,
        TokenValue::True => lex == "true"@,
        TokenValue::Var => lex == "var"@,
        TokenValue::While => lex == "while"@,
        TokenValue::Eof => lex == Seq::<char>::empty(),
    }
}

/// If `s[i..j)` is all digits and `j` holds none (or is the end), then `j`
/// is exactly where the digit run ends.
pub proof fn lemma_digits_end_is(s: Seq<char>, i: int, j: int)
    requires
        0 <= i <= j <= s.len(),
        forall|k: int| i <= k < j ==> is_digit(#[trigger] s[k]),
        j == s.len() || !is_digit(s[j]),
    ensures
        digits_end(s, i) == j,
    decreases j - i,
{
    if i < j {
        lemma_digits_end_is(s, i + 1, j);
    }
}

/// The identifier-run analogue of `lemma_digits_end_is`.
pub proof fn lemma_ident_end_is(s: Seq<char>, i: int, j: int)
    requires
        0 <= i <= j <= s.len(),
        forall|k: int| i <= k < j ==> is_ident_char(#[trigger] s[k]),
        j == s.len() || !is_ident_char(s[j]),
    ensures
        ident_end(s, i) == j,
    decreases j - i,
{
    if i < j {
        lemma_ident_end_is(s, i + 1, j);
    }
}

/// Every token a step produces has a well-formed lexeme for its kind.
pub proof fn lemma_step_wf(s: Seq<char>, i: int, line: nat, col: nat)
    requires
        0 <= i < s.len(),
    ensures
        match spec_step(s, i, line, col) {
            SpecStep::Tok { token, .. } => wf_lexeme(token.value, token.lexeme),
            _ => true,
        },
{
    let c = s[i];
    if is_digit(c) {
        lemma_digits_end(s, i);
        let j = digits_end(s, i);
        if j < s.len() && s[j] == '.' && j + 1 < s.len() && is_digit(s[j + 1]) {
            lemma_digits_end(s, j + 1);
            let k = digits_end(s, j + 1);
            let lex = s.subrange(i, k);
            assert(num_wf_at(lex, j - i));
        } else {
            let lex = s.subrange(i, j);
            assert(num_wf_at(lex, j - i));
        }
    } else if is_alpha(c) {
        lemma_ident_end(s, i);
        let j = ident_end(s, i);
        let lex = s.subrange(i, j);
        assert(lex.len() >= 1 && is_alpha(lex[0]));
        assert(forall|k: int| 0 <= k < lex.len() ==> is_ident_char(#[trigger] lex[k]));
    }
}

/// Every token of a successful scan has a well-formed lexeme for its kind.
pub proof fn lemma_scan_at_wf(s: Seq<char>, i: int, line: nat, col: nat)
    ensures
        match spec_scan_at(s, i, line, col) {
            Ok(ts) => forall|k: int|
                0 <= k < ts.len() ==> wf_lexeme(#[trigger] ts[k].value, ts[k].lexeme),
            Err(_) => true,
        },
    decreases s.len() - i,
{
    if i < 0 || i >= s.len() {
    } else {
        match spec_step(s, i, line, col) {
            SpecStep::Skip { next, line: l2, col: c2 } => {
                lemma_scan_at_wf(s, clampi(next, i + 1, s.len() as int), l2, c2);
            },
            SpecStep::Tok { token, next, line: l2, col: c2 } => {
                lemma_step_wf(s, i, line, col);
                lemma_scan_at_wf(s, clampi(next, i + 1, s.len() as int), l2, c2);
            },
            SpecStep::Fail { .. } => {},
        }
    }
}

/// A one-token text scans to that token followed by `Eof`.
proof fn lemma_scan_single(lex: Seq<char>, v: TokenValue)
    requires
        lex.len() >= 1,
        match spec_step(lex, 0, 1, 0) {
            SpecStep::Tok { token, next, line, .. } => token == (SpecToken {
                value: v,
                lexeme: lex,
                line: 1,
            }) && next == lex.len() as int && line == 1,
            _ => false,
        },
    ensures
        spec_scan(lex) == Ok::<Seq<SpecToken>, SpecRuntimeError>(
            seq![SpecToken { value: v, lexeme: lex, line: 1 }, eof_token(1)],
        ),
{
    let n = lex.len() as int;
    assert(clampi(n, 1, n) == n);
    match spec_step(lex, 0, 1, 0) {
        SpecStep::Tok { token, next, line: l2, col: c2 } => {
            assert(spec_scan_at(lex, n, l2, c2) == Ok::<Seq<SpecToken>, SpecRuntimeError>(
                seq![eof_token(1)],
            ));
            assert(seq![token] + seq![eof_token(1)] =~= seq![
                SpecToken { value: v, lexeme: lex, line: 1 },
                eof_token(1),
            ]);
        },
        _ => {
            assert(false);
        },
    }
}

/// Law: scanning the lexeme of any token in isolation reproduces a token
/// of the same kind with the same lexeme (and nothing else but `Eof`), for
/// every kind except `Eof` itself and string literals, whose lexemes do
/// not carry their quote boundaries.
pub proof fn lemma_rescan_token(v: TokenValue, lex: Seq<char>)
    requires
        wf_lexeme(v, lex),
        v != TokenValue::Eof,
        v != TokenValue::StringLit,
    ensures
        spec_scan(lex) == Ok::<Seq<SpecToken>, SpecRuntimeError>(
            seq![SpecToken { value: v, lexeme: lex, line: 1 }, eof_token(1)],
        ),
{
    reveal_strlit("and");
    reveal_strlit("class");
    reveal_strlit("else");
    reveal_strlit("false");
    reveal_strlit("for");
    reveal_strlit("fun");
    reveal_strlit("if");
    reveal_strlit("nil");
    reveal_strlit("or");
    reveal_strlit("print");
    reveal_strlit("return");
    reveal_strlit("super");
    reveal_strlit("this");
    reveal_strlit("true");
    reveal_strlit("var");
    reveal_strlit("while");
    let n = lex.len() as int;
    if v == TokenValue::Number {
        let d = choose|d: int| num_wf_at(lex, d);
        assert(num_wf_at(lex, d));
        if d == n {
            lemma_digits_end_is(lex, 0, d);
        } else {
            lemma_digits_end_is(lex, 0, d);
            lemma_digits_end_is(lex, d + 1, n);
        }
        assert(lex.subrange(0, n) =~= lex);
        lemma_scan_single(lex, v);
    } else if v == TokenValue::Identifier {
        lemma_ident_end_is(lex, 0, n);
        assert(lex.subrange(0, n) =~= lex);
        lemma_scan_single(lex, v);
    } else if keyword_kind(lex) is Some {
        lemma_ident_end_is(lex, 0, n);
        assert(lex.subrange(0, n) =~= lex);
        lemma_scan_single(lex, v);
    } else {
        lemma_scan_single(lex, v);
    }
}

/// Law (round-trip idempotence): for every token of a successful scan
/// other than `Eof` and string literals, re-scanning its lexeme in
/// isolation yields exactly that token's kind and lexeme, then `Eof`.
pub proof fn lemma_scan_round_trip(s: Seq<char>, k: int)
    requires
        spec_scan(s) is Ok,
        0 <= k < (match spec_scan(s) {
            Ok(ts) => ts.len() as int,
            Err(_) => 0,
        }),
        (match spec_scan(s) {
            Ok(ts) => ts[k].value != TokenValue::Eof && ts[k].value != TokenValue::StringLit,
            Err(_) => false,
        }),
    ensures
        (match spec_scan(s) {
            Ok(ts) => spec_scan(ts[k].lexeme) == Ok::<Seq<SpecToken>, SpecRuntimeError>(
                seq![
                    SpecToken { value: ts[k].value, lexeme: ts[k].lexeme, line: 1 },
                    eof_token(1),
                ],
            ),
            Err(_) => false,
        }),
{
    lemma_scan_at_wf(s, 0, 1, 0);
    match spec_scan(s) {
        Ok(ts) => {
            lemma_rescan_token(ts[k].value, ts[k].lexeme);
        },
        Err(_) => {},
    }
}

// ===========================================================================
// The executable scanner.
// ===========================================================================
/// Relies on std's `String::push`: appends the given character to the end
/// of the string.
#[verifier::external_body]
fn push_char(s: &mut String, c: char)
    ensures
        final(s)@ == old(s)@.push(c),
{
    s.push(c);
}

pub fn is_digit_char(c: char) -> (r: bool)
    ensures
        r == is_digit(c),
{
    '0' <= c && c <= '9'
}

pub fn is_alpha_char(c: char) -> (r: bool)
    ensures
        r == is_alpha(c),
{
    ('a' <= c && c <= 'z') || ('A' <= c && c <= 'Z') || c == '_'
}

/// The scanner: the source as a random-accessible character buffer, a read
/// cursor, and the line and column counters of the cursor position.
#[derive(Debug)]
pub struct Scanner {
    pub chars: Vec<char>,
    pub position: usize,
    pub line: usize,
    pub column: usize,
}

/// The state correspondence of one scanner step: the scanner's cursor,
/// counters and result agree exactly with `spec_step` at the pre-state.
pub open spec fn step_post(pre: Scanner, post: Scanner, r: Result<
    Option<Token>,
    RuntimeError,
>) -> bool {
    &&& post.chars@ == pre.chars@
    &&& post.wf()
    &&& match spec_step(pre.chars@, pre.position as int, pre.line as nat, pre.column as nat) {
        SpecStep::Skip { next, line, col } => {
            &&& match r {
                Ok(o) => o is None,
                Err(_) => false,
            }
            &&& post.position as int == next
            &&& post.line as nat == line
            &&& post.column as nat == col
        },
        SpecStep::Tok { token, next, line, col } => {
            &&& match r {
                Ok(Some(t)) => t@ == token,
                _ => false,
            }
            &&& post.position as int == next
            &&& post.line as nat == line
            &&& post.column as nat == col
        },
        SpecStep::Fail { err } => {
            match r {
                Err(e) => e@ == err,
                _ => false,
            }
        },
    }
}

impl Scanner {
    /// Well-formedness: the cursor stays inside the buffer and the counters
    /// are bounded by it (which keeps all counter arithmetic exact).
    pub open spec fn wf(self) -> bool {
        &&& self.position <= self.chars@.len()
        &&& self.chars@.len() < usize::MAX
        &&& 1 <= self.line
        &&& self.line <= self.position + 1
        &&& self.column <= self.position
    }

    /// A scanner over `source`, at the start of the text, on line 1.
    pub fn new(source: String) -> (r: Scanner)
        requires
            source@.len() < usize::MAX,
        ensures
            r.wf(),
            r.chars@ == source@,
            r.position == 0,
            r.line == 1,
            r.column == 0,
    {
        let mut chars: Vec<char> = Vec::new();
        let mut it = source.as_str().chars();
        loop
            invariant
                chars@ + it.remaining() == source@,
                it.decrease() is Some,
            ensures
                chars@ == source@,
            decreases it.decrease()->0,
        {
            match it.next() {
                Some(c) => {
                    chars.push(c);
                    proof {
                        assert(chars@ + it.remaining() =~= source@);
                    }
                },
                None => {
                    proof {
                        assert(chars@ + it.remaining() =~= chars@);
                    }
                    break ;
                },
            }
        }
        Scanner { chars, position: 0, line: 1, column: 0 }
    }

    /// Whether the cursor has consumed the whole buffer.
    pub fn at_end(&self) -> (r: bool)
        ensures
            r == (self.position >= self.chars@.len()),
    {
        self.position >= self.chars.len()
    }

    /// The character under the cursor.
    pub fn current(&self) -> (r: char)
        requires
            self.position < self.chars@.len(),
        ensures
            r == self.chars@[self.position as int],
    {
        self.chars[self.position]
    }

    /// Consume one character: the cursor and the column advance by one.
    pub fn advance(&mut self)
        requires
            old(self).position < old(self).chars@.len(),
            old(self).position < usize::MAX,
            old(self).column < usize::MAX,
        ensures
            final(self).chars == old(self).chars,
            final(self).position == old(self).position + 1,
            final(self).line == old(self).line,
            final(self).column == old(self).column + 1,
    {
        self.position = self.position + 1;
        self.column = self.column + 1;
    }

    /// Record a newline: the line counter advances and the column resets.
    pub fn next_line(&mut self)
        requires
            old(self).line < usize::MAX,
        ensures
            final(self).chars == old(self).chars,
            final(self).position == old(self).position,
            final(self).line == old(self).line + 1,
            final(self).column == 0,
    {
        self.line = self.line + 1;
        self.column = 0;
    }

    /// The character one past the cursor, or an error when that position is
    /// outside the buffer.
    pub fn peek(&self) -> (r: Result<char, RuntimeError>)
        requires
            self.position < usize::MAX,
        ensures
            match r {
                Ok(c) => self.position + 1 < self.chars@.len() && c == self.chars@[self.position
                    + 1],
                Err(e) => self.position + 1 >= self.chars@.len() && e@ == (
                SpecRuntimeError::ScanError {
                    line: self.line as nat,
                    column: self.column as nat,
                    offset: (self.position + 1) as nat,
                    message: "Read past the end of the source"@,
                }),
            },
    {
        let offset = self.position + 1;
        if offset < self.chars.len() {
            Ok(self.chars[offset])
        } else {
            Err(
                RuntimeError::scan_error(
                    "Read past the end of the source".to_owned(),
                    self.line,
                    self.column,
                    offset,
                ),
            )
        }
    }

    /// Whether the character one past the cursor is `expected` (the one
    /// character of lookahead used for two-character operators).
    pub fn next_eq(&self, expected: char) -> (r: bool)
        requires
            self.position < usize::MAX,
        ensures
            r == (self.position + 1 < self.chars@.len() && self.chars@[self.position + 1]
                == expected),
    {
        match self.peek() {
            Ok(actual) => actual == expected,
            Err(_) => false,
        }
    }

    /// Discard the rest of the physical line, up to but not including the
    /// terminating newline (or the end of input).
    pub fn skip_inline_comment(&mut self)
        requires
            old(self).wf(),
        ensures
            final(self).wf(),
            final(self).chars@ == old(self).chars@,
            final(self).line == old(self).line,
            final(self).position as int == line_end(old(self).chars@, old(self).position as int),
            final(self).column == old(self).column + (final(self).position - old(
                self,
            ).position),
    {
        let ghost s = self.chars@;
        let ghost p0 = self.position as int;
        proof {
            lemma_line_end(s, p0);
        }
        while self.position < self.chars.len() && self.chars[self.position] != '\n'
            invariant
                self.wf(),
                self.chars@ == s,
                self.line == old(self).line,
                p0 <= self.position as int,
                line_end(s, self.position as int) == line_end(s, p0),
                self.column == old(self).column + (self.position - p0),
            decreases s.len() - self.position,
        {
            self.advance();
        }
    }

    /// Scan the token (or skipped run) that starts at the cursor.
    pub fn scan_token(&mut self) -> (r: Result<Option<Token>, RuntimeError>)
        requires
            old(self).wf(),
            old(self).position < old(self).chars@.len(),
        ensures
            step_post(*old(self), *final(self), r),
    {
        let c = self.current();
        if c == ' ' || c == '\r' || c == '\t' {
            self.advance();
            Ok(None)
        } else if c == '\n' {
            self.advance();
            self.next_line();
            Ok(None)
        } else if c == '(' {
            Ok(Some(self.punct_token(TokenValue::LeftParen)))
        } else if c == ')' {
            Ok(Some(self.punct_token(TokenValue::RightParen)))
        } else if c == '{' {
            Ok(Some(self.punct_token(TokenValue::LeftBrace)))
        } else if c == '}' {
            Ok(Some(self.punct_token(TokenValue::RightBrace)))
        } else if c == ',' {
            Ok(Some(self.punct_token(TokenValue::Comma)))
        } else if c == '.' {
            Ok(Some(self.punct_token(TokenValue::Dot)))
        } else if c == '-' {
            Ok(Some(self.punct_token(TokenValue::Minus)))
        } else if c == '+' {
            Ok(Some(self.punct_token(TokenValue::Plus)))
        } else if c == ';' {
            Ok(Some(self.punct_token(TokenValue::Semicolon)))
        } else if c == '*' {
            Ok(Some(self.punct_token(TokenValue::Star)))
        } else if c == '!' {
            Ok(Some(self.operator_token(TokenValue::Bang, TokenValue::BangEqual)))
        } else if c == '=' {
            Ok(Some(self.operator_token(TokenValue::Equal, TokenValue::EqualEqual)))
        } else if c == '>' {
            Ok(Some(self.operator_token(TokenValue::Greater, TokenValue::GreaterEqual)))
        } else if c == '<' {
            Ok(Some(self.operator_token(TokenValue::Less, TokenValue::LessEqual)))
        } else if c == '/' {
            if self.next_eq('/') {
                self.skip_inline_comment();
                Ok(None)
            } else {
                Ok(Some(self.punct_token(TokenValue::Slash)))
            }
        } else if c == '"' {
            self.scan_string()
        } else if is_digit_char(c) {
            self.scan_number()
        } else if is_alpha_char(c) {
            self.scan_identifier()
        } else {
            Err(
                RuntimeError::scan_error(
                    "Unexpected character".to_owned(),
                    self.line,
                    self.column,
                    self.position,
                ),
            )
        }
    }

    /// Emit the single-character token under the cursor.
    fn punct_token(&mut self, v: TokenValue) -> (t: Token)
        requires
            old(self).wf(),
            old(self).position < old(self).chars@.len(),
        ensures
            final(self).wf(),
            final(self).chars@ == old(self).chars@,
            final(self).position == old(self).position + 1,
            final(self).line == old(self).line,
            final(self).column == old(self).column + 1,
            t@ == (SpecToken {
                value: v,
                lexeme: seq![old(self).chars@[old(self).position as int]],
                line: old(self).line as nat,
            }),
    {
        let c = self.current();
        let mut lexeme = String::new();
        push_char(&mut lexeme, c);
        proof {
            assert(lexeme@ =~= seq![c]);
        }
        let t = Token::new(v, lexeme, self.line);
        self.advance();
        t
    }

    /// Emit a one-or-two-character operator token: the two-character form
    /// exactly when the next character is `=`.
    fn operator_token(&mut self, one: TokenValue, two: TokenValue) -> (t: Token)
        requires
            old(self).wf(),
            old(self).position < old(self).chars@.len(),
        ensures
            final(self).wf(),
            final(self).chars@ == old(self).chars@,
            final(self).line == old(self).line,
            ({
                let st = two_char_step(
                    old(self).chars@,
                    one,
                    two,
                    old(self).chars@[old(self).position as int],
                    old(self).position as int,
                    old(self).line as nat,
                    old(self).column as nat,
                );
                match st {
                    SpecStep::Tok { token, next, line, col } => {
                        &&& t@ == token
                        &&& final(self).position as int == next
                        &&& final(self).line as nat == line
                        &&& final(self).column as nat == col
                    },
                    _ => false,
                }
            }),
    {
        let c = self.current();
        let mut lexeme = String::new();
        push_char(&mut lexeme, c);
        if self.next_eq('=') {
            self.advance();
            push_char(&mut lexeme, '=');
            proof {
                assert(lexeme@ =~= seq![c, '=']);
            }
            let t = Token::new(two, lexeme, self.line);
            self.advance();
            t
        } else {
            proof {
                assert(lexeme@ =~= seq![c]);
            }
            let t = Token::new(one, lexeme, self.line);
            self.advance();
            t
        }
    }

    /// Scan a string literal: everything up to the matching close quote,
    /// verbatim (newlines included); reaching the end of input first is an
    /// unterminated-string error at the opening quote's position.
    pub fn scan_string(&mut self) -> (r: Result<Option<Token>, RuntimeError>)
        requires
            old(self).wf(),
            old(self).position < old(self).chars@.len(),
            old(self).chars@[old(self).position as int] == '"',
        ensures
            step_post(*old(self), *final(self), r),
    {
        let ghost s = self.chars@;
        let ghost p0 = self.position as int;
        let ghost line0 = self.line as nat;
        let ghost col0 = self.column as nat;
        let start_line = self.line;
        let start_column = self.column;
        let start_position = self.position;
        proof {
            lemma_quote_end(s, p0 + 1);
        }
        self.advance();
        let mut lexeme = String::new();
        proof {
            lemma_adv_lc_snoc(s, p0, p0, line0, col0);
            assert(lexeme@ =~= s.subrange(p0 + 1, p0 + 1));
        }
        while !(self.position >= self.chars.len()) && self.chars[self.position] != '"'
            invariant
                self.chars@ == s,
                self.position <= s.len(),
                s.len() < usize::MAX,
                0 <= p0 < self.position as int,
                1 <= self.line,
                self.line <= self.position,
                self.column <= self.position,
                quote_end(s, self.position as int) == quote_end(s, p0 + 1),
                lexeme@ == s.subrange(p0 + 1, self.position as int),
                (self.line as nat, self.column as nat) == adv_lc(s, p0, self.position as int, line0, col0),
            decreases s.len() - self.position,
        {
            let c = self.current();
            push_char(&mut lexeme, c);
            let ghost pos_before = self.position as int;
            self.advance();
            if c == '\n' {
                self.next_line();
            }
            proof {
                lemma_adv_lc_snoc(s, p0, pos_before, line0, col0);
                assert(lexeme@ =~= s.subrange(p0 + 1, pos_before + 1));
            }
        }
        if self.position >= self.chars.len() {
            proof {
                assert(quote_end(s, self.position as int) == self.position as int);
            }
            Err(
                RuntimeError::scan_error(
                    "Unterminated string".to_owned(),
                    start_line,
                    start_column,
                    start_position,
                ),
            )
        } else {
            let ghost q = self.position as int;
            proof {
                assert(quote_end(s, q) == q);
                lemma_adv_lc_snoc(s, p0, q, line0, col0);
            }
            let t = Token::new(TokenValue::StringLit, lexeme, start_line);
            self.advance();
            Ok(Some(t))
        }
    }

    /// Scan a number literal: a maximal run of digits, optionally followed
    /// by a decimal point and another maximal run of digits (a point not
    /// followed by a digit is not part of the number).
    pub fn scan_number(&mut self) -> (r: Result<Option<Token>, RuntimeError>)
        requires
            old(self).wf(),
            old(self).position < old(self).chars@.len(),
            is_digit(old(self).chars@[old(self).position as int]),
        ensures
            step_post(*old(self), *final(self), r),
    {
        let ghost s = self.chars@;
        let ghost p0 = self.position as int;
        proof {
            lemma_digits_end(s, p0);
        }
        let mut lexeme = String::new();
        proof {
            assert(lexeme@ =~= s.subrange(p0, p0));
        }
        while !(self.position >= self.chars.len()) && is_digit_char(self.chars[self.position])
            invariant
                self.chars@ == s,
                self.position <= s.len(),
                s.len() < usize::MAX,
                0 <= p0 <= self.position as int,
                1 <= self.line,
                self.line == old(self).line,
                self.line <= p0 + 1,
                self.column <= self.position,
                self.column == old(self).column + (self.position - p0),
                digits_end(s, self.position as int) == digits_end(s, p0),
                lexeme@ == s.subrange(p0, self.position as int),
            decreases s.len() - self.position,
        {
            let c = self.current();
            push_char(&mut lexeme, c);
            let ghost pos_before = self.position as int;
            self.advance();
            proof {
                assert(lexeme@ =~= s.subrange(p0, pos_before + 1));
            }
        }
        let ghost j = digits_end(s, p0);
        let mut has_fraction = false;
        if self.position < self.chars.len() {
            if self.current() == '.' {
                match self.peek() {
                    Ok(c2) => {
                        has_fraction = is_digit_char(c2);
                    },
                    Err(_) => {
                        has_fraction = false;
                    },
                }
            }
        }
        if has_fraction {
            proof {
                lemma_digits_end(s, j + 1);
            }
            let c = self.current();
            push_char(&mut lexeme, c);
            let ghost pos_before = self.position as int;
            self.advance();
            proof {
                assert(lexeme@ =~= s.subrange(p0, pos_before + 1));
            }
            while !(self.position >= self.chars.len()) && is_digit_char(self.chars[self.position])
                invariant
                    self.chars@ == s,
                    self.position <= s.len(),
                    s.len() < usize::MAX,
                    0 <= p0 < j + 1 <= self.position as int,
                    1 <= self.line,
                    self.line == old(self).line,
                    self.line <= p0 + 1,
                    self.column <= self.position,
                    self.column == old(self).column + (self.position - p0),
                    digits_end(s, self.position as int) == digits_end(s, j + 1),
                    lexeme@ == s.subrange(p0, self.position as int),
                decreases s.len() - self.position,
            {
                let c2 = self.current();
                push_char(&mut lexeme, c2);
                let ghost pos_before2 = self.position as int;
                self.advance();
                proof {
                    assert(lexeme@ =~= s.subrange(p0, pos_before2 + 1));
                }
            }
        }
        let t = Token::new(TokenValue::Number, lexeme, self.line);
        Ok(Some(t))
    }

    /// Scan an identifier or keyword: a maximal run of identifier
    /// characters, matched case-sensitively against the keyword set.
    pub fn scan_identifier(&mut self) -> (r: Result<Option<Token>, RuntimeError>)
        requires
            old(self).wf(),
            old(self).position < old(self).chars@.len(),
            is_alpha(old(self).chars@[old(self).position as int]),
        ensures
            step_post(*old(self), *final(self), r),
    {
        let ghost s = self.chars@;
        let ghost p0 = self.position as int;
        proof {
            lemma_ident_end(s, p0);
        }
        let mut lexeme = String::new();
        while !(self.position >= self.chars.len()) && is_ident_exec(self.chars[self.position])
            invariant
                self.chars@ == s,
                self.position <= s.len(),
                s.len() < usize::MAX,
                0 <= p0 <= self.position as int,
                1 <= self.line,
                self.line == old(self).line,
                self.line <= p0 + 1,
                self.column <= self.position,
                self.column == old(self).column + (self.position - p0),
                ident_end(s, self.position as int) == ident_end(s, p0),
                lexeme@ == s.subrange(p0, self.position as int),
            decreases s.len() - self.position,
        {
            let c = self.current();
            push_char(&mut lexeme, c);
            let ghost pos_before = self.position as int;
            self.advance();
            proof {
                assert(lexeme@ =~= s.subrange(p0, pos_before + 1));
            }
        }
        let value = keyword_value(&lexeme);
        let t = Token::new(value, lexeme, self.line);
        Ok(Some(t))
    }

    /// Scan the whole buffer: exactly the token stream (or the lexical
    /// error) given by the scan model, ending in a single `Eof`.
    #[verifier::loop_isolation(false)]
    pub fn scan_tokens(self) -> (r: Result<Vec<Token>, RuntimeError>)
        requires
            self.wf(),
        ensures
            match (r, spec_scan_at(
                self.chars@,
                self.position as int,
                self.line as nat,
                self.column as nat,
            )) {
                (Ok(ts), Ok(sts)) => tokens_view(ts@) == sts,
                (Err(e), Err(se)) => e@ == se,
                _ => false,
            },
    {
        let mut this = self;
        let ghost s = this.chars@;
        let ghost p0 = this.position as int;
        let ghost line0 = this.line as nat;
        let ghost col0 = this.column as nat;
        let mut tokens: Vec<Token> = Vec::new();
        while this.position < this.chars.len()
            invariant
                this.wf(),
                this.chars@ == s,
                scan_compose(
                    tokens_view(tokens@),
                    spec_scan_at(s, this.position as int, this.line as nat, this.column as nat),
                ) == spec_scan_at(s, p0, line0, col0),
            decreases s.len() - this.position,
        {
            let ghost pre = this;
            let ghost prefix = tokens_view(tokens@);
            let res = this.scan_token();
            proof {
                lemma_step_bounds(s, pre.position as int, pre.line as nat, pre.column as nat);
            }
            match res {
                Ok(Some(t)) => {
                    tokens.push(t);
                    proof {
                        let step = spec_step(
                            s,
                            pre.position as int,
                            pre.line as nat,
                            pre.column as nat,
                        );
                        let rest = spec_scan_at(
                            s,
                            this.position as int,
                            this.line as nat,
                            this.column as nat,
                        );
                        assert(tokens_view(tokens@) =~= prefix.push(t@));
                        match rest {
                            Ok(ts2) => {
                                assert(prefix + (seq![t@] + ts2) =~= prefix.push(t@) + ts2);
                            },
                            Err(_) => {},
                        }
                    }
                },
                Ok(None) => {},
                Err(e) => {
                    proof {
                        assert((pre.position as int) < s.len());
                        assert(spec_step(
                            s,
                            pre.position as int,
                            pre.line as nat,
                            pre.column as nat,
                        ) matches SpecStep::Fail { err } && e@ == err);
                        assert(spec_scan_at(
                            s,
                            pre.position as int,
                            pre.line as nat,
                            pre.column as nat,
                        ) == Err::<Seq<SpecToken>, SpecRuntimeError>(e@));
                        assert(spec_scan_at(s, p0, line0, col0) == Err::<
                            Seq<SpecToken>,
                            SpecRuntimeError,
                        >(e@));
                    }
                    return Err(e);
                },
            }
        }
        proof {
            assert(spec_scan_at(s, this.position as int, this.line as nat, this.column as nat)
                == Ok::<Seq<SpecToken>, SpecRuntimeError>(seq![eof_token(this.line as nat)]));
        }
        let t = Token::new(TokenValue::Eof, String::new(), this.line);
        let ghost prefix = tokens_view(tokens@);
        tokens.push(t);
        proof {
            assert(tokens_view(tokens@) =~= prefix.push(t@));
            assert(prefix + seq![eof_token(this.line as nat)] =~= prefix.push(t@));
            assert(t@.lexeme =~= Seq::<char>::empty());
        }
        Ok(tokens)
    }
}

/// Whether `c` may continue an identifier.
pub fn is_ident_exec(c: char) -> (r: bool)
    ensures
        r == is_ident_char(c),
{
    is_alpha_char(c) || is_digit_char(c)
}

/// The keyword kind spelled by `lexeme`, or `Identifier` when it spells
/// none (case-sensitive).
fn keyword_value(lexeme: &String) -> (v: TokenValue)
    ensures
        v == (match keyword_kind(lexeme@) {
            Some(k) => k,
            None => TokenValue::Identifier,
        }),
{
    if *lexeme == "and".to_owned() {
        TokenValue::And
    } else if *lexeme == "class".to_owned() {
        TokenValue::Class
    } else if *lexeme == "else".to_owned() {
        TokenValue::Else
    } else if *lexeme == "false".to_owned() {
        TokenValue::False
    } else if *lexeme == "for".to_owned() {
        TokenValue::For
    } else if *lexeme == "fun".to_owned() {
        TokenValue::Fun
    } else if *lexeme == "if".to_owned() {
        TokenValue::If
    } else if *lexeme == "nil".to_owned() {
        TokenValue::Nil
    } else if *lexeme == "or".to_owned() {
        TokenValue::Or
    } else if *lexeme == "print".to_owned() {
        TokenValue::Print
    } else if *lexeme == "return".to_owned() {
        TokenValue::Return
    } else if *lexeme == "super".to_owned() {
        TokenValue::Super
    } else if *lexeme == "this".to_owned() {
        TokenValue::This
    } else if *lexeme == "true".to_owned() {
        TokenValue::True
    } else if *lexeme == "var".to_owned() {
        TokenValue::Var
    } else if *lexeme == "while".to_owned() {
        TokenValue::While
    } else {
        TokenValue::Identifier
    }
}

} // verus!
