//! From source text to lexemes.
//!
//! The scanner reads the text byte by byte, each byte taken as the character
//! with the same number. White space and comments separate tokens and leave
//! no trace but in the line numbers. At every position the longest token
//! that starts there is taken; a byte that starts none becomes a token
//! `Unknown` of its own.
use vstd::prelude::*;
use vstd::string::{StrSliceExecFns, StringSliceAdditionalSpecFns};
use crate::token::C1Token;

verus! {

/// A token together with the line on which it starts, counted from 1.
#[derive(Clone, Copy, Debug, PartialEq, Eq, Hash, Structural)]
pub struct Lexeme {
    /// The kind of the lexical unit.
    pub token: C1Token,
    /// The line on which its first character stands.
    pub line: usize,
}

/// The bytes of a text as characters, one for each byte.
pub open spec fn glyphs(bytes: Seq<u8>) -> Seq<char> {
    Seq::new(bytes.len(), |k: int| bytes[k] as char)
}

/// Space, tab, line feed, vertical tab, form feed, carriage return.
pub open spec fn is_space(c: char) -> bool {
    c == ' ' || ('\t' <= c <= '\r')
}

/// A decimal digit.
pub open spec fn is_digit(c: char) -> bool {
    '0' <= c <= '9'
}

/// A letter of the English alphabet or an underscore: what a word begins
/// with.
pub open spec fn is_letter(c: char) -> bool {
    ('a' <= c <= 'z') || ('A' <= c <= 'Z') || c == '_'
}

/// Index `i` holds the character `c`.
pub open spec fn has_char(src: Seq<char>, i: int, c: char) -> bool {
    0 <= i < src.len() && src[i] == c
}

/// The number of digits in a row from index `i`.
pub open spec fn digits_from(src: Seq<char>, i: int) -> nat
    decreases src.len() - i,
{
    if 0 <= i < src.len() && is_digit(src[i]) {
        1 + digits_from(src, i + 1)
    } else {
        0
    }
}

/// The number of letters, digits and underscores in a row from index `i`.
pub open spec fn word_from(src: Seq<char>, i: int) -> nat
    decreases src.len() - i,
{
    if 0 <= i < src.len() && (is_letter(src[i]) || is_digit(src[i])) {
        1 + word_from(src, i + 1)
    } else {
        0
    }
}

/// The number of characters from index `i` up to the next line feed or the
/// end of the text.
pub open spec fn line_rest(src: Seq<char>, i: int) -> nat
    decreases src.len() - i,
{
    if 0 <= i < src.len() && src[i] != '\n' {
        1 + line_rest(src, i + 1)
    } else {
        0
    }
}

/// The number of characters from index `i` up to and including the next
/// `*/`, or `None` where the text holds none from there on.
pub open spec fn comment_rest(src: Seq<char>, i: int) -> Option<nat>
    decreases src.len() - i,
{
    if 0 <= i && i + 1 < src.len() {
        if src[i] == '*' && src[i + 1] == '/' {
            Some(2)
        } else {
            match comment_rest(src, i + 1) {
                Some(n) => Some(n + 1),
                None => None,
            }
        }
    } else {
        None
    }
}

/// The number of line feeds in front of index `i`.
pub open spec fn line_feeds(src: Seq<char>, i: int) -> nat
    decreases i,
{
    if 0 < i <= src.len() {
        line_feeds(src, i - 1) + if src[i - 1] == '\n' {
            1nat
        } else {
            0nat
        }
    } else {
        0
    }
}

/// The token that a word stands for: a keyword, a boolean literal, or else
/// an identifier.
pub open spec fn word_token(word: Seq<char>) -> C1Token {
    if word == "int"@ {
        C1Token::KwInt
    } else if word == "float"@ {
        C1Token::KwFloat
    } else if word == "void"@ {
        C1Token::KwVoid
    } else if word == "boolean"@ {
        C1Token::KwBoolean
    } else if word == "if"@ {
        C1Token::KwIf
    } else if word == "return"@ {
        C1Token::KwReturn
    } else if word == "printf"@ {
        C1Token::KwPrintf
    } else if word == "true"@ || word == "false"@ {
        C1Token::ConstBoolean
    } else {
        C1Token::Identifier
    }
}

/// The length of the exponent at index `i`: `e` or `E`, a sign or none, and
/// at least one digit. 0 where no exponent stands there.
pub open spec fn exponent_at(src: Seq<char>, i: int) -> nat {
    if has_char(src, i, 'e') || has_char(src, i, 'E') {
        let sign: nat = if has_char(src, i + 1, '+') || has_char(src, i + 1, '-') {
            1
        } else {
            0
        };
        let digits = digits_from(src, i + 1 + sign);
        if digits > 0 {
            1 + sign + digits
        } else {
            0
        }
    } else {
        0
    }
}

/// The number that starts at index `i`, with its length: digits with a
/// point among them or with an exponent behind them are a float literal,
/// digits alone an integer literal. `None` where no number starts.
pub open spec fn number_at(src: Seq<char>, i: int) -> Option<(C1Token, nat)> {
    let whole = digits_from(src, i);
    if has_char(src, i + whole, '.') {
        let fraction = digits_from(src, i + whole + 1);
        if whole + fraction == 0 {
            None
        } else {
            let mantissa = whole + 1 + fraction;
            Some((C1Token::ConstFloat, mantissa + exponent_at(src, i + mantissa)))
        }
    } else if whole == 0 {
        None
    } else {
        let exponent = exponent_at(src, i + whole);
        Some(
            (
                if exponent > 0 {
                    C1Token::ConstFloat
                } else {
                    C1Token::ConstInt
                },
                whole + exponent,
            ),
        )
    }
}

/// The punctuation mark or operator that starts at index `i`, with its
/// length; `Unknown` for a character that starts none.
pub open spec fn symbol_at(src: Seq<char>, i: int) -> (C1Token, nat)
    recommends
        0 <= i < src.len(),
{
    let c = src[i];
    if c == '(' {
        (C1Token::LeftParenthesis, 1)
    } else if c == ')' {
        (C1Token::RightParenthesis, 1)
    } else if c == '{' {
        (C1Token::LeftBrace, 1)
    } else if c == '}' {
        (C1Token::RightBrace, 1)
    } else if c == ';' {
        (C1Token::Semicolon, 1)
    } else if c == '+' {
        (C1Token::Plus, 1)
    } else if c == '-' {
        (C1Token::Minus, 1)
    } else if c == '*' {
        (C1Token::Asterisk, 1)
    } else if c == '/' {
        (C1Token::Slash, 1)
    } else if c == '=' {
        if has_char(src, i + 1, '=') {
            (C1Token::Equal, 2)
        } else {
            (C1Token::Assign, 1)
        }
    } else if c == '<' {
        if has_char(src, i + 1, '=') {
            (C1Token::LessEqual, 2)
        } else {
            (C1Token::Less, 1)
        }
    } else if c == '>' {
        if has_char(src, i + 1, '=') {
            (C1Token::GreaterEqual, 2)
        } else {
            (C1Token::Greater, 1)
        }
    } else if c == '!' && has_char(src, i + 1, '=') {
        (C1Token::NotEqual, 2)
    } else if c == '&' && has_char(src, i + 1, '&') {
        (C1Token::And, 2)
    } else if c == '|' && has_char(src, i + 1, '|') {
        (C1Token::Or, 2)
    } else {
        (C1Token::Unknown, 1)
    }
}

/// What starts at index `i`, with its length: a token, or `None` for white
/// space or a comment. A comment runs from `//` to the end of the line, or
/// from `/*` to the next `*/`; a `/*` that is never closed makes the rest
/// of the text one token `Unknown`.
pub open spec fn piece_at(src: Seq<char>, i: int) -> (Option<C1Token>, nat)
    recommends
        0 <= i < src.len(),
{
    let c = src[i];
    if is_space(c) {
        (None, 1)
    } else if c == '/' && has_char(src, i + 1, '/') {
        (None, 2 + line_rest(src, i + 2))
    } else if c == '/' && has_char(src, i + 1, '*') {
        match comment_rest(src, i + 2) {
            Some(n) => (None, 2 + n),
            None => (Some(C1Token::Unknown), (src.len() - i) as nat),
        }
    } else if is_letter(c) {
        let n = word_from(src, i);
        (Some(word_token(src.subrange(i, i + n))), n)
    } else {
        match number_at(src, i) {
            Some((token, n)) => (Some(token), n),
            None => (Some(symbol_at(src, i).0), symbol_at(src, i).1),
        }
    }
}

/// The line on which index `i` lies, counted from 1.
pub open spec fn line_number(src: Seq<char>, i: int) -> usize {
    (line_feeds(src, i) + 1) as usize
}

/// The lexemes of the text from index `i` on.
pub open spec fn lexemes_from(src: Seq<char>, i: int) -> Seq<Lexeme>
    decreases
        (if i < src.len() {
            src.len() - i
        } else {
            0
        }),
{
    if 0 <= i < src.len() {
        let (token, n) = piece_at(src, i);
        let rest = lexemes_from(src, i + n);
        match token {
            Some(t) => seq![Lexeme { token: t, line: line_number(src, i) }] + rest,
            None => rest,
        }
    } else {
        Seq::empty()
    }
}

/// The lexemes of a whole text.
pub open spec fn lexemes_of(src: Seq<char>) -> Seq<Lexeme> {
    lexemes_from(src, 0)
}

/// The tokens of a sequence of lexemes, without their lines.
pub open spec fn tokens_of(lexemes: Seq<Lexeme>) -> Seq<C1Token> {
    Seq::new(lexemes.len(), |k: int| lexemes[k].token)
}

/// The line that belongs to index `i` of a sequence of lexemes: that of the
/// lexeme there; behind the last lexeme, the line of the last one; 1 where
/// there is no lexeme at all.
pub open spec fn line_at(lexemes: Seq<Lexeme>, i: int) -> usize {
    if 0 <= i < lexemes.len() {
        lexemes[i].line
    } else if lexemes.len() > 0 {
        lexemes[lexemes.len() - 1].line
    } else {
        1
    }
}

/// The characters that the scanner reads from a text: one for each byte of
/// its UTF-8 form.
pub open spec fn source_of(text: &str) -> Seq<char> {
    glyphs(text.spec_bytes())
}

/// The lexemes of a text.
pub open spec fn text_lexemes(text: &str) -> Seq<Lexeme> {
    lexemes_of(source_of(text))
}

/// The tokens of a text.
pub open spec fn text_tokens(text: &str) -> Seq<C1Token> {
    tokens_of(text_lexemes(text))
}

/// No more line feeds stand in front of an index than characters.
pub proof fn lemma_line_feeds_bound(src: Seq<char>, i: int)
    ensures
        line_feeds(src, i) <= i || i <= 0,
    decreases i,
{
    if 0 < i <= src.len() {
        lemma_line_feeds_bound(src, i - 1);
    }
}

/// Whether `c` is white space.
fn space(c: char) -> (b: bool)
    ensures
        b == is_space(c),
{
    c == ' ' || ('\t' <= c && c <= '\r')
}

/// Whether `c` is a decimal digit.
fn digit(c: char) -> (b: bool)
    ensures
        b == is_digit(c),
{
    '0' <= c && c <= '9'
}

/// Whether `c` can begin a word.
fn letter(c: char) -> (b: bool)
    ensures
        b == is_letter(c),
{
    ('a' <= c && c <= 'z') || ('A' <= c && c <= 'Z') || c == '_'
}

/// Whether the byte at index `i` is the character `c`.
fn holds(bytes: &[u8], i: usize, c: char) -> (b: bool)
    ensures
        b == has_char(glyphs(bytes@), i as int, c),
{
    i < bytes.len() && bytes[i] as char == c
}

/// The index behind the digits that start at index `i`.
fn digits_end(bytes: &[u8], i: usize) -> (j: usize)
    requires
        i <= bytes@.len(),
    ensures
        j == i + digits_from(glyphs(bytes@), i as int),
        j <= bytes@.len(),
{
    let ghost src = glyphs(bytes@);
    let mut j = i;
    while j < bytes.len() && digit(bytes[j] as char)
        invariant
            i <= j <= bytes@.len(),
            src == glyphs(bytes@),
            digits_from(src, i as int) == (j - i) + digits_from(src, j as int),
        decreases bytes@.len() - j,
    {
        j += 1;
    }
    j
}

/// The index behind the letters, digits and underscores that start at
/// index `i`.
fn word_end(bytes: &[u8], i: usize) -> (j: usize)
    requires
        i <= bytes@.len(),
    ensures
        j == i + word_from(glyphs(bytes@), i as int),
        j <= bytes@.len(),
{
    let ghost src = glyphs(bytes@);
    let mut j = i;
    while j < bytes.len() && (letter(bytes[j] as char) || digit(bytes[j] as char))
        invariant
            i <= j <= bytes@.len(),
            src == glyphs(bytes@),
            word_from(src, i as int) == (j - i) + word_from(src, j as int),
        decreases bytes@.len() - j,
    {
        j += 1;
    }
    j
}

/// The index of the next line feed from index `i` on, or the length of
/// the text.
fn line_end(bytes: &[u8], i: usize) -> (j: usize)
    requires
        i <= bytes@.len(),
    ensures
        j == i + line_rest(glyphs(bytes@), i as int),
        j <= bytes@.len(),
{
    let ghost src = glyphs(bytes@);
    let mut j = i;
    while j < bytes.len() && bytes[j] as char != '\n'
        invariant
            i <= j <= bytes@.len(),
            src == glyphs(bytes@),
            line_rest(src, i as int) == (j - i) + line_rest(src, j as int),
        decreases bytes@.len() - j,
    {
        j += 1;
    }
    j
}

/// The index behind the next `*/` from index `i` on, if there is one.
fn comment_end(bytes: &[u8], i: usize) -> (end: Option<usize>)
    requires
        i <= bytes@.len(),
    ensures
        match comment_rest(glyphs(bytes@), i as int) {
            Some(n) => end == Some((i + n) as usize) && i + n <= bytes@.len(),
            None => end is None,
        },
{
    let ghost src = glyphs(bytes@);
    let mut j = i;
    while j < bytes.len() && j + 1 < bytes.len()
        invariant
            i <= j <= bytes@.len(),
            src == glyphs(bytes@),
            comment_rest(src, i as int) == match comment_rest(src, j as int) {
                Some(n) => Some((n + (j - i)) as nat),
                None => None,
            },
        decreases bytes@.len() - j,
    {
        if bytes[j] as char == '*' && bytes[j + 1] as char == '/' {
            return Some(j + 2);
        }
        j += 1;
    }
    None
}

/// The number of line feeds in front of index `to`, given that `before`
/// of them stand in front of index `from`.
fn line_feeds_to(bytes: &[u8], from: usize, to: usize, before: usize) -> (feeds: usize)
    requires
        from <= to <= bytes@.len(),
        before == line_feeds(glyphs(bytes@), from as int),
    ensures
        feeds == line_feeds(glyphs(bytes@), to as int),
{
    let ghost src = glyphs(bytes@);
    let mut feeds = before;
    let mut k = from;
    while k < to
        invariant
            from <= k <= to <= bytes@.len(),
            src == glyphs(bytes@),
            feeds == line_feeds(src, k as int),
        decreases to - k,
    {
        proof {
            lemma_line_feeds_bound(src, k as int);
        }
        if bytes[k] as char == '\n' {
            feeds += 1;
        }
        k += 1;
    }
    feeds
}

/// Whether the bytes from index `i` up to index `j` spell `word`.
fn spells(bytes: &[u8], i: usize, j: usize, word: &str) -> (b: bool)
    requires
        i <= j <= bytes@.len(),
    ensures
        b == (glyphs(bytes@).subrange(i as int, j as int) == word@),
{
    let ghost src = glyphs(bytes@);
    let n = word.unicode_len();
    if j - i != n {
        return false;
    }
    let mut k: usize = 0;
    while k < n
        invariant
            0 <= k <= n,
            n == j - i,
            n == word@.len(),
            i <= j <= bytes@.len(),
            src == glyphs(bytes@),
            forall|m: int| 0 <= m < k ==> src[i + m] == word@[m],
        decreases n - k,
    {
        if bytes[i + k] as char != word.get_char(k) {
            assert(src.subrange(i as int, j as int)[k as int] != word@[k as int]);
            return false;
        }
        k += 1;
    }
    assert(src.subrange(i as int, j as int) =~= word@);
    true
}

/// The token that the word from index `i` up to index `j` stands for.
fn word_kind(bytes: &[u8], i: usize, j: usize) -> (token: C1Token)
    requires
        i <= j <= bytes@.len(),
    ensures
        token == word_token(glyphs(bytes@).subrange(i as int, j as int)),
{
    if spells(bytes, i, j, "int") {
        C1Token::KwInt
    } else if spells(bytes, i, j, "float") {
        C1Token::KwFloat
    } else if spells(bytes, i, j, "void") {
        C1Token::KwVoid
    } else if spells(bytes, i, j, "boolean") {
        C1Token::KwBoolean
    } else if spells(bytes, i, j, "if") {
        C1Token::KwIf
    } else if spells(bytes, i, j, "return") {
        C1Token::KwReturn
    } else if spells(bytes, i, j, "printf") {
        C1Token::KwPrintf
    } else if spells(bytes, i, j, "true") || spells(bytes, i, j, "false") {
        C1Token::ConstBoolean
    } else {
        C1Token::Identifier
    }
}

/// The index behind the exponent at index `i`; `i` itself where none
/// stands there.
fn exponent_end(bytes: &[u8], i: usize) -> (j: usize)
    requires
        i <= bytes@.len(),
    ensures
        j == i + exponent_at(glyphs(bytes@), i as int),
        j <= bytes@.len(),
{
    let len = bytes.len();
    if i < len && (holds(bytes, i, 'e') || holds(bytes, i, 'E')) {
        let start = if i + 1 < len && (holds(bytes, i + 1, '+') || holds(bytes, i + 1, '-')) {
            i + 2
        } else {
            i + 1
        };
        let end = digits_end(bytes, start);
        if end > start {
            end
        } else {
            i
        }
    } else {
        i
    }
}

/// The number that starts at index `i`, with the index behind it.
fn number(bytes: &[u8], i: usize) -> (found: Option<(C1Token, usize)>)
    requires
        i <= bytes@.len(),
    ensures
        match number_at(glyphs(bytes@), i as int) {
            Some((token, n)) => found == Some((token, (i + n) as usize)) && i + n
                <= bytes@.len(),
            None => found is None,
        },
{
    let whole = digits_end(bytes, i);
    if whole < bytes.len() && holds(bytes, whole, '.') {
        let fraction = digits_end(bytes, whole + 1);
        if whole == i && fraction == whole + 1 {
            None
        } else {
            Some((C1Token::ConstFloat, exponent_end(bytes, fraction)))
        }
    } else if whole == i {
        None
    } else {
        let end = exponent_end(bytes, whole);
        Some(
            (
                if end > whole {
                    C1Token::ConstFloat
                } else {
                    C1Token::ConstInt
                },
                end,
            ),
        )
    }
}

/// The punctuation mark or operator at index `i`, with the index behind
/// it.
fn symbol(bytes: &[u8], i: usize) -> (found: (C1Token, usize))
    requires
        i < bytes@.len(),
    ensures
        found.0 == symbol_at(glyphs(bytes@), i as int).0,
        found.1 == i + symbol_at(glyphs(bytes@), i as int).1,
        found.1 <= bytes@.len(),
{
    let c = bytes[i] as char;
    if c == '(' {
        (C1Token::LeftParenthesis, i + 1)
    } else if c == ')' {
        (C1Token::RightParenthesis, i + 1)
    } else if c == '{' {
        (C1Token::LeftBrace, i + 1)
    } else if c == '}' {
        (C1Token::RightBrace, i + 1)
    } else if c == ';' {
        (C1Token::Semicolon, i + 1)
    } else if c == '+' {
        (C1Token::Plus, i + 1)
    } else if c == '-' {
        (C1Token::Minus, i + 1)
    } else if c == '*' {
        (C1Token::Asterisk, i + 1)
    } else if c == '/' {
        (C1Token::Slash, i + 1)
    } else if c == '=' {
        if holds(bytes, i + 1, '=') {
            (C1Token::Equal, i + 2)
        } else {
            (C1Token::Assign, i + 1)
        }
    } else if c == '<' {
        if holds(bytes, i + 1, '=') {
            (C1Token::LessEqual, i + 2)
        } else {
            (C1Token::Less, i + 1)
        }
    } else if c == '>' {
        if holds(bytes, i + 1, '=') {
            (C1Token::GreaterEqual, i + 2)
        } else {
            (C1Token::Greater, i + 1)
        }
    } else if c == '!' && holds(bytes, i + 1, '=') {
        (C1Token::NotEqual, i + 2)
    } else if c == '&' && holds(bytes, i + 1, '&') {
        (C1Token::And, i + 2)
    } else if c == '|' && holds(bytes, i + 1, '|') {
        (C1Token::Or, i + 2)
    } else {
        (C1Token::Unknown, i + 1)
    }
}

/// What starts at index `i`, with the index behind it.
fn piece(bytes: &[u8], i: usize) -> (found: (Option<C1Token>, usize))
    requires
        i < bytes@.len(),
    ensures
        found.0 == piece_at(glyphs(bytes@), i as int).0,
        found.1 == i + piece_at(glyphs(bytes@), i as int).1,
        i < found.1 <= bytes@.len(),
{
    let c = bytes[i] as char;
    if space(c) {
        (None, i + 1)
    } else if c == '/' && holds(bytes, i + 1, '/') {
        (None, line_end(bytes, i + 2))
    } else if c == '/' && holds(bytes, i + 1, '*') {
        match comment_end(bytes, i + 2) {
            Some(end) => (None, end),
            None => (Some(C1Token::Unknown), bytes.len()),
        }
    } else if letter(c) {
        let end = word_end(bytes, i);
        (Some(word_kind(bytes, i, end)), end)
    } else {
        match number(bytes, i) {
            Some((token, end)) => (Some(token), end),
            None => {
                let (token, end) = symbol(bytes, i);
                (Some(token), end)
            },
        }
    }
}

/// Scans a text, given by its bytes, into its lexemes.
pub fn scan(bytes: &[u8]) -> (out: Vec<Lexeme>)
    ensures
        out@ == lexemes_of(glyphs(bytes@)),
{
    let ghost src = glyphs(bytes@);
    let mut out: Vec<Lexeme> = Vec::new();
    let mut i: usize = 0;
    let mut feeds: usize = 0;
    while i < bytes.len()
        invariant
            i <= bytes@.len(),
            src == glyphs(bytes@),
            feeds == line_feeds(src, i as int),
            lexemes_of(src) =~= out@ + lexemes_from(src, i as int),
        decreases bytes@.len() - i,
    {
        let (token, end) = piece(bytes, i);
        proof {
            lemma_line_feeds_bound(src, i as int);
        }
        if let Some(t) = token {
            out.push(Lexeme { token: t, line: feeds + 1 });
        }
        feeds = line_feeds_to(bytes, i, end, feeds);
        i = end;
    }
    out
}

/// The cursor over the lexemes of one source text. It shows the token under
/// it and the one behind that, and only ever moves forward.
pub struct C1Lexer {
    lexemes: Vec<Lexeme>,
    cursor: usize,
}

impl C1Lexer {
    /// All lexemes of the text, consumed or not.
    pub closed spec fn lexemes(&self) -> Seq<Lexeme> {
        self.lexemes@
    }

    /// The number of tokens consumed so far, which is the index of the
    /// token under the cursor.
    pub closed spec fn position(&self) -> int {
        self.cursor as int
    }

    /// All tokens of the text.
    pub open spec fn tokens(&self) -> Seq<C1Token> {
        tokens_of(self.lexemes())
    }

    /// A cursor in front of the first token of `text`.
    pub fn new(text: &str) -> (lexer: C1Lexer)
        ensures
            lexer.lexemes() == text_lexemes(text),
            lexer.position() == 0,
    {
        C1Lexer { lexemes: scan(text.as_bytes()), cursor: 0 }
    }

    /// The token under the cursor, or `None` at the end of the input.
    pub fn current_token(&self) -> (token: Option<C1Token>)
        ensures
            token == crate::grammar::token_at(self.tokens(), self.position()),
    {
        if self.cursor < self.lexemes.len() {
            Some(self.lexemes[self.cursor].token)
        } else {
            None
        }
    }

    /// The token behind the one under the cursor, or `None` where there is
    /// none.
    pub fn peek_token(&self) -> (token: Option<C1Token>)
        ensures
            token == crate::grammar::token_at(self.tokens(), self.position() + 1),
    {
        if self.cursor < self.lexemes.len() && self.cursor + 1 < self.lexemes.len() {
            Some(self.lexemes[self.cursor + 1].token)
        } else {
            None
        }
    }

    /// Moves the cursor over one token. At the end of the input there is
    /// nothing to move over, and the cursor stays.
    pub fn eat(&mut self)
        ensures
            final(self).lexemes() == old(self).lexemes(),
            final(self).position() == if old(self).position() < old(self).lexemes().len() {
                old(self).position() + 1
            } else {
                old(self).position()
            },
    {
        if self.cursor < self.lexemes.len() {
            self.cursor = self.cursor + 1;
        }
    }

    /// The line of the token under the cursor, counted from 1. At the end
    /// of the input it is the line of the last token, and 1 for a text
    /// without tokens.
    pub fn current_line_number(&self) -> (line: usize)
        ensures
            line == line_at(self.lexemes(), self.position()),
    {
        let n = self.lexemes.len();
        if self.cursor < n {
            self.lexemes[self.cursor].line
        } else if n > 0 {
            self.lexemes[n - 1].line
        } else {
            1
        }
    }
}

} // verus!
