use crate::error::bytes_of;
use crate::span::{Span, SpannedToken};
use crate::token::Token;
use vstd::prelude::*;
use vstd::string::*;

verus! {

/// The byte that begins and ends a string literal.
pub const QUOTE: u8 = 34;

/// The byte that takes the next byte of a string literal as it is.
pub const BACKSLASH: u8 = 92;

/// The byte between the two parts of a float literal.
pub const POINT: u8 = 46;

/// The byte of which two begin a comment.
pub const SLASH: u8 = 47;

/// The sets of bytes that the lexer reads runs of.
#[derive(Debug, Clone, Copy, PartialEq, Eq, Structural)]
pub enum ByteClass {
    /// Letters, digits and the underscore.
    Word,
    /// Digits and the underscore.
    Digit,
    /// Bytes with which no token begins and that are no space.
    Unknown,
    /// Every byte but the line end.
    Comment,
}

/// Whether `byte` is a space, a tab, a line end, a form feed, a vertical
/// tab or a carriage return.
pub open spec fn is_space(byte: u8) -> bool {
    byte == 32 || (9 <= byte <= 13)
}

/// Whether `byte` is a letter or the underscore.
pub open spec fn is_word_start(byte: u8) -> bool {
    byte == 95 || (65 <= byte <= 90) || (97 <= byte <= 122)
}

/// Whether `byte` is a digit.
pub open spec fn is_digit(byte: u8) -> bool {
    48 <= byte <= 57
}

/// The token that the two bytes spell together, if they spell one.
pub open spec fn two_byte_symbol(first: u8, second: u8) -> Option<Token> {
    if first == 58 && second == 58 {
        // ::
        Some(Token::ColonColon)
    } else if first == 45 && second == 62 {
        // ->
        Some(Token::Arrow)
    } else if first == 61 && second == 62 {
        // =>
        Some(Token::FatArrow)
    } else if first == 43 && second == 61 {
        // +=
        Some(Token::PlusEquals)
    } else if first == 45 && second == 61 {
        // -=
        Some(Token::MinusEquals)
    } else if first == 42 && second == 61 {
        // *=
        Some(Token::AsteriskEquals)
    } else if first == 47 && second == 61 {
        // /=
        Some(Token::SlashEquals)
    } else if first == 60 && second == 61 {
        // <=
        Some(Token::LesserEqual)
    } else if first == 62 && second == 61 {
        // >=
        Some(Token::GreaterEqual)
    } else if first == 61 && second == 61 {
        // ==
        Some(Token::EqualsEquals)
    } else if first == 33 && second == 61 {
        // !=
        Some(Token::NotEqual)
    } else {
        None
    }
}

/// The token that the byte spells alone, if it spells one.
pub open spec fn one_byte_symbol(first: u8) -> Option<Token> {
    if first == 123 {
        // {
        Some(Token::OpeningBrace)
    } else if first == 125 {
        // }
        Some(Token::ClosingBrace)
    } else if first == 40 {
        // (
        Some(Token::OpeningParen)
    } else if first == 41 {
        // )
        Some(Token::ClosingParen)
    } else if first == 91 {
        // [
        Some(Token::OpeningBracket)
    } else if first == 93 {
        // ]
        Some(Token::ClosingBracket)
    } else if first == 44 {
        // ,
        Some(Token::Comma)
    } else if first == 46 {
        // .
        Some(Token::Dot)
    } else if first == 58 {
        // :
        Some(Token::Colon)
    } else if first == 59 {
        // ;
        Some(Token::Semicolon)
    } else if first == 35 {
        // #
        Some(Token::Hash)
    } else if first == 33 {
        // !
        Some(Token::Exclamation)
    } else if first == 61 {
        // =
        Some(Token::Equals)
    } else if first == 43 {
        // +
        Some(Token::Plus)
    } else if first == 45 {
        // -
        Some(Token::Minus)
    } else if first == 42 {
        // *
        Some(Token::Asterisk)
    } else if first == 47 {
        // /
        Some(Token::Slash)
    } else if first == 60 {
        // <
        Some(Token::Lesser)
    } else if first == 62 {
        // >
        Some(Token::Greater)
    } else {
        None
    }
}

/// Whether `byte` belongs to `class`.
pub open spec fn in_class(class: ByteClass, byte: u8) -> bool {
    match class {
        ByteClass::Word => is_word_start(byte) || is_digit(byte),
        ByteClass::Digit => byte == 95 || is_digit(byte),
        ByteClass::Unknown => !is_space(byte) && !is_word_start(byte) && !is_digit(byte) && byte
            != QUOTE && one_byte_symbol(byte) is None,
        ByteClass::Comment => byte != 10,
    }
}

/// The end of the longest run of bytes of `class` that begins at `from`.
pub open spec fn run_end(bytes: Seq<u8>, from: nat, class: ByteClass) -> nat
    decreases bytes.len() - from,
{
    if from < bytes.len() && in_class(class, bytes[from as int]) {
        run_end(bytes, from + 1, class)
    } else {
        from
    }
}

/// The end of the string literal whose bytes behind the opening quote
/// begin at `from`: behind the first quote that no backslash stands before.
/// `None` where the source ends first.
pub open spec fn string_end(bytes: Seq<u8>, from: nat) -> Option<nat>
    decreases bytes.len() - from,
{
    if from >= bytes.len() {
        None
    } else if bytes[from as int] == QUOTE {
        Some(from + 1)
    } else if bytes[from as int] == BACKSLASH {
        if from + 1 < bytes.len() {
            string_end(bytes, from + 2)
    } else {
        None
    }
    } else {
        string_end(bytes, from + 1)
    }
}

/// The keyword that `text` spells, and an identifier where it spells none.
pub open spec fn word_kind(text: Seq<u8>) -> Token {
    if text == bytes_of("and"@) {
        Token::And
    } else if text == bytes_of("or"@) {
        Token::Or
    } else if text == bytes_of("not"@) {
        Token::Not
    } else if text == bytes_of("struct"@) {
        Token::Struct
    } else if text == bytes_of("fn"@) {
        Token::Function
    } else if text == bytes_of("let"@) {
        Token::Let
    } else if text == bytes_of("module"@) {
        Token::Module
    } else if text == bytes_of("true"@) {
        Token::True
    } else if text == bytes_of("false"@) {
        Token::False
    } else {
        Token::Identifier
    }
}

/// Where the first token at or behind `at` begins: behind spaces and
/// comments, which run from two slashes to the end of the line.
pub open spec fn skip(bytes: Seq<u8>, at: nat) -> nat
    decreases bytes.len() - at,
{
    if at >= bytes.len() {
        at
    } else if is_space(bytes[at as int]) {
        skip(bytes, at + 1)
    } else if bytes[at as int] == SLASH && at + 1 < bytes.len() && bytes[(at + 1) as int] == SLASH {
        let end = run_end(bytes, at + 2, ByteClass::Comment);
        if at < end <= bytes.len() {
            skip(bytes, end)
        } else {
            at
        }
    } else {
        at
    }
}

/// The token that begins at `at`, where a token begins, and its end. Of
/// the tokens that can begin there it is the longest; a word that is a
/// keyword is that keyword. A run of bytes with which no token begins is
/// one error token, and so is a quote that no quote closes.
pub open spec fn scan(bytes: Seq<u8>, at: nat) -> (Token, nat) {
    let first = bytes[at as int];
    if is_word_start(first) || is_digit(first) {
        let word_end = if is_word_start(first) {
            run_end(bytes, at, ByteClass::Word)
        } else {
            at
        };
        let digits_end = run_end(bytes, at, ByteClass::Digit);
        let float_end = if digits_end > at && digits_end + 1 < bytes.len() && bytes[digits_end as int]
            == POINT && in_class(ByteClass::Digit, bytes[(digits_end + 1) as int]) {
            run_end(bytes, digits_end + 1, ByteClass::Digit)
        } else {
            at
        };
        if float_end > word_end {
            (Token::Float, float_end)
        } else if word_end >= digits_end && word_end > at {
            (word_kind(bytes.subrange(at as int, word_end as int)), word_end)
        } else {
            (Token::Integer, digits_end)
        }
    } else if first == QUOTE {
        match string_end(bytes, at + 1) {
            Some(end) => (Token::String, end),
            None => (Token::Error, at + 1),
        }
    } else if at + 1 < bytes.len() && two_byte_symbol(first, bytes[(at + 1) as int]) is Some {
        (two_byte_symbol(first, bytes[(at + 1) as int]).unwrap(), at + 2)
    } else if one_byte_symbol(first) is Some {
        (one_byte_symbol(first).unwrap(), at + 1)
    } else {
        (Token::Error, run_end(bytes, at, ByteClass::Unknown))
    }
}

/// The tokens of `bytes` from `at` on.
pub open spec fn lex(bytes: Seq<u8>, at: nat) -> Seq<SpannedToken>
    decreases bytes.len() - at,
{
    let start = skip(bytes, at);
    if start < at || start >= bytes.len() {
        Seq::empty()
    } else {
        let found = scan(bytes, start);
        if start < found.1 <= bytes.len() {
            seq![SpannedToken(Span { start: start as usize, end: found.1 as usize }, found.0)]
                + lex(bytes, found.1)
        } else {
            Seq::empty()
        }
    }
}

pub proof fn lemma_run_end_bounds(bytes: Seq<u8>, from: nat, class: ByteClass)
    requires
        from <= bytes.len(),
    ensures
        from <= run_end(bytes, from, class) <= bytes.len(),
    decreases bytes.len() - from,
{
    if from < bytes.len() && in_class(class, bytes[from as int]) {
        lemma_run_end_bounds(bytes, from + 1, class);
    }
}

fn space(byte: u8) -> (result: bool)
    ensures
        result == is_space(byte),
{
    byte == 32 || (9 <= byte && byte <= 13)
}

fn word_start(byte: u8) -> (result: bool)
    ensures
        result == is_word_start(byte),
{
    byte == 95 || (65 <= byte && byte <= 90) || (97 <= byte && byte <= 122)
}

fn digit(byte: u8) -> (result: bool)
    ensures
        result == is_digit(byte),
{
    48 <= byte && byte <= 57
}

fn symbol_of_two(first: u8, second: u8) -> (result: Option<Token>)
    ensures
        result == two_byte_symbol(first, second),
{
    if first == 58 && second == 58 {
        // ::
        Some(Token::ColonColon)
    } else if first == 45 && second == 62 {
        // ->
        Some(Token::Arrow)
    } else if first == 61 && second == 62 {
        // =>
        Some(Token::FatArrow)
    } else if first == 43 && second == 61 {
        // +=
        Some(Token::PlusEquals)
    } else if first == 45 && second == 61 {
        // -=
        Some(Token::MinusEquals)
    } else if first == 42 && second == 61 {
        // *=
        Some(Token::AsteriskEquals)
    } else if first == 47 && second == 61 {
        // /=
        Some(Token::SlashEquals)
    } else if first == 60 && second == 61 {
        // <=
        Some(Token::LesserEqual)
    } else if first == 62 && second == 61 {
        // >=
        Some(Token::GreaterEqual)
    } else if first == 61 && second == 61 {
        // ==
        Some(Token::EqualsEquals)
    } else if first == 33 && second == 61 {
        // !=
        Some(Token::NotEqual)
    } else {
        None
    }
}

fn symbol_of_one(first: u8) -> (result: Option<Token>)
    ensures
        result == one_byte_symbol(first),
{
    if first == 123 {
        // {
        Some(Token::OpeningBrace)
    } else if first == 125 {
        // }
        Some(Token::ClosingBrace)
    } else if first == 40 {
        // (
        Some(Token::OpeningParen)
    } else if first == 41 {
        // )
        Some(Token::ClosingParen)
    } else if first == 91 {
        // [
        Some(Token::OpeningBracket)
    } else if first == 93 {
        // ]
        Some(Token::ClosingBracket)
    } else if first == 44 {
        // ,
        Some(Token::Comma)
    } else if first == 46 {
        // .
        Some(Token::Dot)
    } else if first == 58 {
        // :
        Some(Token::Colon)
    } else if first == 59 {
        // ;
        Some(Token::Semicolon)
    } else if first == 35 {
        // #
        Some(Token::Hash)
    } else if first == 33 {
        // !
        Some(Token::Exclamation)
    } else if first == 61 {
        // =
        Some(Token::Equals)
    } else if first == 43 {
        // +
        Some(Token::Plus)
    } else if first == 45 {
        // -
        Some(Token::Minus)
    } else if first == 42 {
        // *
        Some(Token::Asterisk)
    } else if first == 47 {
        // /
        Some(Token::Slash)
    } else if first == 60 {
        // <
        Some(Token::Lesser)
    } else if first == 62 {
        // >
        Some(Token::Greater)
    } else {
        None
    }
}

fn belongs(class: ByteClass, byte: u8) -> (result: bool)
    ensures
        result == in_class(class, byte),
{
    match class {
        ByteClass::Word => word_start(byte) || digit(byte),
        ByteClass::Digit => byte == 95 || digit(byte),
        ByteClass::Unknown => !space(byte) && !word_start(byte) && !digit(byte) && byte != QUOTE
            && symbol_of_one(byte).is_none(),
        ByteClass::Comment => byte != 10,
    }
}

/// The end of the longest run of bytes of `class` that begins at `from`.
pub fn scan_run(bytes: &[u8], from: usize, class: ByteClass) -> (result: usize)
    requires
        from <= bytes@.len(),
    ensures
        result == run_end(bytes@, from as nat, class),
        from <= result <= bytes@.len(),
{
    let mut at: usize = from;
    while at < bytes.len() && belongs(class, bytes[at])
        invariant
            from <= at <= bytes@.len(),
            run_end(bytes@, at as nat, class) == run_end(bytes@, from as nat, class),
        decreases bytes@.len() - at,
    {
        at += 1;
    }
    at
}

/// The end of the string literal whose bytes behind the opening quote
/// begin at `from`.
pub fn scan_string(bytes: &[u8], from: usize) -> (result: Option<usize>)
    requires
        from <= bytes@.len(),
    ensures
        match result {
            Some(end) => string_end(bytes@, from as nat) == Some(end as nat) && from < end
                <= bytes@.len(),
            None => string_end(bytes@, from as nat) is None,
        },
{
    let mut at: usize = from;
    while at < bytes.len()
        invariant
            from <= at <= bytes@.len(),
            string_end(bytes@, at as nat) == string_end(bytes@, from as nat),
        decreases bytes@.len() - at,
    {
        let byte = bytes[at];
        if byte == QUOTE {
            return Some(at + 1);
        } else if byte == BACKSLASH {
            if bytes.len() - at > 1 {
                at += 2;
            } else {
                return None;
            }
        } else {
            at += 1;
        }
    }
    None
}

/// Whether the bytes from `start` up to `end` spell `word`.
pub fn same_text(bytes: &[u8], start: usize, end: usize, word: &str) -> (result: bool)
    requires
        start <= end <= bytes@.len(),
    ensures
        result == (bytes@.subrange(start as int, end as int) == bytes_of(word@)),
{
    let other = word.as_bytes();
    if other.len() != end - start {
        return false;
    }
    let mut index: usize = 0;
    while index < other.len()
        invariant
            start <= end <= bytes@.len(),
            other@.len() == end - start,
            index <= other@.len(),
            other@ == bytes_of(word@),
            forall|k: int| 0 <= k < index ==> bytes@[start + k] == other@[k],
        decreases other@.len() - index,
    {
        if bytes[start + index] != other[index] {
            assert(bytes@.subrange(start as int, end as int)[index as int] != other@[index as int]);
            return false;
        }
        index += 1;
    }
    assert(bytes@.subrange(start as int, end as int) =~= other@);
    true
}

/// The keyword that the bytes from `start` up to `end` spell, and an
/// identifier where they spell none.
pub fn classify_word(bytes: &[u8], start: usize, end: usize) -> (result: Token)
    requires
        start <= end <= bytes@.len(),
    ensures
        result == word_kind(bytes@.subrange(start as int, end as int)),
{
    if same_text(bytes, start, end, "and") {
        Token::And
    } else if same_text(bytes, start, end, "or") {
        Token::Or
    } else if same_text(bytes, start, end, "not") {
        Token::Not
    } else if same_text(bytes, start, end, "struct") {
        Token::Struct
    } else if same_text(bytes, start, end, "fn") {
        Token::Function
    } else if same_text(bytes, start, end, "let") {
        Token::Let
    } else if same_text(bytes, start, end, "module") {
        Token::Module
    } else if same_text(bytes, start, end, "true") {
        Token::True
    } else if same_text(bytes, start, end, "false") {
        Token::False
    } else {
        Token::Identifier
    }
}

/// Where the first token at or behind `at` begins.
pub fn skip_blank(bytes: &[u8], at: usize) -> (result: usize)
    requires
        at <= bytes@.len(),
    ensures
        result == skip(bytes@, at as nat),
        at <= result <= bytes@.len(),
        result < bytes@.len() ==> !is_space(bytes@[result as int]),
{
    let mut place: usize = at;
    loop
        invariant
            at <= place <= bytes@.len(),
            skip(bytes@, place as nat) == skip(bytes@, at as nat),
        decreases bytes@.len() - place,
    {
        if place >= bytes.len() {
            return place;
        }
        let byte = bytes[place];
        if space(byte) {
            place += 1;
        } else if byte == SLASH && bytes.len() - place > 1 && bytes[place + 1] == SLASH {
            let end = scan_run(bytes, place + 2, ByteClass::Comment);
            place = end;
        } else {
            return place;
        }
    }
}

/// The token that begins at `at`, and its end.
pub fn scan_token(bytes: &[u8], at: usize) -> (result: (Token, usize))
    requires
        at < bytes@.len(),
        !is_space(bytes@[at as int]),
    ensures
        result.0 == scan(bytes@, at as nat).0,
        result.1 == scan(bytes@, at as nat).1,
        at < result.1 <= bytes@.len(),
{
    let first = bytes[at];
    if word_start(first) || digit(first) {
        let word_end: usize = if word_start(first) {
            scan_run(bytes, at, ByteClass::Word)
        } else {
            at
        };
        let digits_end = scan_run(bytes, at, ByteClass::Digit);
        let float_end: usize = if digits_end > at && bytes.len() - digits_end > 1
            && bytes[digits_end] == POINT && belongs(ByteClass::Digit, bytes[digits_end + 1]) {
            scan_run(bytes, digits_end + 1, ByteClass::Digit)
        } else {
            at
        };
        proof {
            lemma_run_end_bounds(bytes@, (at + 1) as nat, ByteClass::Word);
            lemma_run_end_bounds(bytes@, (at + 1) as nat, ByteClass::Digit);
        }
        assert(run_end(bytes@, at as nat, ByteClass::Word) > at || !is_word_start(first));
        assert(run_end(bytes@, at as nat, ByteClass::Digit) > at || is_word_start(first));
        if float_end > word_end {
            (Token::Float, float_end)
        } else if word_end >= digits_end && word_end > at {
            (classify_word(bytes, at, word_end), word_end)
        } else {
            (Token::Integer, digits_end)
        }
    } else if first == QUOTE {
        match scan_string(bytes, at + 1) {
            Some(end) => (Token::String, end),
            None => (Token::Error, at + 1),
        }
    } else {
        if bytes.len() - at > 1 {
            match symbol_of_two(first, bytes[at + 1]) {
                Some(token) => {
                    return (token, at + 2);
                },
                None => {},
            }
        }
        match symbol_of_one(first) {
            Some(token) => (token, at + 1),
            None => {
                proof {
                    lemma_run_end_bounds(bytes@, (at + 1) as nat, ByteClass::Unknown);
                }
                assert(run_end(bytes@, at as nat, ByteClass::Unknown) > at);
                (Token::Error, scan_run(bytes, at, ByteClass::Unknown))
            },
        }
    }
}

/// The tokens of `bytes`, in their order.
pub fn tokenize_bytes(bytes: &[u8]) -> (result: Vec<SpannedToken>)
    ensures
        result@ == lex(bytes@, 0),
{
    let mut out: Vec<SpannedToken> = Vec::new();
    let mut at: usize = 0;
    loop
        invariant
            at <= bytes@.len(),
            lex(bytes@, 0) == out@ + lex(bytes@, at as nat),
        decreases bytes@.len() - at,
    {
        let start = skip_blank(bytes, at);
        if start >= bytes.len() {
            assert(lex(bytes@, at as nat) =~= Seq::empty());
            assert(lex(bytes@, 0) =~= out@);
            return out;
        }
        let found = scan_token(bytes, start);
        let ghost before = out@;
        let token = SpannedToken(Span { start, end: found.1 }, found.0);
        out.push(token);
        proof {
            assert(lex(bytes@, at as nat) =~= seq![token] + lex(bytes@, found.1 as nat));
            assert(lex(bytes@, 0) =~= out@ + lex(bytes@, found.1 as nat));
        }
        at = found.1;
    }
}

/// The tokens of `source`, in their order: spaces and comments are left
/// out, and what is no token becomes an error token.
pub fn tokenize(source: &str) -> (result: Vec<SpannedToken>)
    ensures
        result@ == lex(source.spec_bytes(), 0),
{
    tokenize_bytes(source.as_bytes())
}

/// Every token of a source lies in it, is not empty, and begins where the
/// token before it ends or behind that.
pub proof fn lemma_tokens_in_order(bytes: Seq<u8>, at: nat, index: int)
    requires
        at <= bytes.len() <= usize::MAX,
        0 <= index < lex(bytes, at).len(),
    ensures
        at <= lex(bytes, at)[index].0.start < lex(bytes, at)[index].0.end <= bytes.len(),
        index > 0 ==> lex(bytes, at)[index - 1].0.end <= lex(bytes, at)[index].0.start,
    decreases bytes.len() - at,
{
    let start = skip(bytes, at);
    let found = scan(bytes, start);
    if index > 0 {
        lemma_tokens_in_order(bytes, found.1, index - 1);
    }
}

} // verus!
