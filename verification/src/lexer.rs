//! Lexical analysis: from a line of source text to a list of tokens.

use vstd::prelude::*;
use crate::decimal::value_of;

verus! {

/// The kind of a token, with what it holds.
#[derive(Debug, PartialEq)]
pub enum Lexeme {
    Identifier(String),
    Integer(i64),
    BinaryOperator(String),
    Let,
    In,
    Equals,
    Lambda,
    Dot,
    LeftParen,
    RightParen,
    Comma,
}

/// A lexeme with its place in the source text.
#[derive(Debug, PartialEq)]
pub struct Token {
    pub token_type: Lexeme,
    pub line_number: usize,
    pub char_start: usize,
    pub char_end: usize,
}

/// A lexeme as a mathematical value.
pub enum Symbol {
    Identifier(Seq<char>),
    Integer(i64),
    BinaryOperator(Seq<char>),
    Let,
    In,
    Equals,
    Lambda,
    Dot,
    LeftParen,
    RightParen,
    Comma,
}

/// A token as a mathematical value: the symbol, the line, and the
/// positions of its first character and of the one after its last.
pub struct Placed {
    pub symbol: Symbol,
    pub line: nat,
    pub start: nat,
    pub end: nat,
}

impl View for Lexeme {
    type V = Symbol;

    open spec fn view(&self) -> Symbol {
        match self {
            Lexeme::Identifier(name) => Symbol::Identifier(name@),
            Lexeme::Integer(value) => Symbol::Integer(*value),
            Lexeme::BinaryOperator(operator) => Symbol::BinaryOperator(operator@),
            Lexeme::Let => Symbol::Let,
            Lexeme::In => Symbol::In,
            Lexeme::Equals => Symbol::Equals,
            Lexeme::Lambda => Symbol::Lambda,
            Lexeme::Dot => Symbol::Dot,
            Lexeme::LeftParen => Symbol::LeftParen,
            Lexeme::RightParen => Symbol::RightParen,
            Lexeme::Comma => Symbol::Comma,
        }
    }
}

impl View for Token {
    type V = Placed;

    open spec fn view(&self) -> Placed {
        Placed {
            symbol: self.token_type@,
            line: self.line_number as nat,
            start: self.char_start as nat,
            end: self.char_end as nat,
        }
    }
}

impl Clone for Lexeme {
    fn clone(&self) -> (copy: Self)
        ensures
            copy == *self,
    {
        match self {
            Lexeme::Identifier(name) => Lexeme::Identifier(name.clone()),
            Lexeme::Integer(value) => Lexeme::Integer(*value),
            Lexeme::BinaryOperator(operator) => Lexeme::BinaryOperator(operator.clone()),
            Lexeme::Let => Lexeme::Let,
            Lexeme::In => Lexeme::In,
            Lexeme::Equals => Lexeme::Equals,
            Lexeme::Lambda => Lexeme::Lambda,
            Lexeme::Dot => Lexeme::Dot,
            Lexeme::LeftParen => Lexeme::LeftParen,
            Lexeme::RightParen => Lexeme::RightParen,
            Lexeme::Comma => Lexeme::Comma,
        }
    }
}

impl Clone for Token {
    fn clone(&self) -> (copy: Self)
        ensures
            copy == *self,
    {
        Token {
            token_type: self.token_type.clone(),
            line_number: self.line_number,
            char_start: self.char_start,
            char_end: self.char_end,
        }
    }
}

/// The views of a list of tokens.
pub open spec fn placed(tokens: Seq<Token>) -> Seq<Placed> {
    Seq::new(tokens.len(), |i: int| tokens[i]@)
}

/// Blank, tab or line feed.
pub open spec fn is_whitespace(c: char) -> bool {
    c == ' ' || c == '\t' || c == '\n'
}

/// A letter of the English alphabet.
pub open spec fn is_letter(c: char) -> bool {
    ('a' <= c && c <= 'z') || ('A' <= c && c <= 'Z')
}

/// A decimal digit.
pub open spec fn is_digit(c: char) -> bool {
    '0' <= c && c <= '9'
}

/// A character that may stand in an identifier.
pub open spec fn is_word_character(c: char) -> bool {
    is_letter(c) || is_digit(c) || c == '_'
}

/// One of the five operator characters.
pub open spec fn is_operator(c: char) -> bool {
    c == '+' || c == '-' || c == '*' || c == '/' || c == '%'
}

/// What the lexer sees at a position: the character there, or the end
/// mark (the character zero) past the end and in place of any character
/// outside ASCII.
pub open spec fn visible(input: Seq<char>, position: int) -> char {
    if 0 <= position < input.len() && (input[position] as u32) < 128 {
        input[position]
    } else {
        '\0'
    }
}

/// Where the run of identifier characters that starts at `position` ends.
pub open spec fn word_end(input: Seq<char>, position: nat) -> nat
    decreases input.len() - position,
{
    if position < input.len() && is_word_character(visible(input, position as int)) {
        word_end(input, position + 1)
    } else {
        position
    }
}

/// Where the run of digits that starts at `position` ends.
pub open spec fn number_end(input: Seq<char>, position: nat) -> nat
    decreases input.len() - position,
{
    if position < input.len() && is_digit(visible(input, position as int)) {
        number_end(input, position + 1)
    } else {
        position
    }
}

/// The symbol of a word: a keyword or an identifier.
pub open spec fn word_symbol(word: Seq<char>) -> Symbol {
    if word == seq!['l', 'e', 't'] {
        Symbol::Let
    } else if word == seq!['i', 'n'] {
        Symbol::In
    } else {
        Symbol::Identifier(word)
    }
}

/// The symbol that a single character makes, if it makes one.
pub open spec fn single(c: char) -> Option<Symbol> {
    if is_operator(c) {
        Some(Symbol::BinaryOperator(seq![c]))
    } else if c == '\\' || c == '^' {
        Some(Symbol::Lambda)
    } else if c == '.' {
        Some(Symbol::Dot)
    } else if c == '(' {
        Some(Symbol::LeftParen)
    } else if c == ')' {
        Some(Symbol::RightParen)
    } else if c == ',' {
        Some(Symbol::Comma)
    } else if c == '=' {
        Some(Symbol::Equals)
    } else {
        None
    }
}

/// Why a text could not be split into tokens.
#[derive(Debug, Clone, Copy, PartialEq, Eq, Structural)]
pub enum ScanError {
    /// A character that starts no token and is no whitespace.
    UnexpectedSymbol,
    /// An integer literal above the largest 64-bit signed integer.
    IntegerOutOfRange,
}

/// The text of a scan error.
pub open spec fn error_text(error: ScanError) -> Seq<char> {
    match error {
        ScanError::UnexpectedSymbol => "Unexpected symbol encountered!"@,
        ScanError::IntegerOutOfRange => "Integer literal out of range!"@,
    }
}

/// How a scan ends: the tokens found, the position reached, and the
/// error that stopped it, if one did.
pub struct Scan {
    pub tokens: Seq<Placed>,
    pub position: nat,
    pub failure: Option<ScanError>,
}

/// A scan with more tokens in front.
pub open spec fn after(tokens: Seq<Placed>, rest: Scan) -> Scan {
    Scan { tokens: tokens + rest.tokens, position: rest.position, failure: rest.failure }
}

/// The scan of `input` from `position` on.
///
/// Whitespace separates tokens. A word is the longest run of identifier
/// characters from a letter on, a number the longest run of digits. The
/// scan ends at the end of the text, and also, without an error, at the
/// character zero and at the first character outside ASCII.
pub open spec fn scanned(input: Seq<char>, position: nat) -> Scan
    decreases input.len() - position,
    via scanned_decreases
{
    let c = visible(input, position as int);
    if c == '\0' {
        Scan { tokens: Seq::empty(), position, failure: None }
    } else if is_whitespace(c) {
        scanned(input, position + 1)
    } else if is_letter(c) {
        let end = word_end(input, position);
        let token = Placed {
            symbol: word_symbol(input.subrange(position as int, end as int)),
            line: 0,
            start: position,
            end,
        };
        after(seq![token], scanned(input, end))
    } else if is_digit(c) {
        let end = number_end(input, position);
        let value = value_of(input.subrange(position as int, end as int));
        if value > i64::MAX {
            Scan {
                tokens: Seq::empty(),
                position: end,
                failure: Some(ScanError::IntegerOutOfRange),
            }
        } else {
            let token = Placed {
                symbol: Symbol::Integer(value as i64),
                line: 0,
                start: position,
                end,
            };
            after(seq![token], scanned(input, end))
        }
    } else {
        match single(c) {
            Some(symbol) => {
                let token = Placed {
                    symbol,
                    line: 0,
                    start: position,
                    end: position + 1,
                };
                after(seq![token], scanned(input, position + 1))
            },
            None => Scan {
                tokens: Seq::empty(),
                position,
                failure: Some(ScanError::UnexpectedSymbol),
            },
        }
    }
}

#[via_fn]
proof fn scanned_decreases(input: Seq<char>, position: nat) {
    lemma_word_end_bounds(input, position);
    lemma_number_end_bounds(input, position);
}

/// A run of identifier characters ends within the text, and after its
/// first character where it has one.
pub proof fn lemma_word_end_bounds(input: Seq<char>, position: nat)
    ensures
        position <= input.len() ==> position <= word_end(input, position) <= input.len(),
        position < input.len() && is_word_character(visible(input, position as int))
            ==> position < word_end(input, position),
    decreases input.len() - position,
{
    if position < input.len() && is_word_character(visible(input, position as int)) {
        lemma_word_end_bounds(input, position + 1);
    }
}

/// A run of digits ends within the text, and after its first digit where
/// it has one.
pub proof fn lemma_number_end_bounds(input: Seq<char>, position: nat)
    ensures
        position <= input.len() ==> position <= number_end(input, position) <= input.len(),
        position < input.len() && is_digit(visible(input, position as int)) ==> position
            < number_end(input, position),
    decreases input.len() - position,
{
    if position < input.len() && is_digit(visible(input, position as int)) {
        lemma_number_end_bounds(input, position + 1);
    }
}

/// Whether every character of the text is a digit.
pub open spec fn all_digits(text: Seq<char>) -> bool {
    forall|i: int| 0 <= i < text.len() ==> is_digit(#[trigger] text[i])
}

/// Whether every character of the text may stand in an identifier.
pub open spec fn all_word_characters(text: Seq<char>) -> bool {
    forall|i: int| 0 <= i < text.len() ==> is_word_character(#[trigger] text[i])
}

/// The symbol that a whole text denotes, if it denotes one: an operator
/// or a punctuation mark, a keyword, a number that fits in 64 signed
/// bits, or an identifier (any other text of identifier characters).
pub open spec fn lexeme_of(text: Seq<char>) -> Option<Symbol> {
    if text.len() == 1 && single(text[0]) is Some {
        single(text[0])
    } else if text == seq!['l', 'e', 't'] {
        Some(Symbol::Let)
    } else if text == seq!['i', 'n'] {
        Some(Symbol::In)
    } else if all_digits(text) {
        if text.len() > 0 && value_of(text) <= i64::MAX {
            Some(Symbol::Integer(value_of(text) as i64))
        } else {
            None
        }
    } else if all_word_characters(text) {
        Some(Symbol::Identifier(text))
    } else {
        None
    }
}

/// The characters of a text, one by one.
pub fn characters(text: &str) -> (list: Vec<char>)
    ensures
        list@ == text@,
{
    let mut list: Vec<char> = Vec::new();
    for c in it: text.chars()
        invariant
            list@ == it.seq().take(it.index() as int),
            it.seq() == text@,
    {
        list.push(c);
    }
    list
}

fn whitespace(c: char) -> (yes: bool)
    ensures
        yes == is_whitespace(c),
{
    c == ' ' || c == '\t' || c == '\n'
}

fn letter(c: char) -> (yes: bool)
    ensures
        yes == is_letter(c),
{
    (c >= 'a' && c <= 'z') || (c >= 'A' && c <= 'Z')
}

fn numeral(c: char) -> (yes: bool)
    ensures
        yes == is_digit(c),
{
    c >= '0' && c <= '9'
}

fn word_character(c: char) -> (yes: bool)
    ensures
        yes == is_word_character(c),
{
    letter(c) || numeral(c) || c == '_'
}

/// The lexeme that a single character makes, if it makes one.
fn single_lexeme(c: char) -> (lexeme: Option<Lexeme>)
    ensures
        match lexeme {
            Some(lexeme) => single(c) == Some(lexeme@),
            None => single(c) is None,
        },
{
    if c == '+' || c == '-' || c == '*' || c == '/' || c == '%' {
        let mut operator = String::new();
        operator.push(c);
        assert(operator@ =~= seq![c]);
        Some(Lexeme::BinaryOperator(operator))
    } else if c == '\\' || c == '^' {
        Some(Lexeme::Lambda)
    } else if c == '.' {
        Some(Lexeme::Dot)
    } else if c == '(' {
        Some(Lexeme::LeftParen)
    } else if c == ')' {
        Some(Lexeme::RightParen)
    } else if c == ',' {
        Some(Lexeme::Comma)
    } else if c == '=' {
        Some(Lexeme::Equals)
    } else {
        None
    }
}

/// The number that the digits from `start` to `end` denote, unless it is
/// above the largest 64-bit signed integer.
fn parse_number(input: &Vec<char>, start: usize, end: usize) -> (value: Option<i64>)
    requires
        start <= end <= input.len(),
        all_digits(input@.subrange(start as int, end as int)),
    ensures
        match value {
            Some(value) => value == value_of(input@.subrange(start as int, end as int)),
            None => value_of(input@.subrange(start as int, end as int)) > i64::MAX,
        },
{
    let ghost digits = input@.subrange(start as int, end as int);
    let mut total: u64 = 0;
    let mut index = start;
    assert(digits.take(0) =~= Seq::<char>::empty());
    while index < end
        invariant
            start <= index <= end <= input.len(),
            digits == input@.subrange(start as int, end as int),
            all_digits(digits),
            total == value_of(digits.take(index - start)),
            total <= i64::MAX,
        decreases end - index,
    {
        let c = input[index];
        assert(c == digits[index - start]);
        let last: u64 = (c as u32 - 48) as u64;
        proof {
            let longer = digits.take(index - start + 1);
            assert(longer.drop_last() =~= digits.take(index - start));
            assert(longer.last() == c);
            lemma_value_of_prefix(digits, index - start + 1);
        }
        if total > (0x7fff_ffff_ffff_ffffu64 - last) / 10 {
            return None;
        }
        total = total * 10 + last;
        index += 1;
    }
    assert(digits.take(end - start) =~= digits);
    Some(total as i64)
}

/// Splits a line of source text into tokens.
#[derive(Debug, PartialEq)]
pub struct Lexer {
    input: Vec<char>,
    position: usize,
}

/// What a lexer holds: the text and the position of the next character.
pub struct LexerState {
    pub input: Seq<char>,
    pub position: nat,
}

impl View for Lexer {
    type V = LexerState;

    closed spec fn view(&self) -> LexerState {
        LexerState { input: self.input@, position: self.position as nat }
    }
}

impl Lexer {
    /// A lexer at the start of `input`.
    pub fn new(input: String) -> (lexer: Lexer)
        ensures
            lexer@ == (LexerState { input: input@, position: 0 }),
    {
        Lexer { input: characters(input.as_str()), position: 0 }
    }

    fn position(&self) -> (position: usize)
        ensures
            position == self@.position,
    {
        self.position
    }

    /// The character at the position, and a step past it.
    fn next(&mut self) -> (character: Option<char>)
        requires
            old(self)@.position < usize::MAX,
        ensures
            character == Some(visible(old(self)@.input, old(self)@.position as int)),
            final(self)@ == (LexerState {
                input: old(self)@.input,
                position: old(self)@.position + 1,
            }),
    {
        let character = self.peek();
        self.position += 1;
        character
    }

    /// The character at the position, or the end mark.
    fn peek(&mut self) -> (character: Option<char>)
        ensures
            character == Some(visible(old(self)@.input, old(self)@.position as int)),
            *final(self) == *old(self),
    {
        if self.position >= self.input.len() {
            return Some('\0');
        }
        let character = self.input[self.position];
        if (character as u32) < 128 {
            Some(character)
        } else {
            Some('\0')
        }
    }

    /// Splits what is left of the text into tokens.
    ///
    /// The result is the list of tokens, or the text of the error that
    /// stopped the scan; the lexer is left where the scan ended.
    pub fn scan(&mut self) -> (result: Result<Vec<Token>, String>)
        ensures
            final(self)@ == (LexerState {
                input: old(self)@.input,
                position: scanned(old(self)@.input, old(self)@.position).position,
            }),
            match result {
                Ok(tokens) => {
                    &&& scanned(old(self)@.input, old(self)@.position).failure is None
                    &&& placed(tokens@) == scanned(old(self)@.input, old(self)@.position).tokens
                },
                Err(text) => {
                    &&& scanned(old(self)@.input, old(self)@.position).failure matches Some(error)
                    &&& text@ == error_text(error)
                },
            },
    {
        let ghost input = self@.input;
        let ghost start = self@.position;
        let mut token_list: Vec<Token> = Vec::new();
        assert(after(placed(token_list@), scanned(input, start)) == scanned(input, start)) by {
            assert(placed(token_list@) + scanned(input, start).tokens =~= scanned(
                input,
                start,
            ).tokens);
        }
        loop
            invariant
                input == old(self)@.input,
                start == old(self)@.position,
                self@.input == input,
                scanned(input, start) == after(placed(token_list@), scanned(input, self@.position)),
            decreases input.len() - self@.position,
        {
            let symbol = self.peek().unwrap();
            let symbol_position = self.position;
            let ghost before = placed(token_list@);
            if symbol == '\0' {
                assert(placed(token_list@) + Seq::<Placed>::empty() =~= placed(token_list@));
                return Ok(token_list);
            }
            assert(self.position < self.input.len());
            if whitespace(symbol) {
                self.next();
            } else if letter(symbol) {
                let mut identifier = String::new();
                assert(identifier@ =~= input.subrange(
                    symbol_position as int,
                    symbol_position as int,
                ));
                loop
                    invariant
                        self@.input == input,
                        symbol_position <= self@.position <= input.len(),
                        word_end(input, symbol_position as nat) == word_end(input, self@.position),
                        identifier@ == input.subrange(
                            symbol_position as int,
                            self@.position as int,
                        ),
                        all_word_characters(identifier@),
                    ensures
                        self@.input == input,
                        self@.position == word_end(input, symbol_position as nat),
                        identifier@ == input.subrange(
                            symbol_position as int,
                            self@.position as int,
                        ),
                        all_word_characters(identifier@),
                    decreases input.len() - self@.position,
                {
                    let character = self.peek().unwrap();
                    if self.position < self.input.len() && word_character(character) {
                        identifier.push(character);
                        self.next();
                        assert(identifier@ =~= input.subrange(
                            symbol_position as int,
                            self@.position as int,
                        ));
                    } else {
                        break ;
                    }
                }
                proof {
                    lemma_word_end_bounds(input, symbol_position as nat);
                    assert(identifier@[0] == symbol);
                    lemma_word_is_lexeme(identifier@);
                }
                let end = self.position();
                token_list.push(
                    Token {
                        token_type: lexeme_from_string(identifier),
                        line_number: 0,
                        char_start: symbol_position,
                        char_end: end,
                    },
                );
            } else if numeral(symbol) {
                loop
                    invariant
                        self@.input == input,
                        symbol_position <= self@.position <= input.len(),
                        number_end(input, symbol_position as nat) == number_end(
                            input,
                            self@.position,
                        ),
                        all_digits(
                            input.subrange(symbol_position as int, self@.position as int),
                        ),
                    ensures
                        self@.input == input,
                        symbol_position <= self@.position <= input.len(),
                        self@.position == number_end(input, symbol_position as nat),
                        all_digits(
                            input.subrange(symbol_position as int, self@.position as int),
                        ),
                    decreases input.len() - self@.position,
                {
                    let character = self.peek().unwrap();
                    if self.position < self.input.len() && numeral(character) {
                        let ghost shorter = input.subrange(
                            symbol_position as int,
                            self@.position as int,
                        );
                        self.next();
                        assert forall|i: int|
                            0 <= i < self@.position - symbol_position implies is_digit(
                            #[trigger] input.subrange(
                                symbol_position as int,
                                self@.position as int,
                            )[i],
                        ) by {
                            if i < shorter.len() {
                                assert(input.subrange(
                                    symbol_position as int,
                                    self@.position as int,
                                )[i] == shorter[i]);
                            }
                        }
                    } else {
                        break ;
                    }
                }
                let end = self.position();
                match parse_number(&self.input, symbol_position, end) {
                    Some(value) => {
                        token_list.push(
                            Token {
                                token_type: Lexeme::Integer(value),
                                line_number: 0,
                                char_start: symbol_position,
                                char_end: end,
                            },
                        );
                    },
                    None => {
                        return Err(String::from_str("Integer literal out of range!"));
                    },
                }
            } else {
                match single_lexeme(symbol) {
                    Some(lexeme) => {
                        self.next();
                        let end = self.position();
                        token_list.push(
                            Token {
                                token_type: lexeme,
                                line_number: 0,
                                char_start: symbol_position,
                                char_end: end,
                            },
                        );
                    },
                    None => {
                        return Err(String::from_str("Unexpected symbol encountered!"));
                    },
                }
            }
            proof {
                if !is_whitespace(symbol) {
                    let token = token_list@.last()@;
                    let rest = scanned(input, self@.position);
                    assert(scanned(input, symbol_position as nat) == after(seq![token], rest));
                    assert(placed(token_list@) =~= before.push(token));
                    assert(before + (seq![token] + rest.tokens) =~= before.push(token)
                        + rest.tokens);
                }
            }
            if self.position >= self.input.len() {
                assert(placed(token_list@) + Seq::<Placed>::empty() =~= placed(token_list@));
                return Ok(token_list);
            }
        }
    }
}

/// The lexeme that a whole text denotes.
pub fn lexeme_from_string(input: String) -> (lexeme: Lexeme)
    requires
        lexeme_of(input@) is Some,
    ensures
        lexeme_of(input@) == Some(lexeme@),
{
    let list = characters(input.as_str());
    let length = list.len();
    if length == 1 {
        let first = list[0];
        if first == '+' || first == '-' || first == '*' || first == '/' || first == '%' {
            assert(input@ =~= seq![first]);
            return Lexeme::BinaryOperator(input);
        }
        match single_lexeme(first) {
            Some(lexeme) => {
                return lexeme;
            },
            None => {},
        }
    }
    if length == 3 && list[0] == 'l' && list[1] == 'e' && list[2] == 't' {
        assert(input@ =~= seq!['l', 'e', 't']);
        return Lexeme::Let;
    }
    if length == 2 && list[0] == 'i' && list[1] == 'n' {
        assert(input@ =~= seq!['i', 'n']);
        return Lexeme::In;
    }
    assert(input@ != seq!['l', 'e', 't']) by {
        if input@ == seq!['l', 'e', 't'] {
            assert(seq!['l', 'e', 't'].len() == 3);
            assert(seq!['l', 'e', 't'][0] == 'l');
            assert(seq!['l', 'e', 't'][1] == 'e');
            assert(seq!['l', 'e', 't'][2] == 't');
        }
    }
    assert(input@ != seq!['i', 'n']) by {
        if input@ == seq!['i', 'n'] {
            assert(seq!['i', 'n'].len() == 2);
            assert(seq!['i', 'n'][0] == 'i');
            assert(seq!['i', 'n'][1] == 'n');
        }
    }
    let mut index: usize = 0;
    while index < length && numeral(list[index])
        invariant
            index <= length == list.len(),
            forall|i: int| 0 <= i < index ==> is_digit(#[trigger] list@[i]),
        decreases length - index,
    {
        index += 1;
    }
    if index == length {
        assert(list@.subrange(0, length as int) =~= list@);
        match parse_number(&list, 0, length) {
            Some(value) => Lexeme::Integer(value),
            None => Lexeme::Integer(0),
        }
    } else {
        assert(!is_digit(list@[index as int]));
        Lexeme::Identifier(input)
    }
}

/// A word that starts with a letter denotes a symbol: a keyword or an
/// identifier.
pub proof fn lemma_word_is_lexeme(word: Seq<char>)
    requires
        word.len() > 0,
        is_letter(word[0]),
        all_word_characters(word),
    ensures
        lexeme_of(word) == Some(word_symbol(word)),
{
    assert(single(word[0]) is None);
    assert(!is_digit(word[0]));
}

/// The number of the first digits of a text is at most the number of
/// the whole.
pub proof fn lemma_value_of_prefix(digits: Seq<char>, length: int)
    requires
        0 <= length <= digits.len(),
        all_digits(digits),
    ensures
        value_of(digits.take(length)) <= value_of(digits),
    decreases digits.len() - length,
{
    if length < digits.len() {
        let longer = digits.take(length + 1);
        assert(longer.drop_last() =~= digits.take(length));
        assert(longer.last() == digits[length]);
        lemma_value_of_prefix(digits, length + 1);
    } else {
        assert(digits.take(length) =~= digits);
    }
}

} // verus!
