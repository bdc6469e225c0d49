//! The tokenizer: one pass over the characters of the source, line by line,
//! in which each character extends or follows the last token, and a second
//! pass that drops what stands between `/*` and `*/`.

use vstd::prelude::*;
use crate::enums::{token_views, Token, TokenView};
use crate::text::{alphabetic, chars_of, is_alphabetic, push_char, spells, text_of};

verus! {

/// Why a source text has no tokens.
#[derive(Clone, Copy, Debug, PartialEq, Eq, Structural)]
pub enum TokenizeError {
    /// An underscore stands where no token precedes it.
    UnexpectedCharacter,
    /// A character needs a token before it, and there is none: a semicolon
    /// at the very start, or a digit after a minus sign at the very start.
    NothingBefore,
    /// A character that is not alphabetic follows an identifier directly.
    MalformedIdentifier,
    /// A number does not fit in 64 bits.
    NumberOutOfRange,
}

/// The state of the first pass.
pub struct LexState {
    /// The tokens so far.
    pub tokens: Seq<TokenView>,
    /// Whether a string literal is open.
    pub in_string: bool,
    /// Whether the iterator of a `for` is still to come.
    pub declaring_for: bool,
    /// Whether the rest of the line is a comment.
    pub in_comment: bool,
    /// Whether the line has had a slash after its first token.
    pub slash_in_line: bool,
}

/// The state before the first character.
pub open spec fn initial() -> LexState {
    LexState {
        tokens: Seq::empty(),
        in_string: false,
        declaring_for: false,
        in_comment: false,
        slash_in_line: false,
    }
}

/// The state at the start of the next line: comments end with their line.
pub open spec fn new_line(state: LexState) -> LexState {
    LexState { in_comment: false, slash_in_line: false, ..state }
}

/// The state with one more token.
pub open spec fn push(state: LexState, token: TokenView) -> LexState {
    LexState { tokens: state.tokens.push(token), ..state }
}

/// The state with another token in the place of the last.
pub open spec fn replace_last(state: LexState, token: TokenView) -> LexState {
    LexState { tokens: state.tokens.drop_last().push(token), ..state }
}

/// The state without its last token.
pub open spec fn drop_last(state: LexState) -> LexState {
    LexState { tokens: state.tokens.drop_last(), ..state }
}

/// The last token, if there is one.
pub open spec fn last(state: LexState) -> Option<TokenView> {
    if state.tokens.len() > 0 {
        Some(state.tokens.last())
    } else {
        None
    }
}

/// A character inside a string literal joins the string that is the last
/// token, or starts a string of its own.
pub open spec fn in_text(state: LexState, c: char) -> LexState {
    match last(state) {
        Some(TokenView::String(text)) => replace_last(state, TokenView::String(text.push(c))),
        _ => push(state, TokenView::String(seq![c])),
    }
}

/// Whether a character is a decimal digit.
pub open spec fn is_digit(c: char) -> bool {
    '0' <= c && c <= '9'
}

/// The value of a decimal digit.
pub open spec fn digit_value(c: char) -> int {
    (c as u32) - ('0' as u32)
}

/// A number with one more digit, away from zero.
pub open spec fn extended(value: i64, digit: int) -> int {
    if value < 0 {
        value * 10 - digit
    } else {
        value * 10 + digit
    }
}

/// A digit extends the number, the string or the identifier that is the last
/// token; after a minus sign that follows a plus, a minus or an equals sign
/// it starts a negative number in the place of the minus sign; in every other
/// place it starts a number.
pub open spec fn on_digit(state: LexState, c: char) -> Result<LexState, TokenizeError> {
    let digit = digit_value(c);
    match last(state) {
        Some(TokenView::Minus) => if state.tokens.len() < 2 {
            Err(TokenizeError::NothingBefore)
        } else {
            match state.tokens[state.tokens.len() - 2] {
                TokenView::Plus | TokenView::Minus | TokenView::Equal => Ok(
                    replace_last(state, TokenView::Number((-digit) as i64)),
                ),
                _ => Ok(push(state, TokenView::Number(digit as i64))),
            }
        },
        Some(TokenView::Number(value)) => if i64::MIN <= extended(value, digit) <= i64::MAX {
            Ok(replace_last(state, TokenView::Number(extended(value, digit) as i64)))
        } else {
            Err(TokenizeError::NumberOutOfRange)
        },
        Some(TokenView::String(text)) => Ok(
            replace_last(state, TokenView::String(text.push(c))),
        ),
        Some(TokenView::Identifier(name)) => Ok(
            replace_last(state, TokenView::Identifier(name.push(c))),
        ),
        _ => Ok(push(state, TokenView::Number(digit as i64))),
    }
}

/// An underscore extends an identifier, is passed over inside a number, and
/// starts an identifier after every other token.
pub open spec fn on_underscore(state: LexState) -> Result<LexState, TokenizeError> {
    match last(state) {
        None => Err(TokenizeError::UnexpectedCharacter),
        Some(TokenView::Identifier(name)) => Ok(
            replace_last(state, TokenView::Identifier(name.push('_'))),
        ),
        Some(TokenView::Number(_)) => Ok(state),
        Some(_) => Ok(push(state, TokenView::Identifier(seq!['_']))),
    }
}

/// A slash after a slash takes that slash away, and opens a comment where the
/// line has had a slash after its first token; every other slash is a token.
pub open spec fn on_slash(state: LexState) -> LexState {
    match last(state) {
        None => push(state, TokenView::Slash),
        Some(TokenView::Slash) => LexState {
            in_comment: state.in_comment || state.slash_in_line,
            slash_in_line: true,
            ..drop_last(state)
        },
        Some(_) => LexState { slash_in_line: true, ..push(state, TokenView::Slash) },
    }
}

/// An equals sign after an equals sign makes the two an equality.
pub open spec fn on_equal(state: LexState) -> LexState {
    match last(state) {
        Some(TokenView::Equal) => replace_last(state, TokenView::Equality),
        _ => push(state, TokenView::Equal),
    }
}

/// A quote opens a string literal with an empty string, or closes the open one.
pub open spec fn on_quote(state: LexState) -> LexState {
    if state.in_string {
        LexState { in_string: false, ..state }
    } else {
        LexState { in_string: true, ..push(state, TokenView::String(Seq::empty())) }
    }
}

/// A semicolon is a token; the identifier `return` before it becomes the
/// keyword.
pub open spec fn on_semicolon(state: LexState) -> Result<LexState, TokenizeError> {
    match last(state) {
        None => Err(TokenizeError::NothingBefore),
        Some(TokenView::Identifier(name)) => if name == "return"@ {
            Ok(push(replace_last(state, TokenView::Return), TokenView::Semicolon))
        } else {
            Ok(push(state, TokenView::Semicolon))
        },
        Some(_) => Ok(push(state, TokenView::Semicolon)),
    }
}

/// The keyword that a word spells, if it spells one.
pub open spec fn keyword(word: Seq<char>) -> Option<TokenView> {
    if word == "let"@ {
        Some(TokenView::Let)
    } else if word == "if"@ {
        Some(TokenView::If)
    } else if word == "else"@ {
        Some(TokenView::Else)
    } else if word == "while"@ {
        Some(TokenView::While)
    } else if word == "for"@ {
        Some(TokenView::For)
    } else if word == "of"@ {
        Some(TokenView::Of)
    } else if word == "fn"@ {
        Some(TokenView::Func)
    } else if word == "import"@ {
        Some(TokenView::Import)
    } else if word == "include"@ {
        Some(TokenView::Include)
    } else if word == "class"@ {
        Some(TokenView::Class)
    } else if word == "return"@ {
        Some(TokenView::Return)
    } else {
        None
    }
}

/// A space ends an identifier: one that spells a keyword becomes the keyword,
/// and the iterator of a `for` is followed by an empty identifier.
pub open spec fn on_space(state: LexState) -> LexState {
    match last(state) {
        Some(TokenView::Identifier(name)) => match keyword(name) {
            Some(token) => LexState {
                declaring_for: state.declaring_for || token is For,
                ..replace_last(state, token)
            },
            None => if state.declaring_for {
                LexState {
                    declaring_for: false,
                    ..push(state, TokenView::Identifier(Seq::empty()))
                }
            } else {
                state
            },
        },
        _ => state,
    }
}

/// An identifier with one more character, which has to be a letter.
pub open spec fn lengthened(name: Seq<char>, c: char, letter: bool) -> Result<
    Seq<char>,
    TokenizeError,
> {
    if letter {
        Ok(name.push(c))
    } else {
        Err(TokenizeError::MalformedIdentifier)
    }
}

/// Every other character extends the identifier that is the last token, if
/// it is alphabetic, and starts an identifier after every other token.
pub open spec fn on_other(state: LexState, c: char) -> Result<LexState, TokenizeError> {
    match last(state) {
        Some(TokenView::Identifier(name)) => match lengthened(name, c, alphabetic(c)) {
            Ok(longer) => Ok(replace_last(state, TokenView::Identifier(longer))),
            Err(error) => Err(error),
        },
        _ => Ok(push(state, TokenView::Identifier(seq![c]))),
    }
}

/// The token that a punctuation character is by itself, if it is one.
pub open spec fn punctuation(c: char) -> Option<TokenView> {
    if c == '+' {
        Some(TokenView::Plus)
    } else if c == '-' {
        Some(TokenView::Minus)
    } else if c == '*' {
        Some(TokenView::Star)
    } else if c == '(' {
        Some(TokenView::LParen)
    } else if c == ')' {
        Some(TokenView::RParen)
    } else if c == '}' {
        Some(TokenView::RCurly)
    } else if c == '>' {
        Some(TokenView::RArrow)
    } else if c == '<' {
        Some(TokenView::LArrow)
    } else if c == '[' {
        Some(TokenView::LBracket)
    } else if c == ']' {
        Some(TokenView::RBracket)
    } else if c == ',' {
        Some(TokenView::Comma)
    } else if c == '.' {
        Some(TokenView::Dot)
    } else if c == ':' {
        Some(TokenView::Colon)
    } else {
        None
    }
}

/// The state after one more character of a line.
pub open spec fn lex_char(state: LexState, c: char) -> Result<LexState, TokenizeError> {
    if state.in_comment {
        Ok(state)
    } else if c != '"' && state.in_string {
        Ok(in_text(state, c))
    } else if is_digit(c) {
        on_digit(state, c)
    } else if c == '_' {
        on_underscore(state)
    } else if c == '/' {
        Ok(on_slash(state))
    } else if c == '=' {
        Ok(on_equal(state))
    } else if c == '"' {
        Ok(on_quote(state))
    } else if c == ';' {
        on_semicolon(state)
    } else if c == '{' {
        Ok(LexState { declaring_for: false, ..push(state, TokenView::LCurly) })
    } else if c == ' ' {
        Ok(on_space(state))
    } else {
        match punctuation(c) {
            Some(token) => Ok(push(state, token)),
            None => on_other(state, c),
        }
    }
}

/// The state after the characters of a source from `from` on. A line ends at
/// a line feed, and a carriage return directly before the line feed belongs
/// to the line end.
pub open spec fn scan(source: Seq<char>, from: int, state: LexState) -> Result<
    LexState,
    TokenizeError,
>
    decreases source.len() - from,
{
    if from < 0 || from >= source.len() {
        Ok(state)
    } else if source[from] == '\n' {
        scan(source, from + 1, new_line(state))
    } else if source[from] == '\r' && from + 1 < source.len() && source[from + 1] == '\n' {
        scan(source, from + 1, state)
    } else {
        match lex_char(state, source[from]) {
            Ok(next) => scan(source, from + 1, next),
            Err(error) => Err(error),
        }
    }
}

/// The tokens from `from` on that stand outside block comments, after the
/// tokens `kept`. A slash before a star opens a block comment and a star
/// before a slash closes it; a slash or a star that ends the run is dropped.
pub open spec fn uncommented(
    tokens: Seq<TokenView>,
    from: int,
    inside: bool,
    kept: Seq<TokenView>,
) -> Seq<TokenView>
    decreases tokens.len() - from,
{
    if from < 0 || from >= tokens.len() {
        kept
    } else {
        let token = tokens[from];
        let more = from + 1 < tokens.len();
        if token is Slash {
            if more && tokens[from + 1] is Star {
                uncommented(tokens, from + 1, true, kept)
            } else if more && !inside {
                uncommented(tokens, from + 1, inside, kept.push(token))
            } else {
                uncommented(tokens, from + 1, inside, kept)
            }
        } else if token is Star {
            if more && tokens[from + 1] is Slash {
                uncommented(tokens, from + 2, false, kept)
            } else if more && !inside {
                uncommented(tokens, from + 1, inside, kept.push(token))
            } else {
                uncommented(tokens, from + 1, inside, kept)
            }
        } else if !inside {
            uncommented(tokens, from + 1, inside, kept.push(token))
        } else {
            uncommented(tokens, from + 1, inside, kept)
        }
    }
}

/// The tokens of a source text.
pub open spec fn tokens_of(source: Seq<char>) -> Result<Seq<TokenView>, TokenizeError> {
    match scan(source, 0, initial()) {
        Ok(state) => Ok(uncommented(state.tokens, 0, false, Seq::empty())),
        Err(error) => Err(error),
    }
}

/// Whether a step of the scanner did what the first pass says.
pub open spec fn stepped(
    expected: Result<LexState, TokenizeError>,
    result: Result<(), TokenizeError>,
    after: LexState,
) -> bool {
    match expected {
        Ok(state) => result is Ok && after == state,
        Err(error) => result == Err::<(), TokenizeError>(error),
    }
}

/// The scanner of the first pass.
struct Scanner {
    tokens: Vec<Token>,
    in_string: bool,
    declaring_for: bool,
    in_comment: bool,
    slash_in_line: bool,
}

impl View for Scanner {
    type V = LexState;

    closed spec fn view(&self) -> LexState {
        LexState {
            tokens: token_views(self.tokens@),
            in_string: self.in_string,
            declaring_for: self.declaring_for,
            in_comment: self.in_comment,
            slash_in_line: self.slash_in_line,
        }
    }
}

/// An identifier with one more character, which has to be a letter: `letter`
/// says whether it is one.
pub fn lengthen(name: String, c: char, letter: bool) -> (longer: Result<String, TokenizeError>)
    ensures
        match lengthened(name@, c, letter) {
            Ok(expected) => longer is Ok && longer->Ok_0@ == expected,
            Err(error) => longer is Err && longer->Err_0 == error,
        },
{
    if letter {
        let mut name = name;
        push_char(&mut name, c);
        Ok(name)
    } else {
        Err(TokenizeError::MalformedIdentifier)
    }
}

/// The keyword that a word spells, if it spells one.
fn keyword_of(word: &String) -> (token: Option<Token>)
    ensures
        match keyword(word@) {
            Some(expected) => token is Some && token->Some_0@ == expected,
            None => token is None,
        },
{
    if spells(word, "let") {
        Some(Token::Let)
    } else if spells(word, "if") {
        Some(Token::If)
    } else if spells(word, "else") {
        Some(Token::Else)
    } else if spells(word, "while") {
        Some(Token::While)
    } else if spells(word, "for") {
        Some(Token::For)
    } else if spells(word, "of") {
        Some(Token::Of)
    } else if spells(word, "fn") {
        Some(Token::Func)
    } else if spells(word, "import") {
        Some(Token::Import)
    } else if spells(word, "include") {
        Some(Token::Include)
    } else if spells(word, "class") {
        Some(Token::Class)
    } else if spells(word, "return") {
        Some(Token::Return)
    } else {
        None
    }
}

/// The token that a punctuation character is by itself, if it is one.
fn punctuation_of(c: char) -> (token: Option<Token>)
    ensures
        match punctuation(c) {
            Some(expected) => token is Some && token->Some_0@ == expected,
            None => token is None,
        },
{
    if c == '+' {
        Some(Token::Plus)
    } else if c == '-' {
        Some(Token::Minus)
    } else if c == '*' {
        Some(Token::Star)
    } else if c == '(' {
        Some(Token::LParen)
    } else if c == ')' {
        Some(Token::RParen)
    } else if c == '}' {
        Some(Token::RCurly)
    } else if c == '>' {
        Some(Token::RArrow)
    } else if c == '<' {
        Some(Token::LArrow)
    } else if c == '[' {
        Some(Token::LBracket)
    } else if c == ']' {
        Some(Token::RBracket)
    } else if c == ',' {
        Some(Token::Comma)
    } else if c == '.' {
        Some(Token::Dot)
    } else if c == ':' {
        Some(Token::Colon)
    } else {
        None
    }
}

impl Scanner {
    /// The scanner before the first character.
    fn new() -> (scanner: Scanner)
        ensures
            scanner@ == initial(),
    {
        let scanner = Scanner {
            tokens: Vec::new(),
            in_string: false,
            declaring_for: false,
            in_comment: false,
            slash_in_line: false,
        };
        assert(scanner@.tokens =~= Seq::<TokenView>::empty());
        scanner
    }

    /// Appends a token.
    fn put(&mut self, token: Token)
        ensures
            final(self)@ == push(old(self)@, token@),
    {
        self.tokens.push(token);
        assert(self@.tokens =~= old(self)@.tokens.push(token@));
    }

    /// Takes the last token away, if there is one.
    fn take(&mut self) -> (token: Option<Token>)
        ensures
            match token {
                Some(token) => last(old(self)@) == Some(token@) && final(self)@ == drop_last(
                    old(self)@,
                ),
                None => last(old(self)@) is None && final(self)@ == old(self)@,
            },
    {
        let token = self.tokens.pop();
        proof {
            if token is Some {
                assert(self@.tokens =~= old(self)@.tokens.drop_last());
            } else {
                assert(self@.tokens =~= old(self)@.tokens);
            }
        }
        token
    }

    /// Puts a token back that was just taken away.
    fn put_back(&mut self, token: Token, Ghost(before): Ghost<LexState>)
        requires
            last(before) == Some(token@),
            old(self)@ == drop_last(before),
        ensures
            final(self)@ == before,
    {
        self.put(token);
        assert(self@.tokens =~= before.tokens);
    }

    /// Takes in a character inside a string literal.
    fn feed_text(&mut self, c: char)
        ensures
            final(self)@ == in_text(old(self)@, c),
    {
        let ghost before = self@;
        match self.take() {
            Some(Token::String(text)) => {
                let mut text = text;
                push_char(&mut text, c);
                self.put(Token::String(text));
            },
            Some(token) => {
                self.put_back(token, Ghost(before));
                self.put(Token::String(text_of(c)));
            },
            None => {
                self.put(Token::String(text_of(c)));
            },
        }
    }

    /// Takes in a digit.
    fn feed_digit(&mut self, c: char) -> (result: Result<(), TokenizeError>)
        requires
            is_digit(c),
        ensures
            stepped(on_digit(old(self)@, c), result, final(self)@),
    {
        let ghost before = self@;
        let digit: i64 = ((c as u32) - ('0' as u32)) as i64;
        match self.take() {
            Some(Token::Minus) => {
                let behind = self.take();
                match behind {
                    None => Err(TokenizeError::NothingBefore),
                    Some(behind) => {
                        let negative = match behind {
                            Token::Plus => true,
                            Token::Minus => true,
                            Token::Equal => true,
                            _ => false,
                        };
                        assert(behind@ == before.tokens[before.tokens.len() - 2]);
                        self.put_back(behind, Ghost(drop_last(before)));
                        if negative {
                            self.put(Token::Number(-digit));
                        } else {
                            self.put_back(Token::Minus, Ghost(before));
                            self.put(Token::Number(digit));
                        }
                        Ok(())
                    },
                }
            },
            Some(Token::Number(value)) => {
                let wide: i128 = if value < 0 {
                    (value as i128) * 10 - (digit as i128)
                } else {
                    (value as i128) * 10 + (digit as i128)
                };
                if wide < (i64::MIN as i128) || wide > (i64::MAX as i128) {
                    Err(TokenizeError::NumberOutOfRange)
                } else {
                    self.put(Token::Number(wide as i64));
                    Ok(())
                }
            },
            Some(Token::String(text)) => {
                let mut text = text;
                push_char(&mut text, c);
                self.put(Token::String(text));
                Ok(())
            },
            Some(Token::Identifier(name)) => {
                let mut name = name;
                push_char(&mut name, c);
                self.put(Token::Identifier(name));
                Ok(())
            },
            Some(token) => {
                self.put_back(token, Ghost(before));
                self.put(Token::Number(digit));
                Ok(())
            },
            None => {
                self.put(Token::Number(digit));
                Ok(())
            },
        }
    }

    /// Takes in an underscore.
    fn feed_underscore(&mut self) -> (result: Result<(), TokenizeError>)
        ensures
            stepped(on_underscore(old(self)@), result, final(self)@),
    {
        let ghost before = self@;
        match self.take() {
            None => Err(TokenizeError::UnexpectedCharacter),
            Some(Token::Identifier(name)) => {
                let mut name = name;
                push_char(&mut name, '_');
                self.put(Token::Identifier(name));
                Ok(())
            },
            Some(Token::Number(value)) => {
                self.put_back(Token::Number(value), Ghost(before));
                Ok(())
            },
            Some(token) => {
                self.put_back(token, Ghost(before));
                self.put(Token::Identifier(text_of('_')));
                Ok(())
            },
        }
    }

    /// Takes in a slash.
    fn feed_slash(&mut self)
        ensures
            final(self)@ == on_slash(old(self)@),
    {
        let ghost before = self@;
        match self.take() {
            None => {
                self.put(Token::Slash);
            },
            Some(Token::Slash) => {
                if self.slash_in_line {
                    self.in_comment = true;
                }
                self.slash_in_line = true;
            },
            Some(token) => {
                self.put_back(token, Ghost(before));
                self.put(Token::Slash);
                self.slash_in_line = true;
            },
        }
    }

    /// Takes in an equals sign.
    fn feed_equal(&mut self)
        ensures
            final(self)@ == on_equal(old(self)@),
    {
        let ghost before = self@;
        match self.take() {
            Some(Token::Equal) => {
                self.put(Token::Equality);
            },
            Some(token) => {
                self.put_back(token, Ghost(before));
                self.put(Token::Equal);
            },
            None => {
                self.put(Token::Equal);
            },
        }
    }

    /// Takes in a quote.
    fn feed_quote(&mut self)
        ensures
            final(self)@ == on_quote(old(self)@),
    {
        if !self.in_string {
            self.put(Token::String(String::new()));
        }
        self.in_string = !self.in_string;
    }

    /// Takes in a semicolon.
    fn feed_semicolon(&mut self) -> (result: Result<(), TokenizeError>)
        ensures
            stepped(on_semicolon(old(self)@), result, final(self)@),
    {
        let ghost before = self@;
        match self.take() {
            None => Err(TokenizeError::NothingBefore),
            Some(Token::Identifier(name)) => {
                if spells(&name, "return") {
                    self.put(Token::Return);
                } else {
                    self.put_back(Token::Identifier(name), Ghost(before));
                }
                self.put(Token::Semicolon);
                Ok(())
            },
            Some(token) => {
                self.put_back(token, Ghost(before));
                self.put(Token::Semicolon);
                Ok(())
            },
        }
    }

    /// Takes in a space.
    fn feed_space(&mut self)
        ensures
            final(self)@ == on_space(old(self)@),
    {
        let ghost before = self@;
        match self.take() {
            Some(Token::Identifier(name)) => {
                match keyword_of(&name) {
                    Some(token) => {
                        let starts_for = match token {
                            Token::For => true,
                            _ => false,
                        };
                        self.put(token);
                        if starts_for {
                            self.declaring_for = true;
                        }
                    },
                    None => {
                        self.put_back(Token::Identifier(name), Ghost(before));
                        if self.declaring_for {
                            self.put(Token::Identifier(String::new()));
                            self.declaring_for = false;
                        }
                    },
                }
            },
            Some(token) => {
                self.put_back(token, Ghost(before));
            },
            None => {},
        }
    }

    /// Takes in a character that has no meaning of its own.
    fn feed_other(&mut self, c: char) -> (result: Result<(), TokenizeError>)
        ensures
            stepped(on_other(old(self)@, c), result, final(self)@),
    {
        let ghost before = self@;
        match self.take() {
            Some(Token::Identifier(name)) => match lengthen(name, c, is_alphabetic(c)) {
                Ok(longer) => {
                    self.put(Token::Identifier(longer));
                    Ok(())
                },
                Err(error) => Err(error),
            },
            Some(token) => {
                self.put_back(token, Ghost(before));
                self.put(Token::Identifier(text_of(c)));
                Ok(())
            },
            None => {
                self.put(Token::Identifier(text_of(c)));
                Ok(())
            },
        }
    }

    /// Takes in one character of a line.
    fn feed(&mut self, c: char) -> (result: Result<(), TokenizeError>)
        ensures
            stepped(lex_char(old(self)@, c), result, final(self)@),
    {
        if self.in_comment {
            Ok(())
        } else if c != '"' && self.in_string {
            self.feed_text(c);
            Ok(())
        } else if '0' <= c && c <= '9' {
            self.feed_digit(c)
        } else if c == '_' {
            self.feed_underscore()
        } else if c == '/' {
            self.feed_slash();
            Ok(())
        } else if c == '=' {
            self.feed_equal();
            Ok(())
        } else if c == '"' {
            self.feed_quote();
            Ok(())
        } else if c == ';' {
            self.feed_semicolon()
        } else if c == '{' {
            self.put(Token::LCurly);
            self.declaring_for = false;
            Ok(())
        } else if c == ' ' {
            self.feed_space();
            Ok(())
        } else {
            match punctuation_of(c) {
                Some(token) => {
                    self.put(token);
                    Ok(())
                },
                None => self.feed_other(c),
            }
        }
    }
}

/// The tokens that stand outside block comments.
fn strip_comments(tokens: &Vec<Token>) -> (kept: Vec<Token>)
    ensures
        token_views(kept@) == uncommented(token_views(tokens@), 0, false, Seq::empty()),
{
    let ghost views = token_views(tokens@);
    let mut kept: Vec<Token> = Vec::new();
    let mut inside = false;
    let mut i: usize = 0;
    assert(token_views(kept@) =~= Seq::<TokenView>::empty());
    while i < tokens.len()
        invariant
            i <= tokens.len(),
            views == token_views(tokens@),
            uncommented(views, 0, false, Seq::empty()) == uncommented(
                views,
                i as int,
                inside,
                token_views(kept@),
            ),
        decreases tokens.len() - i,
    {
        let ghost before = token_views(kept@);
        let more = i + 1 < tokens.len();
        let mut keep = !inside;
        let mut step: usize = 1;
        match &tokens[i] {
            Token::Slash => {
                if more {
                    match &tokens[i + 1] {
                        Token::Star => {
                            inside = true;
                            keep = false;
                        },
                        _ => {},
                    }
                } else {
                    keep = false;
                }
            },
            Token::Star => {
                if more {
                    match &tokens[i + 1] {
                        Token::Slash => {
                            inside = false;
                            keep = false;
                            step = 2;
                        },
                        _ => {},
                    }
                } else {
                    keep = false;
                }
            },
            _ => {},
        }
        if keep {
            kept.push(tokens[i].clone());
            assert(token_views(kept@) =~= before.push(views[i as int]));
        }
        i += step;
    }
    kept
}

/// The tokens of a source text.
pub fn tokenize(source: String) -> (tokens: Result<Vec<Token>, TokenizeError>)
    ensures
        match tokens_of(source@) {
            Ok(expected) => tokens is Ok && token_views(tokens->Ok_0@) == expected,
            Err(error) => tokens is Err && tokens->Err_0 == error,
        },
{
    let chars = chars_of(source.as_str());
    let mut scanner = Scanner::new();
    let mut i: usize = 0;
    while i < chars.len()
        invariant
            i <= chars.len(),
            chars@ == source@,
            scan(source@, 0, initial()) == scan(source@, i as int, scanner@),
        decreases chars.len() - i,
    {
        let c = chars[i];
        if c == '\n' {
            scanner.in_comment = false;
            scanner.slash_in_line = false;
        } else if c == '\r' && i + 1 < chars.len() && chars[i + 1] == '\n' {
        } else {
            match scanner.feed(c) {
                Ok(()) => {},
                Err(error) => {
                    return Err(error);
                },
            }
        }
        i += 1;
    }
    Ok(strip_comments(&scanner.tokens))
}

} // verus!
