//! The lexical token stream: turns source text into tokens on demand,
//! with an arbitrary-distance look-ahead queue for resolving
//! ambiguities.

use vstd::prelude::*;

use vstd::string::StrSliceExecFns;

verus! {

/// A line/column position in the source text, both starting at one.
#[derive(Debug, Clone, Copy, PartialEq, Eq, Structural)]
pub struct Location {
    pub line: usize,
    pub column: usize,
}

impl Location {
    pub fn new(line: usize, column: usize) -> (r: Self)
        ensures
            r == (Location { line, column }),
    {
        Self { line, column }
    }

    /// The position before any character is read.
    pub fn new_beginning() -> (r: Self)
        ensures
            r == (Location { line: 1usize, column: 1usize }),
    {
        Self { line: 1, column: 1 }
    }
}

/// The keywords the statement parsers dispatch on.
#[derive(Debug, Clone, Copy, PartialEq, Eq, Structural)]
pub enum Keyword {
    Const,
    Fn,
    Contract,
}

/// The operator and delimiter symbols.
#[derive(Debug, Clone, Copy, PartialEq, Eq, Structural)]
pub enum Symbol {
    Semicolon,
    Colon,
    Comma,
    Equals,
    Plus,
    Minus,
    Asterisk,
    Slash,
    ParenthesisLeft,
    ParenthesisRight,
    BracketCurlyLeft,
    BracketCurlyRight,
}

/// One lexeme: what kind of text was read.
#[derive(Debug, Clone, PartialEq, Eq)]
pub enum Lexeme {
    Keyword(Keyword),
    Identifier(String),
    BooleanLiteral(bool),
    IntegerLiteral(u128),
    StringLiteral(String),
    Symbol(Symbol),
    Eof,
}

/// One token: a lexeme and where it started.
#[derive(Debug, Clone, PartialEq, Eq)]
pub struct Token {
    pub lexeme: Lexeme,
    pub location: Location,
}

impl Token {
    pub fn new(lexeme: Lexeme, location: Location) -> (r: Self)
        ensures
            r.lexeme == lexeme,
            r.location == location,
    {
        Self { lexeme, location }
    }
}

/// Why the scanner refused the text.
#[derive(Debug, Clone, Copy, PartialEq, Eq, Structural)]
pub enum LexicalError {
    /// The text ended inside a comment, string or number.
    UnexpectedEnd(Location),
    /// A character that no lexeme can start with.
    InvalidCharacter(Location),
    /// An integer literal too large for the carrier.
    IntegerOverflow(Location),
}

/// The token stream over one source text.
pub struct TokenStream {
    pub input: String,
    pub length: usize,
    pub offset: usize,
    pub location: Location,
    pub look_ahead: Vec<Token>,
}

/// Whether a character can start an identifier or keyword.
pub open spec fn spec_can_start_word(c: char) -> bool {
    ('a' <= c && c <= 'z') || ('A' <= c && c <= 'Z') || c == '_'
}

/// Whether a character can continue an identifier or keyword.
pub open spec fn spec_can_continue_word(c: char) -> bool {
    spec_can_start_word(c) || ('0' <= c && c <= '9')
}

fn can_start_word(c: char) -> (b: bool)
    ensures
        b == spec_can_start_word(c),
{
    ('a' <= c && c <= 'z') || ('A' <= c && c <= 'Z') || c == '_'
}

fn can_continue_word(c: char) -> (b: bool)
    ensures
        b == spec_can_continue_word(c),
{
    can_start_word(c) || ('0' <= c && c <= '9')
}

impl TokenStream {
    /// The stream's structural soundness: the offset never passes the
    /// end of the text.
    pub open spec fn wf(self) -> bool {
        self.offset <= self.length && self.length == self.input@.len()
    }

    /// How many tokens wait in the look-ahead queue.
    pub open spec fn spec_queued(self) -> Seq<Token> {
        self.look_ahead@
    }

    /// A fresh stream at the beginning of the text.
    pub fn new(input: String) -> (r: Self)
        ensures
            r.wf(),
            r.spec_queued() == Seq::<Token>::empty(),
    {
        let length = input.as_str().unicode_len();
        let r = TokenStream {
            input,
            length,
            offset: 0,
            location: Location::new_beginning(),
            look_ahead: Vec::new(),
        };
        proof {
            assert(r.look_ahead@ =~= Seq::<Token>::empty());
        }
        r
    }

    /// The character at the current offset.
    fn peek(&self, at: usize) -> (c: char)
        requires
            self.wf(),
            at < self.length,
        ensures
            c == self.input@[at as int],
    {
        self.input.as_str().get_char(at)
    }

    /// Reads the next token straight from the text, skipping
    /// whitespace and comments; at the end of the text it is `Eof`.
    /// The offset never moves backwards.
    #[verifier::loop_isolation(false)]
    pub fn advance(&mut self) -> (r: Result<Token, LexicalError>)
        requires
            old(self).wf(),
        ensures
            final(self).wf(),
            final(self).spec_queued() == old(self).spec_queued(),
            final(self).offset >= old(self).offset,
            r is Ok && !(r->Ok_0.lexeme is Eof) ==> final(self).offset > old(self).offset,
    {
        loop
            invariant
                self.wf(),
                self.look_ahead@ == old(self).spec_queued(),
                self.offset >= old(self).offset,
            decreases self.length - self.offset,
        {
            if self.offset >= self.length {
                return Ok(Token::new(Lexeme::Eof, self.location));
            }
            let c = self.peek(self.offset);
            // Whitespace.
            if c == ' ' || c == '\t' || c == '\r' || c == '\n' {
                if c == '\n' {
                    if self.location.line < usize::MAX {
                        self.location.line = self.location.line + 1;
                    }
                    self.location.column = 1;
                } else if c != '\r' {
                    if self.location.column < usize::MAX {
                        self.location.column = self.location.column + 1;
                    }
                }
                self.offset = self.offset + 1;
                continue ;
            }
            // Comments: `//` to the end of the line.
            if c == '/' && self.offset + 1 < self.length {
                let c2 = self.peek(self.offset + 1);
                if c2 == '/' {
                    let mut k = self.offset + 2;
                    while k < self.length && self.peek(k) != '\n'
                        invariant
                            self.wf(),
                            self.offset <= k <= self.length,
                        decreases self.length - k,
                    {
                        k = k + 1;
                    }
                    self.offset = k;
                    continue ;
                }
            }
            let start = self.location;
            // String literals.
            if c == '\"' {
                let mut k = self.offset + 1;
                let mut value = String::new();
                while k < self.length && self.peek(k) != '\"'
                    invariant
                        self.wf(),
                        self.offset < k <= self.length,
                    decreases self.length - k,
                {
                    value.append(self.input.as_str().substring_char(k, k + 1));
                    k = k + 1;
                }
                if k >= self.length {
                    return Err(LexicalError::UnexpectedEnd(start));
                }
                let consumed = k + 1 - self.offset;
                if self.location.column <= usize::MAX - consumed {
                    self.location.column = self.location.column + consumed;
                }
                self.offset = k + 1;
                return Ok(Token::new(Lexeme::StringLiteral(value), start));
            }
            // Integer literals (decimal).
            if '0' <= c && c <= '9' {
                let mut k = self.offset + 1;
                let mut value: u128 = (c as u32 - '0' as u32) as u128;
                loop
                    invariant
                        self.offset < k <= self.length,
                    decreases self.length - k,
                {
                    if k >= self.length {
                        break ;
                    }
                    let d = self.peek(k);
                    if !('0' <= d && d <= '9') {
                        break ;
                    }
                    let digit = (d as u32 - '0' as u32) as u128;
                    if value > (u128::MAX - digit) / 10 {
                        return Err(LexicalError::IntegerOverflow(start));
                    }
                    value = value * 10 + digit;
                    k = k + 1;
                }
                let consumed = k - self.offset;
                if self.location.column <= usize::MAX - consumed {
                    self.location.column = self.location.column + consumed;
                }
                self.offset = k;
                return Ok(Token::new(Lexeme::IntegerLiteral(value), start));
            }
            // Words: keywords, boolean literals, identifiers.
            if can_start_word(c) {
                let word_start = self.offset;
                let mut k = self.offset;
                while k < self.length && can_continue_word(self.peek(k))
                    invariant
                        self.wf(),
                        word_start <= k <= self.length,
                        word_start == self.offset,
                    decreases self.length - k,
                {
                    k = k + 1;
                }
                let word = self.input.as_str().substring_char(word_start, k).to_owned();
                let consumed = k - self.offset;
                if self.location.column <= usize::MAX - consumed {
                    self.location.column = self.location.column + consumed;
                }
                self.offset = k;
                let lexeme = if streq(&word, "const") {
                    Lexeme::Keyword(Keyword::Const)
                } else if streq(&word, "fn") {
                    Lexeme::Keyword(Keyword::Fn)
                } else if streq(&word, "contract") {
                    Lexeme::Keyword(Keyword::Contract)
                } else if streq(&word, "true") {
                    Lexeme::BooleanLiteral(true)
                } else if streq(&word, "false") {
                    Lexeme::BooleanLiteral(false)
                } else {
                    Lexeme::Identifier(word)
                };
                return Ok(Token::new(lexeme, start));
            }
            // Symbols.
            let symbol = if c == ';' {
                Symbol::Semicolon
            } else if c == ':' {
                Symbol::Colon
            } else if c == ',' {
                Symbol::Comma
            } else if c == '=' {
                Symbol::Equals
            } else if c == '+' {
                Symbol::Plus
            } else if c == '-' {
                Symbol::Minus
            } else if c == '*' {
                Symbol::Asterisk
            } else if c == '/' {
                Symbol::Slash
            } else if c == '(' {
                Symbol::ParenthesisLeft
            } else if c == ')' {
                Symbol::ParenthesisRight
            } else if c == '{' {
                Symbol::BracketCurlyLeft
            } else if c == '}' {
                Symbol::BracketCurlyRight
            } else {
                return Err(LexicalError::InvalidCharacter(start));
            };
            if self.location.column < usize::MAX {
                self.location.column = self.location.column + 1;
            }
            self.offset = self.offset + 1;
            return Ok(Token::new(Lexeme::Symbol(symbol), start));
        }
    }

    /// The next token: the front of the look-ahead queue when one
    /// waits there, else read straight from the text.
    pub fn next(&mut self) -> (r: Result<Token, LexicalError>)
        requires
            old(self).wf(),
        ensures
            final(self).wf(),
            old(self).spec_queued().len() > 0 ==> r == Ok::<Token, LexicalError>(
                old(self).spec_queued()[0],
            ) && final(self).spec_queued() == old(self).spec_queued().skip(1),
            old(self).spec_queued().len() == 0 ==> final(self).spec_queued()
                == Seq::<Token>::empty(),
    {
        if self.look_ahead.len() > 0 {
            let token = self.look_ahead.remove(0);
            Ok(token)
        } else {
            self.advance()
        }
    }

    /// Fills the look-ahead queue until it holds at least `distance`
    /// tokens, then hands back the last queued one.
    pub fn look_ahead(&mut self, distance: usize) -> (r: Result<&Token, LexicalError>)
        requires
            old(self).wf(),
            distance >= 1,
        ensures
            final(self).wf(),
            r is Ok ==> final(self).spec_queued().len() >= distance
                && *r->Ok_0 == final(self).spec_queued().last(),
            final(self).spec_queued().len() >= old(self).spec_queued().len(),
    {
        while self.look_ahead.len() < distance
            invariant
                self.wf(),
                self.look_ahead@.len() >= old(self).spec_queued().len(),
            decreases distance - self.look_ahead@.len(),
        {
            let token = match self.advance() {
                Ok(t) => t,
                Err(e) => {
                    return Err(e);
                },
            };
            self.look_ahead.push(token);
        }
        Ok(&self.look_ahead[self.look_ahead.len() - 1])
    }
}

/// String equality by contents.
fn streq(a: &String, b: &str) -> (r: bool)
    ensures
        r == (a@ == b@),
{
    let other = String::from_str(b);
    a.eq(&other)
}

} // verus!
