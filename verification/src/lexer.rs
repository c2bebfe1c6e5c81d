//! The lexer: a forward-only cursor over a source text.

use vstd::prelude::*;
use crate::grammar::{
    is_digit, is_letter, is_whitespace, lemma_scan_bounds, lemma_token_stream, run_end, scan,
    token_stream, word_kind, CharClass,
};
use crate::token::{Token, TokenType, TT};

verus! {

/// Taken on trust from the standard library, as documented for
/// `String::push`: the string afterwards is the string before with `ch`
/// appended at its end. Every lexeme is built with it.
pub assume_specification[ String::push ](s: &mut String, ch: char)
    ensures
        final(s)@ == old(s)@.push(ch),
;

/// Scan state: the source text and the position of the next unread character.
pub struct Lexer {
    input: Vec<char>,
    current: usize,
}

impl Lexer {
    /// The source text, fixed when the lexer is made.
    pub closed spec fn source(&self) -> Seq<char> {
        self.input@
    }

    /// The position of the next unread character.
    pub closed spec fn cursor(&self) -> int {
        self.current as int
    }

    /// The cursor never leaves the text.
    #[verifier::type_invariant]
    pub open spec fn wf(&self) -> bool {
        0 <= self.cursor() <= self.source().len()
    }

    /// A lexer at the start of `input`.
    pub fn new(input: &str) -> (lexer: Self)
        ensures
            lexer.source() == input@,
            lexer.cursor() == 0,
    {
        let mut chars: Vec<char> = Vec::new();
        for c in it: input.chars()
            invariant
                it.seq() == input@,
                chars@ == input@.take(it.index()),
        {
            chars.push(c);
        }
        Self { input: chars, current: 0 }
    }

    /// Scans the next token and moves the cursor past it.
    ///
    /// The token and the new cursor are those of `scan` on the text and the
    /// cursor before the call: the lexeme is the exact piece of the text
    /// between the step's start and end. The text stays as it is and the
    /// cursor never moves backwards. Every token but `Eof` has a non-empty
    /// lexeme. `Eof` comes with the cursor at the end of the text, so every
    /// later call yields `Eof` again.
    pub fn next_token(&mut self) -> (tok: Token)
        ensures
            final(self).source() == old(self).source(),
            final(self).cursor() == scan(old(self).source(), old(self).cursor()).end,
            tok@ == scan(old(self).source(), old(self).cursor()).token(old(self).source()),
            old(self).cursor() <= final(self).cursor() <= final(self).source().len(),
            tok@.0 != TokenType::Eof ==> tok@.1.len() > 0,
            tok@.0 == TokenType::Eof ==> tok@.1.len() == 0,
            tok@.0 == TokenType::Eof ==> final(self).cursor() == final(self).source().len(),
    {
        proof {
            use_type_invariant(&*self);
            lemma_scan_bounds(self.source(), self.cursor());
        }
        self.skip_whitespace();
        if self.is_at_end() {
            assert(self.source().subrange(self.cursor(), self.cursor()) =~= Seq::<char>::empty());
            return Token::eof();
        }
        let start: usize = self.current;
        let ch = self.advance();
        match ch {
            '+' => Token::new(TT::Plus, self.lexeme(start)),
            '-' => Token::new(TT::Minus, self.lexeme(start)),
            '*' => Token::new(TT::Star, self.lexeme(start)),
            '/' => Token::new(TT::Slash, self.lexeme(start)),
            '(' => Token::new(TT::LParen, self.lexeme(start)),
            ')' => Token::new(TT::RParen, self.lexeme(start)),
            '{' => Token::new(TT::LBrace, self.lexeme(start)),
            '}' => Token::new(TT::RBrace, self.lexeme(start)),
            ',' => Token::new(TT::Comma, self.lexeme(start)),
            ';' => Token::new(TT::Semicolon, self.lexeme(start)),
            '=' => {
                if self.match_next('=') {
                    Token::new(TT::Equal, self.lexeme(start))
                } else {
                    Token::new(TT::Assign, self.lexeme(start))
                }
            },
            '!' => {
                if self.match_next('=') {
                    Token::new(TT::NotEqual, self.lexeme(start))
                } else {
                    Token::new(TT::Bang, self.lexeme(start))
                }
            },
            '<' => {
                if self.match_next('=') {
                    Token::new(TT::LessEqual, self.lexeme(start))
                } else {
                    Token::new(TT::Less, self.lexeme(start))
                }
            },
            '>' => {
                if self.match_next('=') {
                    Token::new(TT::GreaterEqual, self.lexeme(start))
                } else {
                    Token::new(TT::Greater, self.lexeme(start))
                }
            },
            _ => {
                if Self::is_letter(Some(ch)) {
                    let identifier = self.read_identifier();
                    Token::new(self.word_kind(start), identifier)
                } else if Self::is_digit(Some(ch)) {
                    let literal = self.read_number();
                    Token::new(TT::Literal, literal)
                } else {
                    Token::new(TT::IllegalToken, self.lexeme(start))
                }
            },
        }
    }

    fn is_at_end(&self) -> (r: bool)
        ensures
            r == (self.cursor() >= self.source().len()),
    {
        self.current >= self.input.len()
    }

    fn is_letter(ch: Option<char>) -> (r: bool)
        ensures
            r == (ch matches Some(c) && is_letter(c)),
    {
        match ch {
            Some(c) => ('a' <= c && c <= 'z') || ('A' <= c && c <= 'Z') || c == '_',
            None => false,
        }
    }

    fn is_digit(ch: Option<char>) -> (r: bool)
        ensures
            r == (ch matches Some(c) && is_digit(c)),
    {
        match ch {
            Some(c) => '0' <= c && c <= '9',
            None => false,
        }
    }

    fn is_whitespace(ch: Option<char>) -> (r: bool)
        ensures
            r == (ch matches Some(c) && is_whitespace(c)),
    {
        match ch {
            Some(c) => c == ' ' || c == '\t' || c == '\n' || c == '\r',
            None => false,
        }
    }

    /// Moves the cursor to the first character at or after it that is no whitespace.
    fn skip_whitespace(&mut self)
        ensures
            final(self).source() == old(self).source(),
            final(self).cursor() == run_end(
                old(self).source(),
                CharClass::Whitespace,
                old(self).cursor(),
            ),
    {
        proof {
            use_type_invariant(&*self);
        }
        while Self::is_whitespace(self.peek())
            invariant
                self.source() == old(self).source(),
                old(self).cursor() <= self.cursor() <= self.source().len(),
                run_end(self.source(), CharClass::Whitespace, self.cursor()) == run_end(
                    self.source(),
                    CharClass::Whitespace,
                    old(self).cursor(),
                ),
            decreases self.source().len() - self.cursor(),
        {
            self.advance();
        }
    }

    /// Reads on to the end of the run of letters whose first letter was just
    /// consumed, and returns the whole run.
    fn read_identifier(&mut self) -> (word: String)
        requires
            0 < old(self).cursor(),
            is_letter(old(self).source()[old(self).cursor() - 1]),
        ensures
            final(self).source() == old(self).source(),
            final(self).cursor() == run_end(
                old(self).source(),
                CharClass::Letter,
                old(self).cursor() - 1,
            ),
            old(self).cursor() <= final(self).cursor(),
            word@ == old(self).source().subrange(old(self).cursor() - 1, final(self).cursor()),
    {
        proof {
            use_type_invariant(&*self);
        }
        let start: usize = self.current - 1;
        while Self::is_letter(self.peek())
            invariant
                self.source() == old(self).source(),
                start < self.cursor() <= self.source().len(),
                run_end(self.source(), CharClass::Letter, self.cursor()) == run_end(
                    self.source(),
                    CharClass::Letter,
                    start as int,
                ),
            decreases self.source().len() - self.cursor(),
        {
            self.advance();
        }
        self.lexeme(start)
    }

    /// Reads on to the end of the run of digits whose first digit was just
    /// consumed, and returns the whole run.
    fn read_number(&mut self) -> (digits: String)
        requires
            0 < old(self).cursor(),
            is_digit(old(self).source()[old(self).cursor() - 1]),
        ensures
            final(self).source() == old(self).source(),
            final(self).cursor() == run_end(
                old(self).source(),
                CharClass::Digit,
                old(self).cursor() - 1,
            ),
            old(self).cursor() <= final(self).cursor(),
            digits@ == old(self).source().subrange(old(self).cursor() - 1, final(self).cursor()),
    {
        proof {
            use_type_invariant(&*self);
        }
        let start: usize = self.current - 1;
        while Self::is_digit(self.peek())
            invariant
                self.source() == old(self).source(),
                start < self.cursor() <= self.source().len(),
                run_end(self.source(), CharClass::Digit, self.cursor()) == run_end(
                    self.source(),
                    CharClass::Digit,
                    start as int,
                ),
            decreases self.source().len() - self.cursor(),
        {
            self.advance();
        }
        self.lexeme(start)
    }

    /// What `peek` returns.
    spec fn peek_char(&self) -> Option<char> {
        if self.cursor() < self.source().len() {
            Some(self.source()[self.cursor()])
        } else {
            None
        }
    }

    /// The next unread character, if there is one.
    fn peek(&self) -> (next: Option<char>)
        ensures
            next == self.peek_char(),
    {
        if self.current < self.input.len() {
            Some(self.input[self.current])
        } else {
            None
        }
    }

    /// Consumes the next unread character.
    fn advance(&mut self) -> (c: char)
        requires
            old(self).cursor() < old(self).source().len(),
        ensures
            final(self).source() == old(self).source(),
            final(self).cursor() == old(self).cursor() + 1,
            c == old(self).source()[old(self).cursor()],
    {
        let result = self.input[self.current];
        assert(self.current < self.input.len());
        self.current += 1;
        result
    }

    /// Consumes the next unread character if it is `expected`.
    fn match_next(&mut self, expected: char) -> (matched: bool)
        ensures
            final(self).source() == old(self).source(),
            matched <==> old(self).peek_char() == Some(expected),
            final(self).cursor() == old(self).cursor() + if matched { 1int } else { 0int },
    {
        match self.peek() {
            Some(c) => {
                if c == expected {
                    self.advance();
                    true
                } else {
                    false
                }
            },
            None => false,
        }
    }

    /// Whether the text between `start` and the cursor is exactly `word`.
    fn spells(&self, start: usize, word: &str) -> (r: bool)
        requires
            start <= self.cursor(),
        ensures
            r == (self.source().subrange(start as int, self.cursor()) == word@),
    {
        proof {
            use_type_invariant(self);
        }
        let mut i: usize = start;
        for c in it: word.chars()
            invariant
                it.seq() == word@,
                i == start + it.index(),
                i <= self.current <= self.input.len(),
                forall|j: int| 0 <= j < it.index() ==> self.input@[start + j] == word@[j],
        {
            if i >= self.current || self.input[i] != c {
                return false;
            }
            i += 1;
        }
        assert(i == self.current ==> self.input@.subrange(start as int, self.current as int)
            =~= word@);
        i == self.current
    }

    /// The kind of the run of letters between `start` and the cursor.
    fn word_kind(&self, start: usize) -> (kind: TokenType)
        requires
            start <= self.cursor(),
        ensures
            kind == word_kind(self.source().subrange(start as int, self.cursor())),
    {
        if self.spells(start, "fn") {
            TT::Function
        } else if self.spells(start, "let") {
            TT::Let
        } else if self.spells(start, "if") {
            TT::If
        } else if self.spells(start, "else") {
            TT::Else
        } else if self.spells(start, "return") {
            TT::Return
        } else if self.spells(start, "true") {
            TT::True
        } else if self.spells(start, "false") {
            TT::False
        } else {
            TT::Identifier
        }
    }

    /// The text between `start` and the cursor.
    fn lexeme(&self, start: usize) -> (text: String)
        requires
            start <= self.cursor(),
        ensures
            text@ == self.source().subrange(start as int, self.cursor()),
    {
        proof {
            use_type_invariant(self);
        }
        let mut text = String::new();
        let mut i: usize = start;
        while i < self.current
            invariant
                start <= i <= self.current <= self.input.len(),
                text@ == self.input@.subrange(start as int, i as int),
            decreases self.current - i,
        {
            text.push(self.input[i]);
            i += 1;
        }
        text
    }
}

/// The view of each token of `tokens`, in order.
pub open spec fn views(tokens: Seq<Token>) -> Seq<(TokenType, Seq<char>)> {
    tokens.map_values(|tok: Token| tok@)
}

/// Scans `input` from its start until a token stops the scan, and returns
/// the tokens in order. The last of them, and only the last, is one that
/// stops a scan: `Eof`, or the first `IllegalToken`.
pub fn tokenize(input: &str) -> (tokens: Vec<Token>)
    ensures
        views(tokens@) == token_stream(input@, 0),
        tokens@.len() >= 1,
        forall|i: int|
            0 <= i < tokens@.len() ==> (#[trigger] tokens@[i])@.0.ends_scan() == (i
                == tokens@.len() - 1),
{
    let mut lexer = Lexer::new(input);
    let mut tokens: Vec<Token> = Vec::new();
    proof {
        assert(views(tokens@) =~= Seq::empty());
    }
    loop
        invariant_except_break
            lexer.source() == input@,
            token_stream(input@, 0) == views(tokens@) + token_stream(input@, lexer.cursor()),
        ensures
            views(tokens@) == token_stream(input@, 0),
        decreases lexer.source().len() - lexer.cursor(),
    {
        proof {
            use_type_invariant(&lexer);
            lemma_scan_bounds(lexer.source(), lexer.cursor());
        }
        let ghost before = views(tokens@);
        let ghost step = scan(lexer.source(), lexer.cursor());
        let tok = lexer.next_token();
        let stop = tok.is_eof() || tok.is_illegal();
        tokens.push(tok);
        proof {
            assert(views(tokens@) =~= before + seq![step.token(input@)]);
            assert(before + (seq![step.token(input@)] + token_stream(input@, step.end)) =~= (before
                + seq![step.token(input@)]) + token_stream(input@, step.end));
        }
        if stop {
            break;
        }
    }
    proof {
        lemma_token_stream(input@, 0);
        assert forall|i: int| 0 <= i < tokens@.len() implies (#[trigger] tokens@[i])@.0.ends_scan()
            == (i == tokens@.len() - 1) by {
            assert(views(tokens@)[i] == tokens@[i]@);
        }
    }
    tokens
}

} // verus!
