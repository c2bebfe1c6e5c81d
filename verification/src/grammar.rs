//! The lexical grammar, as mathematics.
//!
//! A source text is a `Seq<char>`, positions in it are `int`s. [`scan`] says,
//! for a text and a cursor, which token starts at or after the cursor and
//! where it ends. The lexer's contracts are stated against these definitions,
//! and the theorems below say what follows from them.

use vstd::prelude::*;
use crate::token::TokenType;

verus! {

/// Space, tab, newline and carriage return separate tokens.
pub open spec fn is_whitespace(c: char) -> bool {
    c == ' ' || c == '\t' || c == '\n' || c == '\r'
}

/// ASCII letters and the underscore make up identifiers and keywords.
pub open spec fn is_letter(c: char) -> bool {
    ('a' <= c && c <= 'z') || ('A' <= c && c <= 'Z') || c == '_'
}

/// ASCII decimal digits make up literals.
pub open spec fn is_digit(c: char) -> bool {
    '0' <= c && c <= '9'
}

/// The classes of characters that the grammar reads in runs.
pub enum CharClass {
    Whitespace,
    Letter,
    Digit,
}

impl CharClass {
    /// Whether `c` belongs to the class.
    pub open spec fn contains(self, c: char) -> bool {
        match self {
            CharClass::Whitespace => is_whitespace(c),
            CharClass::Letter => is_letter(c),
            CharClass::Digit => is_digit(c),
        }
    }
}

/// The position just past the longest run of `class` characters that starts at `from`.
/// Where no such run starts at `from`, the result is `from` itself.
pub open spec fn run_end(s: Seq<char>, class: CharClass, from: int) -> int
    decreases s.len() - from,
{
    if 0 <= from < s.len() && class.contains(s[from]) {
        run_end(s, class, from + 1)
    } else {
        from
    }
}

/// The kind of a character that is a token by itself, whatever follows it.
pub open spec fn punctuation(c: char) -> Option<TokenType> {
    if c == '+' {
        Some(TokenType::Plus)
    } else if c == '-' {
        Some(TokenType::Minus)
    } else if c == '*' {
        Some(TokenType::Star)
    } else if c == '/' {
        Some(TokenType::Slash)
    } else if c == '(' {
        Some(TokenType::LParen)
    } else if c == ')' {
        Some(TokenType::RParen)
    } else if c == '{' {
        Some(TokenType::LBrace)
    } else if c == '}' {
        Some(TokenType::RBrace)
    } else if c == ',' {
        Some(TokenType::Comma)
    } else if c == ';' {
        Some(TokenType::Semicolon)
    } else {
        None
    }
}

/// For a character that may open a two-character operator: the kind it has
/// alone, and the kind it has together with a following `=`.
pub open spec fn operator(c: char) -> Option<(TokenType, TokenType)> {
    if c == '=' {
        Some((TokenType::Assign, TokenType::Equal))
    } else if c == '!' {
        Some((TokenType::Bang, TokenType::NotEqual))
    } else if c == '<' {
        Some((TokenType::Less, TokenType::LessEqual))
    } else if c == '>' {
        Some((TokenType::Greater, TokenType::GreaterEqual))
    } else {
        None
    }
}

/// The kind of a run of letters: a keyword's kind where the whole run spells
/// that keyword, `Identifier` otherwise.
pub open spec fn word_kind(word: Seq<char>) -> TokenType {
    if word == "fn"@ {
        TokenType::Function
    } else if word == "let"@ {
        TokenType::Let
    } else if word == "if"@ {
        TokenType::If
    } else if word == "else"@ {
        TokenType::Else
    } else if word == "return"@ {
        TokenType::Return
    } else if word == "true"@ {
        TokenType::True
    } else if word == "false"@ {
        TokenType::False
    } else {
        TokenType::Identifier
    }
}

/// One step of scanning: the kind of the token found, and the positions
/// where its lexeme starts and ends (`end` is also the next cursor).
pub struct Step {
    pub kind: TokenType,
    pub start: int,
    pub end: int,
}

impl Step {
    /// The lexeme of this step in the text `s`.
    pub open spec fn lexeme(self, s: Seq<char>) -> Seq<char> {
        s.subrange(self.start, self.end)
    }

    /// The token of this step in the text `s`: kind and lexeme.
    pub open spec fn token(self, s: Seq<char>) -> (TokenType, Seq<char>) {
        (self.kind, self.lexeme(s))
    }

}

/// The token that a scan of `s` from `cursor` yields.
///
/// Whitespace is skipped first. At the end of the text the token is `Eof`
/// with an empty lexeme. Otherwise the first character decides: punctuation
/// is a token by itself; `=`, `!`, `<` and `>` take a directly following `=`
/// with them; a letter starts the longest run of letters, a digit the
/// longest run of digits; anything else is an illegal token of one character.
pub open spec fn scan(s: Seq<char>, cursor: int) -> Step {
    let start = run_end(s, CharClass::Whitespace, cursor);
    if !(0 <= start < s.len()) {
        Step { kind: TokenType::Eof, start: start, end: start }
    } else if let Some(kind) = punctuation(s[start]) {
        Step { kind: kind, start: start, end: start + 1 }
    } else if let Some((alone, paired)) = operator(s[start]) {
        if start + 1 < s.len() && s[start + 1] == '=' {
            Step { kind: paired, start: start, end: start + 2 }
        } else {
            Step { kind: alone, start: start, end: start + 1 }
        }
    } else if is_letter(s[start]) {
        let end = run_end(s, CharClass::Letter, start);
        Step { kind: word_kind(s.subrange(start, end)), start: start, end: end }
    } else if is_digit(s[start]) {
        Step { kind: TokenType::Literal, start: start, end: run_end(s, CharClass::Digit, start) }
    } else {
        Step { kind: TokenType::IllegalToken, start: start, end: start + 1 }
    }
}

/// The kind of a character that can be a whole token by itself: a
/// punctuation character, or an operator character with no `=` after it.
pub open spec fn symbol_kind(c: char) -> Option<TokenType> {
    match punctuation(c) {
        Some(kind) => Some(kind),
        None => match operator(c) {
            Some((alone, _)) => Some(alone),
            None => None,
        },
    }
}

/// Whether `kind` is the kind of a run of letters: `Identifier` or a keyword.
pub open spec fn is_word_kind(kind: TokenType) -> bool {
    kind == TokenType::Identifier || kind == TokenType::Function || kind == TokenType::Let || kind
        == TokenType::If || kind == TokenType::Else || kind == TokenType::Return || kind
        == TokenType::True || kind == TokenType::False
}

/// The tokens that repeated scanning of `s` from `cursor` yields, up to and
/// including the first one that stops the scan (`Eof` or `IllegalToken`).
pub open spec fn token_stream(s: Seq<char>, cursor: int) -> Seq<(TokenType, Seq<char>)>
    decreases s.len() - cursor,
{
    let step = scan(s, cursor);
    if 0 <= cursor <= s.len() && !step.kind.ends_scan() {
        proof {
            lemma_scan_bounds(s, cursor);
        }
        seq![step.token(s)] + token_stream(s, step.end)
    } else {
        seq![step.token(s)]
    }
}

/// A run ends inside the text, holds only characters of its class, and is
/// followed by a character outside the class or by the end of the text.
pub proof fn lemma_run_end(s: Seq<char>, class: CharClass, from: int)
    requires
        0 <= from <= s.len(),
    ensures
        from <= run_end(s, class, from) <= s.len(),
        forall|i: int| from <= i < run_end(s, class, from) ==> class.contains(#[trigger] s[i]),
        run_end(s, class, from) < s.len() ==> !class.contains(s[run_end(s, class, from)]),
    decreases s.len() - from,
{
    if from < s.len() && class.contains(s[from]) {
        lemma_run_end(s, class, from + 1);
    }
}

/// A run is determined by what `lemma_run_end` says of it: a position `end`
/// with these three properties is `run_end`.
pub proof fn lemma_run_end_unique(s: Seq<char>, class: CharClass, from: int, end: int)
    requires
        0 <= from <= end <= s.len(),
        forall|i: int| from <= i < end ==> class.contains(#[trigger] s[i]),
        end < s.len() ==> !class.contains(s[end]),
    ensures
        run_end(s, class, from) == end,
    decreases end - from,
{
    if from < end {
        lemma_run_end_unique(s, class, from + 1, end);
    }
}

/// A run of letters is an identifier or a keyword, never anything else.
pub proof fn lemma_word_kind(word: Seq<char>)
    ensures
        is_word_kind(word_kind(word)),
{
}

/// A scan never moves backwards and never leaves the text. Only whitespace
/// lies between the cursor and the token. Every token but `Eof` has a
/// non-empty lexeme; `Eof` has an empty one and leaves the cursor at the end.
pub proof fn lemma_scan_bounds(s: Seq<char>, cursor: int)
    requires
        0 <= cursor <= s.len(),
    ensures
        cursor <= scan(s, cursor).start <= scan(s, cursor).end <= s.len(),
        forall|i: int| cursor <= i < scan(s, cursor).start ==> is_whitespace(#[trigger] s[i]),
        scan(s, cursor).kind != TokenType::Eof ==> scan(s, cursor).start < scan(s, cursor).end,
        scan(s, cursor).kind == TokenType::Eof ==> scan(s, cursor).start == s.len(),
{
    lemma_run_end(s, CharClass::Whitespace, cursor);
    let start = run_end(s, CharClass::Whitespace, cursor);
    if start < s.len() {
        lemma_run_end(s, CharClass::Letter, start);
        lemma_run_end(s, CharClass::Digit, start);
        lemma_word_kind(s.subrange(start, run_end(s, CharClass::Letter, start)));
    }
}

/// A scan yields `Eof` exactly when nothing but whitespace is left. So a
/// text of whitespace alone, the empty text among them, yields `Eof` at once.
pub proof fn lemma_eof_iff_blank(s: Seq<char>, cursor: int)
    requires
        0 <= cursor <= s.len(),
    ensures
        scan(s, cursor).kind == TokenType::Eof <==> (forall|i: int|
            cursor <= i < s.len() ==> is_whitespace(#[trigger] s[i])),
{
    lemma_scan_bounds(s, cursor);
    if forall|i: int| cursor <= i < s.len() ==> is_whitespace(#[trigger] s[i]) {
        lemma_run_end_unique(s, CharClass::Whitespace, cursor, s.len() as int);
    }
}

/// A text of one punctuation or operator character scans as the token of
/// that character, with the character as its lexeme, and after it as `Eof`.
pub proof fn lemma_single_symbol(c: char)
    requires
        symbol_kind(c) is Some,
    ensures
        scan(seq![c], 0) == (Step { kind: symbol_kind(c)->0, start: 0, end: 1 }),
        scan(seq![c], 0).lexeme(seq![c]) == seq![c],
        scan(seq![c], 1) == (Step { kind: TokenType::Eof, start: 1, end: 1 }),
{
    let s = seq![c];
    lemma_run_end_unique(s, CharClass::Whitespace, 0, 0);
    assert(s.subrange(0, 1) =~= s);
}

/// Longest match: where a token starts with `=`, `!`, `<` or `>`, it is the
/// two-character operator exactly when the very next character is `=`, and
/// the one-character operator otherwise, also at the end of the text.
pub proof fn lemma_longest_operator(s: Seq<char>, cursor: int)
    requires
        0 <= scan(s, cursor).start < s.len(),
        operator(s[scan(s, cursor).start]) is Some,
    ensures
        ({
            let start = scan(s, cursor).start;
            let (alone, paired) = operator(s[start])->0;
            if start + 1 < s.len() && s[start + 1] == '=' {
                scan(s, cursor) == (Step { kind: paired, start: start, end: start + 2 })
            } else {
                scan(s, cursor) == (Step { kind: alone, start: start, end: start + 1 })
            }
        }),
{
}

/// Runs are taken whole. A literal is made of digits and no digit follows
/// it; an identifier or keyword is made of letters and no letter follows it.
pub proof fn lemma_runs_are_maximal(s: Seq<char>, cursor: int)
    requires
        0 <= cursor <= s.len(),
    ensures
        ({
            let step = scan(s, cursor);
            &&& step.kind == TokenType::Literal ==> {
                &&& forall|i: int| step.start <= i < step.end ==> is_digit(#[trigger] s[i])
                &&& step.end < s.len() ==> !is_digit(s[step.end])
            }
            &&& is_word_kind(step.kind) ==> {
                &&& forall|i: int| step.start <= i < step.end ==> is_letter(#[trigger] s[i])
                &&& step.end < s.len() ==> !is_letter(s[step.end])
                &&& step.kind == word_kind(step.lexeme(s))
            }
        }),
{
    lemma_run_end(s, CharClass::Whitespace, cursor);
    let start = run_end(s, CharClass::Whitespace, cursor);
    if start < s.len() {
        lemma_run_end(s, CharClass::Letter, start);
        lemma_run_end(s, CharClass::Digit, start);
        lemma_word_kind(s.subrange(start, run_end(s, CharClass::Letter, start)));
    }
}

/// `Eof` is final: a scan from where an `Eof` scan ended is the same `Eof`
/// step again, with the cursor still at the end of the text.
pub proof fn lemma_eof_is_final(s: Seq<char>, cursor: int)
    requires
        0 <= cursor <= s.len(),
        scan(s, cursor).kind == TokenType::Eof,
    ensures
        scan(s, cursor) == (Step { kind: TokenType::Eof, start: s.len() as int, end: s.len() as int }),
        scan(s, scan(s, cursor).end) == scan(s, cursor),
        scan(s, cursor).lexeme(s) == Seq::<char>::empty(),
{
    lemma_scan_bounds(s, cursor);
    assert(s.subrange(s.len() as int, s.len() as int) =~= Seq::<char>::empty());
}

/// A token stream is never empty; its last token, and only that one, ends
/// the scan; and every token in it but `Eof` has a non-empty lexeme.
pub proof fn lemma_token_stream(s: Seq<char>, cursor: int)
    requires
        0 <= cursor <= s.len(),
    ensures
        token_stream(s, cursor).len() >= 1,
        forall|i: int|
            0 <= i < token_stream(s, cursor).len() ==> (#[trigger] token_stream(
                s,
                cursor,
            )[i]).0.ends_scan() == (i == token_stream(s, cursor).len() - 1),
        forall|i: int|
            0 <= i < token_stream(s, cursor).len() ==> (#[trigger] token_stream(s, cursor)[i]).0
                == TokenType::Eof || token_stream(s, cursor)[i].1.len() > 0,
    decreases s.len() - cursor,
{
    let step = scan(s, cursor);
    lemma_scan_bounds(s, cursor);
    if !step.kind.ends_scan() {
        lemma_token_stream(s, step.end);
        let rest = token_stream(s, step.end);
        let all = token_stream(s, cursor);
        assert(all == seq![step.token(s)] + rest);
        assert forall|i: int| 0 <= i < all.len() implies {
            &&& (#[trigger] all[i]).0.ends_scan() == (i == all.len() - 1)
            &&& (all[i].0 == TokenType::Eof || all[i].1.len() > 0)
        } by {
            if i > 0 {
                assert(all[i] == rest[i - 1]);
            }
        }
    }
}

} // verus!
