//! The lexer proper: it walks the text once, from left to right, and gives
//! one token at a call.
//!
//! White space and comments between tokens are skipped: a comment runs
//! from `//` to the end of its line, or from `/*` to the next `*/`.
//! Positions count characters, not bytes, from the start of the text.

use crate::lexer::error::LexerError;
use crate::lexer::token::{tokens_model, SpannedToken, SpecToken, Token};
use crate::text::{
    all_whitespace, digit, digit_value, ident_continue, ident_start, is_digit, is_ident_continue,
    is_ident_start, is_whitespace, string_of_range, value_of_digit, whitespace,
};
use vstd::prelude::*;

verus! {

/// The characters that are operators by themselves.
pub open spec fn is_operator_char(c: char) -> bool {
    c == '+' || c == '-' || c == '*' || c == '/' || c == '=' || c == '<' || c == '>' || c == '!'
        || c == '&' || c == '|' || c == '^' || c == '%' || c == '~'
}

/// The brackets and separators.
pub open spec fn is_punctuation_char(c: char) -> bool {
    c == '(' || c == ')' || c == '{' || c == '}' || c == '[' || c == ']' || c == ';' || c == ','
        || c == '.' || c == ':'
}

/// The operators of two characters: `==`, `!=`, `<=`, `>=`, `&&`, `||` and
/// `->`.
pub open spec fn is_double_operator(a: char, b: char) -> bool {
    (a == '=' && b == '=') || (a == '!' && b == '=') || (a == '<' && b == '=') || (a == '>' && b
        == '=') || (a == '&' && b == '&') || (a == '|' && b == '|') || (a == '-' && b == '>')
}

/// The first position at or after `from` that holds no white space; the
/// length of the text if there is none.
pub open spec fn skip_whitespace(s: Seq<char>, from: int) -> int
    decreases s.len() - from,
{
    if from < 0 || from >= s.len() || !is_whitespace(s[from]) {
        from
    } else {
        skip_whitespace(s, from + 1)
    }
}

/// The end of the line that holds `from`: the position of its line feed,
/// or the length of the text.
pub open spec fn line_end(s: Seq<char>, from: int) -> int
    decreases s.len() - from,
{
    if from < 0 || from >= s.len() || s[from] == '\n' {
        from
    } else {
        line_end(s, from + 1)
    }
}

/// The position after the `*/` that closes a comment whose text starts at
/// `from`, if the comment is closed.
pub open spec fn comment_end(s: Seq<char>, from: int) -> Option<int>
    decreases s.len() - from,
{
    if from < 0 || from + 1 >= s.len() {
        None
    } else if s[from] == '*' && s[from + 1] == '/' {
        Some(from + 2)
    } else {
        comment_end(s, from + 1)
    }
}

/// Whether a comment that runs to the end of its line starts at `pos`.
pub open spec fn starts_line_comment(s: Seq<char>, pos: int) -> bool {
    0 <= pos && pos + 1 < s.len() && s[pos] == '/' && s[pos + 1] == '/'
}

/// Whether a comment between `/*` and `*/` starts at `pos`.
pub open spec fn starts_block_comment(s: Seq<char>, pos: int) -> bool {
    0 <= pos && pos + 1 < s.len() && s[pos] == '/' && s[pos + 1] == '*'
}

/// Whether a comment starts at `pos` that the text ends in.
pub open spec fn unterminated_comment(s: Seq<char>, pos: int) -> bool {
    starts_block_comment(s, pos) && comment_end(s, pos + 2) is None
}

/// The end of a line lies within the text.
pub proof fn lemma_line_end_bounds(s: Seq<char>, from: int)
    requires
        0 <= from <= s.len(),
    ensures
        from <= line_end(s, from) <= s.len(),
    decreases s.len() - from,
{
    if from < s.len() && s[from] != '\n' {
        lemma_line_end_bounds(s, from + 1);
    }
}

/// The end of a comment lies within the text.
pub proof fn lemma_comment_end_bounds(s: Seq<char>, from: int)
    requires
        0 <= from,
    ensures
        comment_end(s, from) matches Some(end) ==> from + 2 <= end <= s.len(),
    decreases s.len() - from,
{
    if from + 1 < s.len() && !(s[from] == '*' && s[from + 1] == '/') {
        lemma_comment_end_bounds(s, from + 1);
    }
}

/// Where the white space and the comments from `from` on end: at the start
/// of a token, at the end of the text, or at the start of a comment that
/// the text ends in.
pub open spec fn skip_trivia(s: Seq<char>, from: int) -> int
    decreases s.len() - from,
{
    if from < 0 || from >= s.len() {
        from
    } else if is_whitespace(s[from]) {
        skip_trivia(s, from + 1)
    } else if starts_line_comment(s, from) {
        proof {
            lemma_line_end_bounds(s, from + 2);
        }
        skip_trivia(s, line_end(s, from + 2))
    } else if starts_block_comment(s, from) {
        match comment_end(s, from + 2) {
            Some(end) => {
                proof {
                    lemma_comment_end_bounds(s, from + 2);
                }
                skip_trivia(s, end)
            },
            None => from,
        }
    } else {
        from
    }
}

/// The end of the run of identifier characters that starts at `from`.
pub open spec fn identifier_end(s: Seq<char>, from: int) -> int
    decreases s.len() - from,
{
    if from < 0 || from >= s.len() || !is_ident_continue(s[from]) {
        from
    } else {
        identifier_end(s, from + 1)
    }
}

/// The end of the run of digits that starts at `from`.
pub open spec fn digits_end(s: Seq<char>, from: int) -> int
    decreases s.len() - from,
{
    if from < 0 || from >= s.len() || !is_digit(s[from]) {
        from
    } else {
        digits_end(s, from + 1)
    }
}

/// The number that the digits `s[from..to]` write.
pub open spec fn number_value(s: Seq<char>, from: int, to: int) -> int
    decreases to - from,
{
    if to <= from {
        0
    } else {
        number_value(s, from, to - 1) * 10 + digit_value(s[to - 1])
    }
}

/// The position of the quote that closes a string literal whose text starts
/// at `from`, if there is one. A backslash takes the character after it
/// along, so that a quote after a backslash does not close the literal.
pub open spec fn string_end(s: Seq<char>, from: int) -> Option<int>
    decreases s.len() - from,
{
    if from < 0 || from >= s.len() {
        None
    } else if s[from] == '"' {
        Some(from)
    } else if s[from] == '\\' && from + 1 < s.len() {
        string_end(s, from + 2)
    } else {
        string_end(s, from + 1)
    }
}

/// A token with the position of its first character and the position
/// after its last one.
pub struct Lexed {
    pub token: SpecToken,
    pub start: int,
    pub next: int,
}

/// The token that starts at `start`, where no white space stands.
pub open spec fn token_at(s: Seq<char>, start: int) -> Result<Lexed, LexerError> {
    if start < 0 || start >= s.len() {
        Ok(Lexed { token: SpecToken::Eof, start: s.len() as int, next: s.len() as int })
    } else if is_ident_start(s[start]) {
        let end = identifier_end(s, start);
        Ok(Lexed { token: SpecToken::Identifier(s.subrange(start, end)), start, next: end })
    } else if is_digit(s[start]) {
        let end = digits_end(s, start);
        let value = number_value(s, start, end);
        if value <= i64::MAX {
            Ok(Lexed { token: SpecToken::Number(value as i64), start, next: end })
        } else {
            Err(LexerError::InvalidCharacter { character: s[start], position: start as usize })
        }
    } else if s[start] == '"' {
        match string_end(s, start + 1) {
            Some(close) => Ok(
                Lexed {
                    token: SpecToken::String(s.subrange(start + 1, close)),
                    start,
                    next: close + 1,
                },
            ),
            None => Err(LexerError::UnterminatedString { position: start as usize }),
        }
    } else if start + 1 < s.len() && is_double_operator(s[start], s[start + 1]) {
        Ok(
            Lexed {
                token: SpecToken::Operator(s.subrange(start, start + 2)),
                start,
                next: start + 2,
            },
        )
    } else if is_operator_char(s[start]) {
        Ok(
            Lexed {
                token: SpecToken::Operator(s.subrange(start, start + 1)),
                start,
                next: start + 1,
            },
        )
    } else if is_punctuation_char(s[start]) {
        Ok(
            Lexed {
                token: SpecToken::Punctuation(s.subrange(start, start + 1)),
                start,
                next: start + 1,
            },
        )
    } else {
        Err(LexerError::InvalidCharacter { character: s[start], position: start as usize })
    }
}

/// The next token at or after `pos`: white space and comments are skipped,
/// then comes the token that starts there. The end of the text is the
/// token `Eof`. A comment that the text ends in is an error.
pub open spec fn lex_at(s: Seq<char>, pos: int) -> Result<Lexed, LexerError> {
    let start = skip_trivia(s, pos);
    if unterminated_comment(s, start) {
        Err(LexerError::UnterminatedComment { position: start as usize })
    } else {
        token_at(s, start)
    }
}

/// Skipping white space and comments goes forward and stays within the
/// text; where it stops, no white space stands and no comment starts but
/// one that the text ends in.
pub proof fn lemma_trivia_bounds(s: Seq<char>, from: int)
    requires
        0 <= from <= s.len(),
    ensures
        from <= skip_trivia(s, from) <= s.len(),
        skip_trivia(s, from) < s.len() ==> !is_whitespace(s[skip_trivia(s, from)]),
        !starts_line_comment(s, skip_trivia(s, from)),
        starts_block_comment(s, skip_trivia(s, from)) ==> unterminated_comment(
            s,
            skip_trivia(s, from),
        ),
        skip_trivia(s, skip_trivia(s, from)) == skip_trivia(s, from),
    decreases s.len() - from,
{
    if from < s.len() {
        if is_whitespace(s[from]) {
            lemma_trivia_bounds(s, from + 1);
        } else if starts_line_comment(s, from) {
            lemma_line_end_bounds(s, from + 2);
            lemma_trivia_bounds(s, line_end(s, from + 2));
        } else if starts_block_comment(s, from) {
            lemma_comment_end_bounds(s, from + 2);
            match comment_end(s, from + 2) {
                Some(end) => {
                    lemma_trivia_bounds(s, end);
                },
                None => {},
            }
        }
    }
}

/// A run of identifier characters ends within the text.
pub proof fn lemma_identifier_bounds(s: Seq<char>, from: int)
    requires
        0 <= from <= s.len(),
    ensures
        from <= identifier_end(s, from) <= s.len(),
        from < s.len() && is_ident_continue(s[from]) ==> from < identifier_end(s, from),
    decreases s.len() - from,
{
    if from < s.len() && is_ident_continue(s[from]) {
        lemma_identifier_bounds(s, from + 1);
    }
}

/// A run of digits ends within the text.
pub proof fn lemma_digits_bounds(s: Seq<char>, from: int)
    requires
        0 <= from <= s.len(),
    ensures
        from <= digits_end(s, from) <= s.len(),
        from < s.len() && is_digit(s[from]) ==> from < digits_end(s, from),
    decreases s.len() - from,
{
    if from < s.len() && is_digit(s[from]) {
        lemma_digits_bounds(s, from + 1);
    }
}

/// The quote that closes a string literal stands within the text.
pub proof fn lemma_string_bounds(s: Seq<char>, from: int)
    requires
        0 <= from <= s.len(),
    ensures
        string_end(s, from) matches Some(close) ==> from <= close < s.len(),
    decreases s.len() - from,
{
    if from < s.len() && s[from] != '"' {
        if s[from] == '\\' && from + 1 < s.len() {
            lemma_string_bounds(s, from + 2);
        } else {
            lemma_string_bounds(s, from + 1);
        }
    }
}

/// Digits write no negative number.
pub proof fn lemma_number_nonnegative(s: Seq<char>, from: int, to: int)
    ensures
        0 <= number_value(s, from, to),
    decreases to - from,
{
    if from < to {
        lemma_number_nonnegative(s, from, to - 1);
    }
}

/// More digits write no smaller a number.
pub proof fn lemma_number_grows(s: Seq<char>, from: int, mid: int, to: int)
    requires
        from <= mid <= to,
    ensures
        number_value(s, from, mid) <= number_value(s, from, to),
    decreases to - mid,
{
    if mid < to {
        lemma_number_grows(s, from, mid, to - 1);
        lemma_number_nonnegative(s, from, to - 1);
    }
}

/// A token that is not the end of the text takes at least one character,
/// and every token lies within the text.
pub proof fn lemma_lex_advances(s: Seq<char>, pos: int)
    requires
        0 <= pos <= s.len(),
    ensures
        match lex_at(s, pos) {
            Ok(lexed) => {
                &&& pos <= lexed.start <= lexed.next <= s.len()
                &&& lexed.token is Eof <==> lexed.start == s.len()
                &&& !(lexed.token is Eof) ==> lexed.start < lexed.next
            },
            Err(_) => true,
        },
{
    lemma_trivia_bounds(s, pos);
    let start = skip_trivia(s, pos);
    if start < s.len() {
        lemma_identifier_bounds(s, start);
        lemma_digits_bounds(s, start);
        lemma_string_bounds(s, start + 1);
    }
}

/// All the tokens from `pos` on, the end of the text being the last one;
/// or the first error.
pub open spec fn tokens_from(s: Seq<char>, pos: int) -> Result<Seq<SpecToken>, LexerError>
    decreases s.len() - pos,
{
    if pos < 0 || pos > s.len() {
        Ok(seq![SpecToken::Eof])
    } else {
        match lex_at(s, pos) {
            Err(error) => Err(error),
            Ok(lexed) => if lexed.token is Eof {
                Ok(seq![SpecToken::Eof])
            } else {
                proof {
                    lemma_lex_advances(s, pos);
                }
                match tokens_from(s, lexed.next) {
                    Err(error) => Err(error),
                    Ok(rest) => Ok(seq![lexed.token] + rest),
                }
            },
        }
    }
}

/// Where reading all the tokens from `pos` on stops: at the end of the
/// text, or where the first error is met.
pub open spec fn tokens_stop(s: Seq<char>, pos: int) -> int
    decreases s.len() - pos,
{
    if pos < 0 || pos > s.len() {
        pos
    } else {
        match lex_at(s, pos) {
            Err(_) => skip_trivia(s, pos),
            Ok(lexed) => if lexed.token is Eof {
                lexed.next
            } else {
                proof {
                    lemma_lex_advances(s, pos);
                }
                tokens_stop(s, lexed.next)
            },
        }
    }
}

/// A text of white space only holds one token: the end of the text.
pub proof fn lemma_whitespace_only(s: Seq<char>)
    requires
        all_whitespace(s),
    ensures
        lex_at(s, 0) == Ok::<Lexed, LexerError>(
            Lexed { token: SpecToken::Eof, start: s.len() as int, next: s.len() as int },
        ),
        tokens_from(s, 0) == Ok::<Seq<SpecToken>, LexerError>(seq![SpecToken::Eof]),
{
    lemma_skip_all(s, 0);
}

/// Skipping white space and comments in a text of white space only leads
/// to its end.
pub proof fn lemma_skip_all(s: Seq<char>, from: int)
    requires
        all_whitespace(s),
        0 <= from <= s.len(),
    ensures
        skip_trivia(s, from) == s.len(),
    decreases s.len() - from,
{
    if from < s.len() {
        lemma_skip_all(s, from + 1);
    }
}

/// The lexer halts at an error: where it stands after one, the same error
/// comes again.
pub proof fn lemma_error_repeats(s: Seq<char>, pos: int)
    requires
        0 <= pos <= s.len(),
        lex_at(s, pos) is Err,
    ensures
        lex_at(s, skip_trivia(s, pos)) == lex_at(s, pos),
{
    lemma_trivia_bounds(s, pos);
}

/// What no error hides: the tokens from `pos` on are `before` and then
/// the tokens from `cur` on, and an error from `cur` on is one from `pos` on.
pub open spec fn continues(s: Seq<char>, pos: int, before: Seq<SpecToken>, cur: int) -> bool {
    match tokens_from(s, cur) {
        Ok(rest) => tokens_from(s, pos) == Ok::<Seq<SpecToken>, LexerError>(before + rest),
        Err(error) => tokens_from(s, pos) == Err::<Seq<SpecToken>, LexerError>(error),
    }
}

/// A lexer over a text.
pub struct Lexer {
    chars: Vec<char>,
    pos: usize,
}

impl Lexer {
    /// The text.
    pub closed spec fn source(&self) -> Seq<char> {
        self.chars@
    }

    /// The position of the lexer: everything before it was read.
    pub closed spec fn position(&self) -> int {
        self.pos as int
    }

    /// The position lies within the text.
    pub closed spec fn wf(&self) -> bool {
        self.pos <= self.chars.len()
    }

    /// A lexer at the start of `input`.
    pub fn new(input: &str) -> (r: Self)
        ensures
            r.wf(),
            r.source() == input@,
            r.position() == 0,
    {
        Lexer { chars: crate::text::chars_of(input), pos: 0 }
    }

    /// Goes one character forward, unless the text has ended.
    pub fn advance(&mut self)
        requires
            old(self).wf(),
        ensures
            final(self).wf(),
            final(self).source() == old(self).source(),
            final(self).position() == if old(self).position() < old(self).source().len() {
                old(self).position() + 1
            } else {
                old(self).position()
            },
    {
        if self.pos < self.chars.len() {
            self.pos += 1;
        }
    }

    /// Goes forward to the next character that is no white space.
    pub fn skip_whitespace(&mut self)
        requires
            old(self).wf(),
        ensures
            final(self).wf(),
            final(self).source() == old(self).source(),
            final(self).position() == skip_whitespace(old(self).source(), old(self).position()),
    {
        while self.pos < self.chars.len() && whitespace(self.chars[self.pos])
            invariant
                self.wf(),
                self.chars == old(self).chars,
                skip_whitespace(self.chars@, self.pos as int) == skip_whitespace(
                    old(self).chars@,
                    old(self).pos as int,
                ),
            decreases self.chars.len() - self.pos,
        {
            self.pos += 1;
        }
    }

    /// Goes forward over white space and comments: see [`skip_trivia`].
    pub fn skip_trivia(&mut self)
        requires
            old(self).wf(),
        ensures
            final(self).wf(),
            final(self).source() == old(self).source(),
            final(self).position() == skip_trivia(old(self).source(), old(self).position()),
    {
        let ghost s = self.chars@;
        loop
            invariant
                self.wf(),
                self.chars == old(self).chars,
                s == self.chars@,
                skip_trivia(s, self.pos as int) == skip_trivia(s, old(self).pos as int),
            decreases self.chars.len() - self.pos,
        {
            let n = self.chars.len();
            if self.pos >= n {
                return ;
            }
            let c = self.chars[self.pos];
            if whitespace(c) {
                self.pos += 1;
            } else if c == '/' && n - self.pos > 1 && self.chars[self.pos + 1] == '/' {
                let mut i: usize = self.pos + 2;
                while i < n && self.chars[i] != '\n'
                    invariant
                        self.pos + 2 <= i <= n,
                        n == self.chars.len(),
                        s == self.chars@,
                        line_end(s, i as int) == line_end(s, self.pos + 2),
                    decreases n - i,
                {
                    i += 1;
                }
                self.pos = i;
            } else if c == '/' && n - self.pos > 1 && self.chars[self.pos + 1] == '*' {
                let mut i: usize = self.pos + 2;
                while n - i > 1 && !(self.chars[i] == '*' && self.chars[i + 1] == '/')
                    invariant
                        self.pos + 2 <= i <= n,
                        n == self.chars.len(),
                        s == self.chars@,
                        comment_end(s, i as int) == comment_end(s, self.pos + 2),
                    decreases n - i,
                {
                    i += 1;
                }
                if n - i > 1 {
                    self.pos = i + 2;
                } else {
                    return ;
                }
            } else {
                return ;
            }
        }
    }

    /// Reads the identifier that starts at the position.
    pub fn read_identifier(&mut self) -> (r: Token)
        requires
            old(self).wf(),
        ensures
            final(self).wf(),
            final(self).source() == old(self).source(),
            final(self).position() == identifier_end(old(self).source(), old(self).position()),
            r@ == SpecToken::Identifier(
                old(self).source().subrange(old(self).position(), final(self).position()),
            ),
    {
        let start = self.pos;
        while self.pos < self.chars.len() && ident_continue(self.chars[self.pos])
            invariant
                self.wf(),
                start <= self.pos,
                start == old(self).pos,
                self.chars == old(self).chars,
                identifier_end(self.chars@, self.pos as int) == identifier_end(
                    self.chars@,
                    start as int,
                ),
            decreases self.chars.len() - self.pos,
        {
            self.pos += 1;
        }
        Token::Identifier(string_of_range(&self.chars, start, self.pos))
    }

    /// Reads the number that starts at the position. One that does not fit
    /// 64 bits with a sign is an error; the lexer then stays where it was.
    pub fn read_number(&mut self) -> (r: Result<Token, LexerError>)
        requires
            old(self).wf(),
            old(self).position() < old(self).source().len(),
        ensures
            final(self).wf(),
            final(self).source() == old(self).source(),
            ({
                let s = old(self).source();
                let start = old(self).position();
                let end = digits_end(s, start);
                if number_value(s, start, end) <= i64::MAX {
                    r matches Ok(t) && t@ == SpecToken::Number(number_value(s, start, end) as i64)
                        && final(self).position() == end
                } else {
                    r == Err::<Token, LexerError>(
                        LexerError::InvalidCharacter {
                            character: s[start],
                            position: start as usize,
                        },
                    ) && final(self).position() == start
                }
            }),
    {
        let start = self.pos;
        let mut value: i64 = 0;
        let mut i: usize = start;
        let ghost s = self.chars@;
        while i < self.chars.len() && digit(self.chars[i])
            invariant
                start <= i <= self.chars.len(),
                *self == *old(self),
                start == self.pos,
                s == self.chars@,
                digits_end(s, i as int) == digits_end(s, start as int),
                value == number_value(s, start as int, i as int),
                0 <= value,
            decreases self.chars.len() - i,
        {
            let d = value_of_digit(self.chars[i]) as i64;
            let next = match value.checked_mul(10) {
                Some(tens) => tens.checked_add(d),
                None => None,
            };
            proof {
                lemma_digits_bounds(s, i + 1);
                lemma_number_grows(s, start as int, i + 1, digits_end(s, start as int));
            }
            value = match next {
                Some(v) => v,
                None => {
                    return Err(
                        LexerError::InvalidCharacter {
                            character: self.chars[start],
                            position: start,
                        },
                    );
                },
            };
            i += 1;
        }
        self.pos = i;
        Ok(Token::Number(value))
    }

    /// Reads the string literal whose opening quote stands at the position.
    /// One that the text ends in is an error; the lexer then stays where it
    /// was.
    pub fn read_string(&mut self) -> (r: Result<Token, LexerError>)
        requires
            old(self).wf(),
            old(self).position() < old(self).source().len(),
        ensures
            final(self).wf(),
            final(self).source() == old(self).source(),
            match string_end(old(self).source(), old(self).position() + 1) {
                Some(close) => r matches Ok(t) && t@ == SpecToken::String(
                    old(self).source().subrange(old(self).position() + 1, close),
                ) && final(self).position() == close + 1,
                None => r == Err::<Token, LexerError>(
                    LexerError::UnterminatedString { position: old(self).position() as usize },
                ) && final(self).position() == old(self).position(),
            },
    {
        let start = self.pos;
        let ghost s = self.chars@;
        let mut i: usize = start + 1;
        while i < self.chars.len() && self.chars[i] != '"'
            invariant
                start < i <= self.chars.len(),
                *self == *old(self),
                start == self.pos,
                s == self.chars@,
                string_end(s, i as int) == string_end(s, start + 1),
            decreases self.chars.len() - i,
        {
            if self.chars[i] == '\\' && i + 1 < self.chars.len() {
                i += 2;
            } else {
                i += 1;
            }
        }
        if i < self.chars.len() {
            let text = string_of_range(&self.chars, start + 1, i);
            self.pos = i + 1;
            Ok(Token::String(text))
        } else {
            Err(LexerError::UnterminatedString { position: start })
        }
    }

    /// The next token with its position: see [`lex_at`]. After an error the
    /// lexer stands where the error was met, so that the same error comes
    /// again.
    pub fn next(&mut self) -> (r: Result<SpannedToken, LexerError>)
        requires
            old(self).wf(),
        ensures
            final(self).wf(),
            final(self).source() == old(self).source(),
            match lex_at(old(self).source(), old(self).position()) {
                Ok(lexed) => r matches Ok(t) && t.token@ == lexed.token && t.position
                    == lexed.start && final(self).position() == lexed.next,
                Err(error) => r == Err::<SpannedToken, LexerError>(error)
                    && final(self).position() == skip_trivia(
                    old(self).source(),
                    old(self).position(),
                ),
            },
    {
        proof {
            lemma_trivia_bounds(self.source(), self.position());
        }
        self.skip_trivia();
        let start = self.pos;
        if start >= self.chars.len() {
            return Ok(SpannedToken { token: Token::Eof, position: start });
        }
        let c = self.chars[start];
        if c == '/' && self.chars.len() - start > 1 && self.chars[start + 1] == '*' {
            return Err(LexerError::UnterminatedComment { position: start });
        }
        let token = if ident_start(c) {
            self.read_identifier()
        } else if digit(c) {
            match self.read_number() {
                Ok(t) => t,
                Err(error) => {
                    return Err(error);
                },
            }
        } else if c == '"' {
            match self.read_string() {
                Ok(t) => t,
                Err(error) => {
                    return Err(error);
                },
            }
        } else if start + 1 < self.chars.len() && Self::double_operator(c, self.chars[start + 1]) {
            self.pos = start + 2;
            Token::Operator(string_of_range(&self.chars, start, start + 2))
        } else if Self::operator_char(c) {
            self.pos = start + 1;
            Token::Operator(string_of_range(&self.chars, start, start + 1))
        } else if Self::punctuation_char(c) {
            self.pos = start + 1;
            Token::Punctuation(string_of_range(&self.chars, start, start + 1))
        } else {
            return Err(LexerError::InvalidCharacter { character: c, position: start });
        };
        proof {
            lemma_lex_advances(old(self).source(), old(self).position());
        }
        Ok(SpannedToken { token, position: start })
    }

    fn operator_char(c: char) -> (r: bool)
        ensures
            r == is_operator_char(c),
    {
        c == '+' || c == '-' || c == '*' || c == '/' || c == '=' || c == '<' || c == '>' || c
            == '!' || c == '&' || c == '|' || c == '^' || c == '%' || c == '~'
    }

    fn punctuation_char(c: char) -> (r: bool)
        ensures
            r == is_punctuation_char(c),
    {
        c == '(' || c == ')' || c == '{' || c == '}' || c == '[' || c == ']' || c == ';' || c
            == ',' || c == '.' || c == ':'
    }

    fn double_operator(a: char, b: char) -> (r: bool)
        ensures
            r == is_double_operator(a, b),
    {
        (a == '=' && b == '=') || (a == '!' && b == '=') || (a == '<' && b == '=') || (a == '>'
            && b == '=') || (a == '&' && b == '&') || (a == '|' && b == '|') || (a == '-' && b
            == '>')
    }

    /// The next token: see [`lex_at`].
    pub fn next_token(&mut self) -> (r: Result<Token, LexerError>)
        requires
            old(self).wf(),
        ensures
            final(self).wf(),
            final(self).source() == old(self).source(),
            match lex_at(old(self).source(), old(self).position()) {
                Ok(lexed) => r matches Ok(t) && t@ == lexed.token && final(self).position()
                    == lexed.next,
                Err(error) => r == Err::<Token, LexerError>(error) && final(self).position()
                    == skip_trivia(old(self).source(), old(self).position()),
            },
    {
        match self.next() {
            Ok(spanned) => Ok(spanned.token),
            Err(error) => Err(error),
        }
    }

    /// All the tokens from the position on, the end of the text being the
    /// last one; or the first error: see [`tokens_from`].
    pub fn tokenize(&mut self) -> (r: Result<Vec<Token>, LexerError>)
        requires
            old(self).wf(),
        ensures
            final(self).wf(),
            final(self).source() == old(self).source(),
            match tokens_from(old(self).source(), old(self).position()) {
                Ok(list) => r matches Ok(v) && tokens_model(v@) == list,
                Err(error) => r == Err::<Vec<Token>, LexerError>(error),
            },
            final(self).position() == tokens_stop(old(self).source(), old(self).position()),
    {
        let ghost s = self.source();
        let ghost start = self.position();
        let mut out: Vec<Token> = Vec::new();
        proof {
            match tokens_from(s, start) {
                Ok(rest) => {
                    assert(Seq::<SpecToken>::empty() + rest =~= rest);
                },
                Err(_) => {},
            }
        }
        loop
            invariant
                self.wf(),
                self.source() == s,
                s == old(self).source(),
                start == old(self).position(),
                0 <= self.position() <= s.len(),
                continues(s, start, tokens_model(out@), self.position()),
                tokens_stop(s, self.position()) == tokens_stop(s, start),
            decreases s.len() - self.position(), 
        {
            let ghost cur = self.position();
            let ghost before = tokens_model(out@);
            proof {
                lemma_lex_advances(s, cur);
            }
            let token = match self.next_token() {
                Ok(t) => t,
                Err(error) => {
                    return Err(error);
                },
            };
            let done = match token {
                Token::Eof => true,
                _ => false,
            };
            let ghost model = token@;
            out.push(token);
            proof {
                assert(tokens_model(out@) =~= before.push(model));
                if !done {
                    match tokens_from(s, self.position()) {
                        Ok(rest) => {
                            assert(before.push(model) + rest =~= before + (seq![model] + rest));
                        },
                        Err(_) => {},
                    }
                } else {
                    assert(before.push(model) =~= before + seq![SpecToken::Eof]);
                }
            }
            if done {
                return Ok(out);
            }
        }
    }
}

} // verus!
