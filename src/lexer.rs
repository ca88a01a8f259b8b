//! The lexer: a single pass over the characters of the input, with one
//! character of lookahead for `==` and `!=`.
use vstd::prelude::*;
use crate::text::{chars_of, same_chars, string_of, sub_chars};
use crate::token::{SpecToken, Token};

verus! {

/// The character at `i`, or `'\0'` past either end.
pub open spec fn char_at(s: Seq<char>, i: int) -> char {
    if 0 <= i < s.len() {
        s[i]
    } else {
        '\0'
    }
}

pub open spec fn is_whitespace(c: char) -> bool {
    c == ' ' || c == '\t' || c == '\n' || c == '\r'
}

pub open spec fn is_letter(c: char) -> bool {
    ('a' <= c && c <= 'z') || ('A' <= c && c <= 'Z') || c == '_'
}

pub open spec fn is_digit(c: char) -> bool {
    '0' <= c && c <= '9'
}

/// The first position at or after `p` that holds no whitespace.
pub open spec fn skip_whitespace(s: Seq<char>, p: int) -> int
    decreases s.len() - p,
{
    if 0 <= p < s.len() && is_whitespace(s[p]) {
        skip_whitespace(s, p + 1)
    } else {
        p
    }
}

/// The first position at or after `p` that holds no letter.
pub open spec fn letters_end(s: Seq<char>, p: int) -> int
    decreases s.len() - p,
{
    if 0 <= p < s.len() && is_letter(s[p]) {
        letters_end(s, p + 1)
    } else {
        p
    }
}

/// The first position at or after `p` that holds no digit.
pub open spec fn digits_end(s: Seq<char>, p: int) -> int
    decreases s.len() - p,
{
    if 0 <= p < s.len() && is_digit(s[p]) {
        digits_end(s, p + 1)
    } else {
        p
    }
}

/// The first position at or after `p` that holds `"`, or the end.
pub open spec fn string_end(s: Seq<char>, p: int) -> int
    decreases s.len() - p,
{
    if 0 <= p < s.len() && s[p] != '"' {
        string_end(s, p + 1)
    } else {
        p
    }
}

pub open spec fn digit_value(c: char) -> int {
    (c as u32) as int - 48
}

/// The number that a run of decimal digits denotes.
pub open spec fn digits_value(d: Seq<char>) -> int
    decreases d.len(),
{
    if d.len() == 0 {
        0
    } else {
        digits_value(d.drop_last()) * 10 + digit_value(d.last())
    }
}

/// The token that a word of letters stands for: a keyword, or an identifier.
pub open spec fn word_token(w: Seq<char>) -> SpecToken {
    if w == seq!['f', 'n'] {
        SpecToken::FUNCTION
    } else if w == seq!['l', 'e', 't'] {
        SpecToken::LET
    } else if w == seq!['t', 'r', 'u', 'e'] {
        SpecToken::BOOL(true)
    } else if w == seq!['f', 'a', 'l', 's', 'e'] {
        SpecToken::BOOL(false)
    } else if w == seq!['i', 'f'] {
        SpecToken::IF
    } else if w == seq!['e', 'l', 's', 'e'] {
        SpecToken::ELSE
    } else if w == seq!['r', 'e', 't', 'u', 'r', 'n'] {
        SpecToken::RETURN
    } else {
        SpecToken::IDENT(w)
    }
}

/// The token of a run of digits: `INT`, or `ILLEGAL_NUMBER` with the digits
/// when the number does not fit in `i64`.
pub open spec fn number_token(d: Seq<char>) -> SpecToken {
    if digits_value(d) <= i64::MAX {
        SpecToken::INT(digits_value(d) as i64)
    } else {
        SpecToken::ILLEGAL_NUMBER(d)
    }
}

/// The token that starts at `p`, where no whitespace stands, and the position
/// just past it.
pub open spec fn scan_token(s: Seq<char>, p: int) -> (SpecToken, int) {
    let c = char_at(s, p);
    if p >= s.len() {
        (SpecToken::EOF, p)
    } else if c == '=' {
        if char_at(s, p + 1) == '=' {
            (SpecToken::EQ, p + 2)
        } else {
            (SpecToken::ASSIGN, p + 1)
        }
    } else if c == '!' {
        if char_at(s, p + 1) == '=' {
            (SpecToken::NE, p + 2)
        } else {
            (SpecToken::BANG, p + 1)
        }
    } else if c == ';' {
        (SpecToken::SEMICOLON, p + 1)
    } else if c == '(' {
        (SpecToken::LPAREN, p + 1)
    } else if c == ')' {
        (SpecToken::RPAREN, p + 1)
    } else if c == ',' {
        (SpecToken::COMMA, p + 1)
    } else if c == '+' {
        (SpecToken::PLUS, p + 1)
    } else if c == '-' {
        (SpecToken::MINUS, p + 1)
    } else if c == '*' {
        (SpecToken::ASTERISK, p + 1)
    } else if c == '/' {
        (SpecToken::SLASH, p + 1)
    } else if c == '<' {
        (SpecToken::LT, p + 1)
    } else if c == '>' {
        (SpecToken::GT, p + 1)
    } else if c == '{' {
        (SpecToken::LBRACE, p + 1)
    } else if c == '}' {
        (SpecToken::RBRACE, p + 1)
    } else if c == '"' {
        let e = string_end(s, p + 1);
        (SpecToken::STRING(s.subrange(p + 1, e)), if e < s.len() { e + 1 } else { e })
    } else if is_letter(c) {
        let e = letters_end(s, p);
        (word_token(s.subrange(p, e)), e)
    } else if is_digit(c) {
        let e = digits_end(s, p);
        (number_token(s.subrange(p, e)), e)
    } else {
        (SpecToken::ILLEGAL, p + 1)
    }
}

/// The next token from position `p` and the position after it.
pub open spec fn next_token_at(s: Seq<char>, p: int) -> (SpecToken, int) {
    scan_token(s, skip_whitespace(s, p))
}

/// All tokens from position `p` on, up to and including the first `EOF`.
pub open spec fn tokens_from(s: Seq<char>, p: int) -> Seq<SpecToken>
    decreases s.len() - p,
{
    let (t, e) = next_token_at(s, p);
    if t is EOF || !(p < e <= s.len()) {
        seq![t]
    } else {
        seq![t].add(tokens_from(s, e))
    }
}

/// The tokens of a whole source text, ending with `EOF`.
pub open spec fn tokenize(s: Seq<char>) -> Seq<SpecToken> {
    tokens_from(s, 0)
}

/// A cursor over the characters of a source text.
#[derive(Debug)]
pub struct Lexer {
    input: Vec<char>,
    position: usize,
}

impl View for Lexer {
    type V = (Seq<char>, int);

    /// The whole input and the position of the next character to read.
    closed spec fn view(&self) -> (Seq<char>, int) {
        (self.input@, self.position as int)
    }
}

impl Lexer {
    pub closed spec fn wf(&self) -> bool {
        self.position <= self.input@.len()
    }

    /// The position of a well-formed lexer lies within its input.
    pub proof fn lemma_position_in_input(&self)
        requires
            self.wf(),
        ensures
            0 <= self@.1 <= self@.0.len(),
    {
    }

    /// A lexer positioned at the start of `input`.
    pub fn new(input: &str) -> (r: Lexer)
        ensures
            r.wf(),
            r@ == (input@, 0int),
    {
        Lexer { input: chars_of(input), position: 0 }
    }

    fn ch(&self) -> (c: char)
        requires
            self.wf(),
        ensures
            c == char_at(self.input@, self.position as int),
    {
        if self.position < self.input.len() {
            self.input[self.position]
        } else {
            '\0'
        }
    }

    fn peek_char(&self) -> (c: char)
        requires
            self.wf(),
        ensures
            c == char_at(self.input@, self.position + 1),
    {
        if self.position < self.input.len() && self.position + 1 < self.input.len() {
            self.input[self.position + 1]
        } else {
            '\0'
        }
    }

    fn read_char(&mut self)
        requires
            old(self).wf(),
        ensures
            final(self).wf(),
            final(self).input@ == old(self).input@,
            final(self).position == if old(self).position < old(self).input@.len() {
                old(self).position + 1
            } else {
                old(self).position as int
            },
    {
        if self.position < self.input.len() {
            self.position = self.position + 1;
        }
    }

    fn skip_whitespace(&mut self)
        requires
            old(self).wf(),
        ensures
            final(self).wf(),
            final(self).input@ == old(self).input@,
            final(self).position == skip_whitespace(old(self).input@, old(self).position as int),
            final(self).position >= old(self).position,
    {
        proof {
            lemma_skip_whitespace_forward(self.input@, self.position as int);
        }
        while self.position < self.input.len() && is_space(self.input[self.position])
            invariant
                self.wf(),
                self.input@ == old(self).input@,
                skip_whitespace(self.input@, self.position as int) == skip_whitespace(
                    old(self).input@,
                    old(self).position as int,
                ),
            decreases self.input@.len() - self.position,
        {
            self.position = self.position + 1;
        }
    }

    fn read_identifier(&mut self) -> (t: Token)
        requires
            old(self).wf(),
            is_letter(char_at(old(self).input@, old(self).position as int)),
        ensures
            final(self).wf(),
            final(self).position > old(self).position,
            final(self).input@ == old(self).input@,
            (t@, final(self).position as int) == scan_token(
                old(self).input@,
                old(self).position as int,
            ),
    {
        let start = self.position;
        assert(!is_letter('\0'));
        assert(self.position < self.input.len());
        self.position = self.position + 1;
        while self.position < self.input.len() && is_alpha(self.input[self.position])
            invariant
                self.wf(),
                self.input@ == old(self).input@,
                start < self.position,
                letters_end(self.input@, self.position as int) == letters_end(
                    old(self).input@,
                    start as int,
                ),
            decreases self.input@.len() - self.position,
        {
            self.position = self.position + 1;
        }
        let word = sub_chars(&self.input, start, self.position);
        if same_chars(&word, &vec!['f', 'n']) {
            Token::FUNCTION
        } else if same_chars(&word, &vec!['l', 'e', 't']) {
            Token::LET
        } else if same_chars(&word, &vec!['t', 'r', 'u', 'e']) {
            Token::BOOL(true)
        } else if same_chars(&word, &vec!['f', 'a', 'l', 's', 'e']) {
            Token::BOOL(false)
        } else if same_chars(&word, &vec!['i', 'f']) {
            Token::IF
        } else if same_chars(&word, &vec!['e', 'l', 's', 'e']) {
            Token::ELSE
        } else if same_chars(&word, &vec!['r', 'e', 't', 'u', 'r', 'n']) {
            Token::RETURN
        } else {
            Token::IDENT(string_of(word))
        }
    }

    fn read_number(&mut self) -> (t: Token)
        requires
            old(self).wf(),
            is_digit(char_at(old(self).input@, old(self).position as int)),
        ensures
            final(self).wf(),
            final(self).position > old(self).position,
            final(self).input@ == old(self).input@,
            (t@, final(self).position as int) == scan_token(
                old(self).input@,
                old(self).position as int,
            ),
    {
        let start = self.position;
        assert(!is_digit('\0'));
        let mut value: i64 = 0;
        let mut too_large = false;
        while self.position < self.input.len() && is_numeral(self.input[self.position])
            invariant
                self.wf(),
                self.input@ == old(self).input@,
                start <= self.position,
                self.position == start ==> start < self.input@.len() && is_digit(
                    self.input@[start as int],
                ),
                forall|i: int| start <= i < self.position ==> is_digit(#[trigger] self.input@[i]),
                digits_end(self.input@, self.position as int) == digits_end(
                    old(self).input@,
                    start as int,
                ),
                too_large ==> digits_value(self.input@.subrange(start as int, self.position as int))
                    > i64::MAX,
                !too_large ==> value as int == digits_value(
                    self.input@.subrange(start as int, self.position as int),
                ),
                0 <= value,
            decreases self.input@.len() - self.position,
        {
            let c = self.input[self.position];
            let ghost before = self.input@.subrange(start as int, self.position as int);
            let ghost after = self.input@.subrange(start as int, self.position + 1);
            assert(after.drop_last() =~= before);
            proof {
                lemma_digits_value_nonneg(before);
            }
            let d: i64 = (c as u32 - 48) as i64;
            if !too_large {
                if value <= (i64::MAX - d) / 10 {
                    value = value * 10 + d;
                } else {
                    too_large = true;
                }
            }
            self.position = self.position + 1;
        }
        if too_large {
            Token::ILLEGAL_NUMBER(string_of(sub_chars(&self.input, start, self.position)))
        } else {
            Token::INT(value)
        }
    }

    fn read_string(&mut self) -> (t: Token)
        requires
            old(self).wf(),
            char_at(old(self).input@, old(self).position as int) == '"',
        ensures
            final(self).wf(),
            final(self).position > old(self).position,
            final(self).input@ == old(self).input@,
            (t@, final(self).position as int) == scan_token(
                old(self).input@,
                old(self).position as int,
            ),
    {
        assert(self.position < self.input.len());
        let start = self.position + 1;
        self.position = start;
        while self.position < self.input.len() && self.input[self.position] != '"'
            invariant
                self.wf(),
                self.input@ == old(self).input@,
                start <= self.position,
                string_end(self.input@, self.position as int) == string_end(
                    old(self).input@,
                    start as int,
                ),
            decreases self.input@.len() - self.position,
        {
            self.position = self.position + 1;
        }
        let content = sub_chars(&self.input, start, self.position);
        self.read_char();
        Token::STRING(string_of(content))
    }

    /// Skips whitespace, reads the next token and moves past it.  At the end of
    /// the input the token is `EOF`, again on every later call.
    pub fn next_token(&mut self) -> (t: Token)
        requires
            old(self).wf(),
        ensures
            final(self).wf(),
            final(self)@.0 == old(self)@.0,
            final(self)@.1 <= final(self)@.0.len(),
            t@ is EOF ==> final(self)@.1 == final(self)@.0.len(),
            (t@, final(self)@.1) == next_token_at(old(self)@.0, old(self)@.1),
            !(t@ is EOF) ==> final(self)@.1 > old(self)@.1,
    {
        self.skip_whitespace();
        if self.position >= self.input.len() {
            return Token::EOF;
        }
        let c = self.ch();
        if is_alpha(c) {
            return self.read_identifier();
        }
        if is_numeral(c) {
            return self.read_number();
        }
        if c == '"' {
            return self.read_string();
        }
        let t = if c == '=' {
            if self.peek_char() == '=' {
                self.read_char();
                Token::EQ
            } else {
                Token::ASSIGN
            }
        } else if c == '!' {
            if self.peek_char() == '=' {
                self.read_char();
                Token::NE
            } else {
                Token::BANG
            }
        } else if c == ';' {
            Token::SEMICOLON
        } else if c == '(' {
            Token::LPAREN
        } else if c == ')' {
            Token::RPAREN
        } else if c == ',' {
            Token::COMMA
        } else if c == '+' {
            Token::PLUS
        } else if c == '-' {
            Token::MINUS
        } else if c == '*' {
            Token::ASTERISK
        } else if c == '/' {
            Token::SLASH
        } else if c == '<' {
            Token::LT
        } else if c == '>' {
            Token::GT
        } else if c == '{' {
            Token::LBRACE
        } else if c == '}' {
            Token::RBRACE
        } else {
            Token::ILLEGAL
        };
        self.read_char();
        t
    }
}

proof fn lemma_skip_whitespace_forward(s: Seq<char>, p: int)
    ensures
        skip_whitespace(s, p) >= p,
    decreases s.len() - p,
{
    if 0 <= p < s.len() && is_whitespace(s[p]) {
        lemma_skip_whitespace_forward(s, p + 1);
    }
}

proof fn lemma_digits_value_nonneg(d: Seq<char>)
    requires
        forall|i: int| 0 <= i < d.len() ==> is_digit(d[i]),
    ensures
        digits_value(d) >= 0,
    decreases d.len(),
{
    if d.len() > 0 {
        lemma_digits_value_nonneg(d.drop_last());
    }
}

fn is_space(c: char) -> (r: bool)
    ensures
        r == is_whitespace(c),
{
    c == ' ' || c == '\t' || c == '\n' || c == '\r'
}

fn is_alpha(c: char) -> (r: bool)
    ensures
        r == is_letter(c),
{
    ('a' <= c && c <= 'z') || ('A' <= c && c <= 'Z') || c == '_'
}

fn is_numeral(c: char) -> (r: bool)
    ensures
        r == is_digit(c),
{
    '0' <= c && c <= '9'
}

} // verus!
