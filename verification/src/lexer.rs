//! The tokenizer: turns source text into tokens, one at a time.
use crate::text::{
    is_alphabetic_char, is_numeric_char, is_whitespace_char, lemma_run_length,
    lemma_run_length_is, run_length, string_from_char, string_from_chars, text_is,
};
use crate::token::{Token, TokenKind, TokenView};
use std::collections::VecDeque;
use vstd::prelude::*;

verus! {

/// The characters that start an operator or a separator.
pub open spec fn is_symbol_char(c: char) -> bool {
    c == '=' || c == '+' || c == '-' || c == '*' || c == '/' || c == '!' || c == '<' || c == '>'
        || c == '&' || c == '|' || c == ';' || c == ',' || c == '(' || c == ')' || c == '{' || c
        == '}' || c == '[' || c == ']' || c == ':'
}

/// The characters that end a line comment.
pub open spec fn is_end_char(c: char) -> bool {
    c == '\n' || c == '\r' || c == '\0'
}

/// The characters that a word is made of: anything but white space, symbols
/// and line ends.
pub open spec fn is_word_char(c: char) -> bool {
    !(is_whitespace_char(c) || is_symbol_char(c) || is_end_char(c))
}

/// The test for white space, as a predicate.
pub open spec fn whitespace() -> spec_fn(char) -> bool {
    |c: char| is_whitespace_char(c)
}

/// The test for a character inside a line comment, as a predicate.
pub open spec fn within_line() -> spec_fn(char) -> bool {
    |c: char| !is_end_char(c)
}

/// The test for a character of a word, as a predicate.
pub open spec fn word_part() -> spec_fn(char) -> bool {
    |c: char| is_word_char(c)
}

/// The test for a character inside a string literal, as a predicate.
pub open spec fn within_quotes() -> spec_fn(char) -> bool {
    |c: char| c != '"'
}

/// The test for a numeric character, as a predicate.
pub open spec fn numeric_part() -> spec_fn(char) -> bool {
    |c: char| is_numeric_char(c)
}

/// The text without its leading run of characters that satisfy `p`.
pub open spec fn skip_run(s: Seq<char>, p: spec_fn(char) -> bool) -> Seq<char> {
    s.skip(run_length(s, p) as int)
}

/// The leading run of characters of the text that satisfy `p`.
pub open spec fn take_run(s: Seq<char>, p: spec_fn(char) -> bool) -> Seq<char> {
    s.take(run_length(s, p) as int)
}

/// The text without its leading line comment, if it starts with `//`: what
/// is left starts at the line end.
pub open spec fn skip_comment(s: Seq<char>) -> Seq<char> {
    if s.len() >= 2 && s[0] == '/' && s[1] == '/' {
        skip_run(s, within_line())
    } else {
        s
    }
}

/// The text without what comes before a token: white space, then at most
/// one line comment, then white space again.
pub open spec fn skip_blanks(s: Seq<char>) -> Seq<char> {
    skip_run(skip_comment(skip_run(s, whitespace())), whitespace())
}

/// One step of the tokenizer: the token found, if any, and the text that
/// is left.
pub struct Scan {
    pub token: Option<TokenView>,
    pub rest: Seq<char>,
}

/// A number: a run of numeric characters, with at most one dot in it. With
/// a dot it is a `DoubleLiteral`, without one an `IntLiteral`.
pub open spec fn scan_numeric(s: Seq<char>) -> Scan {
    let whole = run_length(s, numeric_part()) as int;
    if whole < s.len() && s[whole] == '.' {
        let end = whole + 1 + run_length(s.skip(whole + 1), numeric_part());
        Scan {
            token: Some(TokenView { kind: TokenKind::DoubleLiteral, text: s.take(end) }),
            rest: s.skip(end),
        }
    } else {
        Scan {
            token: Some(TokenView { kind: TokenKind::IntLiteral, text: s.take(whole) }),
            rest: s.skip(whole),
        }
    }
}

/// Whether a symbol and the character after it form a two-character
/// operator.
pub open spec fn is_double_symbol(c: char, next: Option<char>) -> bool {
    (c == '=' && next == Some('=')) || (c == '!' && next == Some('=')) || (c == '&' && next
        == Some('&')) || (c == '|' && next == Some('|'))
}

/// The kind of the operator or separator that starts with `c`, given the
/// character after it.
pub open spec fn symbol_kind(c: char, next: Option<char>) -> TokenKind {
    if c == '+' {
        TokenKind::Plus
    } else if c == '-' {
        TokenKind::Minus
    } else if c == '*' {
        TokenKind::Asterisk
    } else if c == '/' {
        TokenKind::Slash
    } else if c == '(' {
        TokenKind::Lparen
    } else if c == ')' {
        TokenKind::Rparen
    } else if c == '{' {
        TokenKind::Lcurly
    } else if c == '}' {
        TokenKind::Rcurly
    } else if c == '[' {
        TokenKind::Lsquare
    } else if c == ']' {
        TokenKind::Rsquare
    } else if c == ';' {
        TokenKind::SemiColon
    } else if c == ':' {
        TokenKind::Colon
    } else if c == ',' {
        TokenKind::Comma
    } else if c == '<' {
        TokenKind::LessThan
    } else if c == '>' {
        TokenKind::GreaterThan
    } else if c == '=' {
        if next == Some('=') {
            TokenKind::Equal
        } else {
            TokenKind::Assign
        }
    } else if c == '!' {
        if next == Some('=') {
            TokenKind::NotEqual
        } else {
            TokenKind::Bang
        }
    } else if c == '&' && next == Some('&') {
        TokenKind::And
    } else if c == '|' && next == Some('|') {
        TokenKind::Or
    } else {
        TokenKind::Other
    }
}

/// The character after the first one, if there is one.
pub open spec fn second_char(s: Seq<char>) -> Option<char> {
    if s.len() > 1 {
        Some(s[1])
    } else {
        None
    }
}

/// An operator or separator: one character, or two for `==`, `!=`, `&&`
/// and `||`.
pub open spec fn scan_symbol(s: Seq<char>) -> Scan
    recommends
        s.len() > 0,
{
    let width: int = if is_double_symbol(s[0], second_char(s)) {
        2
    } else {
        1
    };
    Scan {
        token: Some(
            TokenView { kind: symbol_kind(s[0], second_char(s)), text: s.take(width) },
        ),
        rest: s.skip(width),
    }
}

/// The kind of a word: a keyword, a boolean literal, or an identifier.
pub open spec fn word_kind(text: Seq<char>) -> TokenKind {
    if text == "void"@ {
        TokenKind::Void
    } else if text == "return"@ {
        TokenKind::Return
    } else if text == "if"@ {
        TokenKind::If
    } else if text == "else"@ {
        TokenKind::Else
    } else if text == "let"@ {
        TokenKind::Let
    } else if text == "fn"@ {
        TokenKind::Fn
    } else if text == "while"@ {
        TokenKind::While
    } else if text == "true"@ {
        TokenKind::BoolLiteral
    } else if text == "false"@ {
        TokenKind::BoolLiteral
    } else if text == "int"@ {
        TokenKind::Int
    } else if text == "double"@ {
        TokenKind::Double
    } else if text == "boolean"@ {
        TokenKind::Boolean
    } else {
        TokenKind::Ident
    }
}

/// A word: the longest run of word characters.
pub open spec fn scan_word(s: Seq<char>) -> Scan {
    let text = take_run(s, word_part());
    Scan {
        token: Some(TokenView { kind: word_kind(text), text }),
        rest: skip_run(s, word_part()),
    }
}

/// A string literal: the text between an opening double quote and the next
/// double quote, or the end of the input. Both quotes are consumed.
pub open spec fn scan_string(s: Seq<char>) -> Scan
    recommends
        s.len() > 0,
{
    let body = s.skip(1);
    let after = skip_run(body, within_quotes());
    Scan {
        token: Some(
            TokenView { kind: TokenKind::StringLiteral, text: take_run(body, within_quotes()) },
        ),
        rest: if after.len() > 0 {
            after.skip(1)
        } else {
            after
        },
    }
}

/// The token that starts at the first character of `s`, chosen by that
/// character.
pub open spec fn scan_token_at(s: Seq<char>) -> Scan
    recommends
        s.len() > 0,
{
    let c = s[0];
    if is_numeric_char(c) {
        scan_numeric(s)
    } else if is_symbol_char(c) {
        scan_symbol(s)
    } else if is_alphabetic_char(c) && !is_end_char(c) {
        scan_word(s)
    } else if c == '"' {
        scan_string(s)
    } else {
        Scan { token: Some(TokenView { kind: TokenKind::Other, text: s.take(1) }), rest: s.skip(1) }
    }
}

/// The next token of the text `s` and the text after it, or no token where
/// only white space and a comment are left.
pub open spec fn scan_token(s: Seq<char>) -> Scan {
    let start = skip_blanks(s);
    if start.len() == 0 {
        Scan { token: None, rest: start }
    } else {
        scan_token_at(start)
    }
}

/// A step that yields a token leaves less text than it was given.
pub proof fn lemma_scan_consumes(s: Seq<char>)
    ensures
        scan_token(s).rest.len() <= s.len(),
        scan_token(s).token is Some ==> scan_token(s).rest.len() < s.len(),
{
    let a = skip_run(s, whitespace());
    lemma_run_length(s, whitespace());
    let b = skip_comment(a);
    lemma_run_length(a, within_line());
    let start = skip_run(b, whitespace());
    lemma_run_length(b, whitespace());
    assert(start == skip_blanks(s));
    if start.len() > 0 {
        let c = start[0];
        if is_numeric_char(c) {
            lemma_run_length(start, numeric_part());
            let whole = run_length(start, numeric_part()) as int;
            lemma_run_length(start.skip(whole + 1), numeric_part());
        } else if is_symbol_char(c) {
        } else if is_alphabetic_char(c) && !is_end_char(c) {
            lemma_run_length(start, word_part());
            assert(start[0] == b[run_length(b, whitespace()) as int]);
            assert(is_word_char(c));
        } else if c == '"' {
            lemma_run_length(start.skip(1), within_quotes());
        }
    }
}

/// All the tokens of the text `s`, in order.
pub open spec fn token_stream(s: Seq<char>) -> Seq<TokenView>
    decreases s.len(),
{
    let step = scan_token(s);
    match step.token {
        None => Seq::empty(),
        Some(t) => {
            proof {
                lemma_scan_consumes(s);
            }
            seq![t] + token_stream(step.rest)
        },
    }
}

/// The view of an optional token.
pub open spec fn token_option_view(t: Option<Token>) -> Option<TokenView> {
    match t {
        Some(t) => Some(t@),
        None => None,
    }
}

/// The tokenizer: the characters not yet consumed, the first of them held
/// apart.
pub struct Lexer {
    chars: VecDeque<char>,
    current: Option<char>,
}

impl View for Lexer {
    type V = Seq<char>;

    /// The text that is left to tokenize.
    closed spec fn view(&self) -> Seq<char> {
        match self.current {
            Some(c) => seq![c] + self.chars@,
            None => Seq::empty(),
        }
    }
}

impl Lexer {
    /// Nothing is left behind a missing current character.
    pub closed spec fn wf(&self) -> bool {
        self.current is None ==> self.chars@.len() == 0
    }

    /// A tokenizer at the start of `src`.
    pub fn new(src: &str) -> (lexer: Self)
        ensures
            lexer.wf(),
            lexer@ == src@,
    {
        broadcast use vstd::string::group_string_axioms;

        let mut chars: VecDeque<char> = VecDeque::new();
        for c in it: src.chars()
            invariant
                it.seq() == src@,
                chars@ == it.seq().take(it.index()),
        {
            chars.push_back(c);
        }
        assert(src@.take(src@.len() as int) == src@);
        let current = chars.pop_front();
        let lexer = Lexer { chars, current };
        assert(lexer@ =~= src@);
        lexer
    }

    /// Drops the current character.
    fn read_char(&mut self)
        requires
            old(self).wf(),
        ensures
            final(self).wf(),
            old(self)@.len() > 0 ==> final(self)@ == old(self)@.skip(1),
            old(self)@.len() == 0 ==> final(self)@ == old(self)@,
    {
        self.current = self.chars.pop_front();
        assert(old(self)@.len() > 0 ==> self@ =~= old(self)@.skip(1));
    }

    /// The character after the current one, if there is one.
    fn peek_char(&self) -> (c: Option<char>)
        requires
            self.wf(),
        ensures
            c == second_char(self@),
    {
        if self.chars.len() > 0 {
            Some(self.chars[0])
        } else {
            None
        }
    }

    /// Drops the leading characters that pass `test`.
    fn skip_while<F: Fn(char) -> bool>(&mut self, test: F, Ghost(p): Ghost<spec_fn(char) -> bool>)
        requires
            old(self).wf(),
            forall|c: char| #[trigger] test.requires((c,)),
            forall|c: char, b: bool| #[trigger] test.ensures((c,), b) ==> b == p(c),
        ensures
            final(self).wf(),
            final(self)@ == skip_run(old(self)@, p),
    {
        let ghost s = self@;
        let ghost mut k: int = 0;
        loop
            invariant
                self.wf(),
                0 <= k <= s.len(),
                self@ == s.skip(k),
                forall|i: int| 0 <= i < k ==> p(#[trigger] s[i]),
                forall|c: char| #[trigger] test.requires((c,)),
                forall|c: char, b: bool| #[trigger] test.ensures((c,), b) ==> b == p(c),
            ensures
                k < s.len() ==> !p(s[k]),
            decreases s.len() - k,
        {
            if self.current.is_none() {
                assert(s.skip(k).len() == 0);
                break ;
            }
            let c = self.current.unwrap();
            assert(self@[0] == c);
            if test(c) {
                self.read_char();
                proof {
                    assert(s.skip(k).skip(1) =~= s.skip(k + 1));
                    k = k + 1;
                }
            } else {
                break ;
            }
        }
        proof {
            lemma_run_length_is(s, p, k);
        }
    }

    /// Takes the leading characters that pass `test`.
    fn get_while<F: Fn(char) -> bool>(
        &mut self,
        test: F,
        Ghost(p): Ghost<spec_fn(char) -> bool>,
    ) -> (text: String)
        requires
            old(self).wf(),
            forall|c: char| #[trigger] test.requires((c,)),
            forall|c: char, b: bool| #[trigger] test.ensures((c,), b) ==> b == p(c),
        ensures
            final(self).wf(),
            text@ == take_run(old(self)@, p),
            final(self)@ == skip_run(old(self)@, p),
    {
        let ghost s = self@;
        let mut chars: Vec<char> = Vec::new();
        loop
            invariant
                self.wf(),
                chars@.len() <= s.len(),
                chars@ == s.take(chars@.len() as int),
                self@ == s.skip(chars@.len() as int),
                forall|i: int| 0 <= i < chars@.len() ==> p(#[trigger] s[i]),
                forall|c: char| #[trigger] test.requires((c,)),
                forall|c: char, b: bool| #[trigger] test.ensures((c,), b) ==> b == p(c),
            ensures
                chars@.len() < s.len() ==> !p(s[chars@.len() as int]),
            decreases s.len() - chars@.len(),
        {
            let ghost k = chars@.len() as int;
            if self.current.is_none() {
                assert(s.skip(k).len() == 0);
                break ;
            }
            let c = self.current.unwrap();
            assert(self@[0] == c);
            if test(c) {
                chars.push(c);
                self.read_char();
                proof {
                    assert(s.skip(k).skip(1) =~= s.skip(k + 1));
                    assert(s.take(k).push(c) =~= s.take(k + 1));
                }
            } else {
                break ;
            }
        }
        proof {
            lemma_run_length_is(s, p, chars@.len() as int);
        }
        string_from_chars(&chars)
    }

    /// Consumes and returns the next token, or returns `None` at the end of
    /// the text. White space and one line comment before the token are
    /// passed over.
    pub fn next_token(&mut self) -> (token: Option<Token>)
        requires
            old(self).wf(),
        ensures
            final(self).wf(),
            token_option_view(token) == scan_token(old(self)@).token,
            final(self)@ == scan_token(old(self)@).rest,
    {
        let blank = |c: char| -> (b: bool)
            ensures b == is_whitespace_char(c),
            { c.is_whitespace() };
        self.skip_while(blank, Ghost(whitespace()));
        self.skip_comment();
        let blank = |c: char| -> (b: bool)
            ensures b == is_whitespace_char(c),
            { c.is_whitespace() };
        self.skip_while(blank, Ghost(whitespace()));
        match self.current {
            None => None,
            Some(c) => {
                assert(self@[0] == c);
                if c.is_numeric() {
                    Some(self.find_numeric())
                } else if Self::is_symbol(c) {
                    Some(self.find_symbol())
                } else if c.is_alphabetic() && !Self::is_end(c) {
                    Some(self.find_word())
                } else if c == '"' {
                    Some(self.find_string())
                } else {
                    self.read_char();
                    let token = Token::new(TokenKind::Other, string_from_char(c));
                    assert(token@.text =~= old(self)@.take(0).push(c)) by {
                        assert(seq![c] =~= Seq::<char>::empty().push(c));
                    }
                    assert(skip_blanks(old(self)@).take(1) =~= seq![c]);
                    Some(token)
                }
            },
        }
    }

    /// Whether `c` starts an operator or a separator.
    fn is_symbol(c: char) -> (b: bool)
        ensures
            b == is_symbol_char(c),
    {
        c == '=' || c == '+' || c == '-' || c == '*' || c == '/' || c == '!' || c == '<' || c
            == '>' || c == '&' || c == '|' || c == ';' || c == ',' || c == '(' || c == ')' || c
            == '{' || c == '}' || c == '[' || c == ']' || c == ':'
    }

    /// Whether `c` ends a line comment.
    fn is_end(c: char) -> (b: bool)
        ensures
            b == is_end_char(c),
    {
        c == '\n' || c == '\r' || c == '\0'
    }

    /// Drops a line comment, if the text starts with one.
    fn skip_comment(&mut self)
        requires
            old(self).wf(),
        ensures
            final(self).wf(),
            final(self)@ == skip_comment(old(self)@),
    {
        if Some('/') == self.current {
            match self.peek_char() {
                Some('/') => {
                    let in_line = |c: char| -> (b: bool)
                        ensures b == !is_end_char(c),
                        { !Self::is_end(c) };
                    self.skip_while(in_line, Ghost(within_line()));
                },
                _ => (),
            }
        }
    }

    /// Reads an operator or a separator. The text is not empty.
    fn find_symbol(&mut self) -> (token: Token)
        requires
            old(self).wf(),
            old(self)@.len() > 0,
        ensures
            final(self).wf(),
            Some(token@) == scan_symbol(old(self)@).token,
            final(self)@ == scan_symbol(old(self)@).rest,
    {
        let ghost s = self@;
        let op = self.current.unwrap();
        let mut text = string_from_char(op);
        let next = self.peek_char();
        let kind = match op {
            '+' => TokenKind::Plus,
            '-' => TokenKind::Minus,
            '*' => TokenKind::Asterisk,
            '/' => TokenKind::Slash,
            '(' => TokenKind::Lparen,
            ')' => TokenKind::Rparen,
            '{' => TokenKind::Lcurly,
            '}' => TokenKind::Rcurly,
            '[' => TokenKind::Lsquare,
            ']' => TokenKind::Rsquare,
            ';' => TokenKind::SemiColon,
            ':' => TokenKind::Colon,
            ',' => TokenKind::Comma,
            '<' => TokenKind::LessThan,
            '>' => TokenKind::GreaterThan,
            '=' => match next {
                Some('=') => {
                    self.read_char();
                    text.push('=');
                    TokenKind::Equal
                },
                _ => TokenKind::Assign,
            },
            '!' => match next {
                Some('=') => {
                    self.read_char();
                    text.push('=');
                    TokenKind::NotEqual
                },
                _ => TokenKind::Bang,
            },
            '&' => match next {
                Some('&') => {
                    self.read_char();
                    text.push('&');
                    TokenKind::And
                },
                _ => TokenKind::Other,
            },
            '|' => match next {
                Some('|') => {
                    self.read_char();
                    text.push('|');
                    TokenKind::Or
                },
                _ => TokenKind::Other,
            },
            _ => TokenKind::Other,
        };
        self.read_char();
        proof {
            assert(s[0] == op);
            if is_double_symbol(op, next) {
                assert(text@ =~= s.take(2));
                assert(s.skip(1).skip(1) =~= s.skip(2));
            } else {
                assert(text@ =~= s.take(1));
            }
        }
        Token::new(kind, text)
    }

    /// Reads a word: a keyword, a boolean literal or an identifier.
    fn find_word(&mut self) -> (token: Token)
        requires
            old(self).wf(),
        ensures
            final(self).wf(),
            Some(token@) == scan_word(old(self)@).token,
            final(self)@ == scan_word(old(self)@).rest,
    {
        let in_word = |c: char| -> (b: bool)
            ensures b == is_word_char(c),
            { !(c.is_whitespace() || Self::is_symbol(c) || Self::is_end(c)) };
        let value: String = self.get_while(in_word, Ghost(word_part()));
        if text_is(&value, "void") {
            Token::new(TokenKind::Void, value)
        } else if text_is(&value, "return") {
            Token::new(TokenKind::Return, value)
        } else if text_is(&value, "if") {
            Token::new(TokenKind::If, value)
        } else if text_is(&value, "else") {
            Token::new(TokenKind::Else, value)
        } else if text_is(&value, "let") {
            Token::new(TokenKind::Let, value)
        } else if text_is(&value, "fn") {
            Token::new(TokenKind::Fn, value)
        } else if text_is(&value, "while") {
            Token::new(TokenKind::While, value)
        } else if text_is(&value, "true") {
            Token::new(TokenKind::BoolLiteral, value)
        } else if text_is(&value, "false") {
            Token::new(TokenKind::BoolLiteral, value)
        } else if text_is(&value, "int") {
            Token::new(TokenKind::Int, value)
        } else if text_is(&value, "double") {
            Token::new(TokenKind::Double, value)
        } else if text_is(&value, "boolean") {
            Token::new(TokenKind::Boolean, value)
        } else {
            Token::new(TokenKind::Ident, value)
        }
    }

    /// Reads a string literal. The text starts with its opening quote.
    fn find_string(&mut self) -> (token: Token)
        requires
            old(self).wf(),
            old(self)@.len() > 0,
        ensures
            final(self).wf(),
            Some(token@) == scan_string(old(self)@).token,
            final(self)@ == scan_string(old(self)@).rest,
    {
        // pass over the opening quote
        self.read_char();
        let in_quotes = |c: char| -> (b: bool)
            ensures b == (c != '"'),
            { c != '"' };
        let value: String = self.get_while(in_quotes, Ghost(within_quotes()));
        // pass over the closing quote
        self.read_char();
        Token::new(TokenKind::StringLiteral, value)
    }

    /// Reads a number: digits, with at most one dot among them.
    fn find_numeric(&mut self) -> (token: Token)
        requires
            old(self).wf(),
        ensures
            final(self).wf(),
            Some(token@) == scan_numeric(old(self)@).token,
            final(self)@ == scan_numeric(old(self)@).rest,
    {
        let ghost s = self@;
        let ghost mut dot_at: int = 0;
        let mut stack: Vec<char> = Vec::new();
        let mut dot_flg = false;
        loop
            invariant
                self.wf(),
                stack@.len() <= s.len(),
                stack@ == s.take(stack@.len() as int),
                self@ == s.skip(stack@.len() as int),
                !dot_flg ==> forall|i: int|
                    0 <= i < stack@.len() ==> is_numeric_char(#[trigger] s[i]),
                dot_flg ==> 0 <= dot_at < stack@.len() && s[dot_at] == '.' && !is_numeric_char(
                    s[dot_at],
                ),
                dot_flg ==> forall|i: int| 0 <= i < dot_at ==> is_numeric_char(#[trigger] s[i]),
                dot_flg ==> forall|i: int|
                    dot_at < i < stack@.len() ==> is_numeric_char(#[trigger] s[i]),
            ensures
                stack@.len() < s.len() ==> !is_numeric_char(s[stack@.len() as int]) && (dot_flg
                    || s[stack@.len() as int] != '.'),
            decreases s.len() - stack@.len(),
        {
            let ghost k = stack@.len() as int;
            if self.current.is_none() {
                assert(s.skip(k).len() == 0);
                break ;
            }
            let c = self.current.unwrap();
            assert(self@[0] == c);
            if c.is_numeric() {
                stack.push(c);
                self.read_char();
                proof {
                    assert(s.skip(k).skip(1) =~= s.skip(k + 1));
                    assert(s.take(k).push(c) =~= s.take(k + 1));
                }
            } else if c == '.' && !dot_flg {
                dot_flg = true;
                stack.push(c);
                self.read_char();
                proof {
                    dot_at = k;
                    assert(s.skip(k).skip(1) =~= s.skip(k + 1));
                    assert(s.take(k).push(c) =~= s.take(k + 1));
                }
            } else {
                break ;
            }
        }
        let numeric: String = string_from_chars(&stack);
        proof {
            let end = stack@.len() as int;
            if dot_flg {
                lemma_run_length_is(s, numeric_part(), dot_at);
                let tail = s.skip(dot_at + 1);
                assert forall|i: int| 0 <= i < end - dot_at - 1 implies is_numeric_char(
                    #[trigger] tail[i],
                ) by {
                    assert(tail[i] == s[dot_at + 1 + i]);
                }
                lemma_run_length_is(tail, numeric_part(), end - dot_at - 1);
            } else {
                lemma_run_length_is(s, numeric_part(), end);
            }
        }
        if dot_flg {
            Token::new(TokenKind::DoubleLiteral, numeric)
        } else {
            Token::new(TokenKind::IntLiteral, numeric)
        }
    }
}

} // verus!
