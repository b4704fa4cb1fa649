//! The first tokenizer: two characters of lookahead held apart, a dot among
//! the symbols, and the keywords of a class-based dialect.
use crate::lexer::{
    is_end_char, numeric_part, scan_numeric, scan_string, second_char, skip_run, take_run,
    token_option_view, whitespace, within_line, within_quotes, Scan,
};
use crate::text::{
    is_alphabetic_char, is_numeric_char, is_whitespace_char, lemma_run_length_is, string_from_char,
    string_from_chars, text_is,
};
use crate::token::{Token, TokenKind, TokenView};
use std::collections::VecDeque;
use vstd::prelude::*;

verus! {

/// The characters that start an operator or a separator.
pub open spec fn is_symbol_char(c: char) -> bool {
    c == '=' || c == '+' || c == '-' || c == '*' || c == '/' || c == '!' || c == '.' || c == '&'
        || c == '|' || c == ';' || c == '(' || c == ')' || c == '{' || c == '}' || c == '[' || c
        == ']' || c == ':'
}

/// The characters that a word is made of: anything but white space, symbols
/// and line ends.
pub open spec fn is_word_char(c: char) -> bool {
    !(is_whitespace_char(c) || is_symbol_char(c) || is_end_char(c))
}

/// The test for a character of a word, as a predicate.
pub open spec fn word_part() -> spec_fn(char) -> bool {
    |c: char| is_word_char(c)
}

/// The text without its leading line comment, if it starts with `//`.
pub open spec fn skip_comment(s: Seq<char>) -> Seq<char> {
    if s.len() >= 2 && s[0] == '/' && s[1] == '/' {
        skip_run(s, within_line())
    } else {
        s
    }
}

/// The text without what comes before a token: white space, then at most
/// one line comment, then white space again.
pub open spec fn skip_blanks(s: Seq<char>) -> Seq<char> {
    skip_run(skip_comment(skip_run(s, whitespace())), whitespace())
}

/// Whether a symbol and the character after it form a two-character
/// operator.
pub open spec fn is_double_symbol(c: char, next: Option<char>) -> bool {
    (c == '=' && next == Some('=')) || (c == '!' && next == Some('=')) || (c == '&' && next
        == Some('&')) || (c == '|' && next == Some('|'))
}

/// The kind of the operator or separator that starts with `c`, given the
/// character after it.
pub open spec fn symbol_kind(c: char, next: Option<char>) -> TokenKind {
    if c == '+' {
        TokenKind::Plus
    } else if c == '-' {
        TokenKind::Minus
    } else if c == '*' {
        TokenKind::Asterisk
    } else if c == '/' {
        TokenKind::Slash
    } else if c == '.' {
        TokenKind::Dot
    } else if c == '(' {
        TokenKind::Lparen
    } else if c == ')' {
        TokenKind::Rparen
    } else if c == '{' {
        TokenKind::Lcurly
    } else if c == '}' {
        TokenKind::Rcurly
    } else if c == '[' {
        TokenKind::Lsquare
    } else if c == ']' {
        TokenKind::Rsquare
    } else if c == ';' {
        TokenKind::SemiColon
    } else if c == ':' {
        TokenKind::Colon
    } else if c == '=' {
        if next == Some('=') {
            TokenKind::Equal
        } else {
            TokenKind::Assign
        }
    } else if c == '!' {
        if next == Some('=') {
            TokenKind::NotEqual
        } else {
            TokenKind::Bang
        }
    } else if c == '&' && next == Some('&') {
        TokenKind::And
    } else if c == '|' && next == Some('|') {
        TokenKind::Or
    } else {
        TokenKind::Other
    }
}

/// An operator or separator: one character, or two for `==`, `!=`, `&&`
/// and `||`.
pub open spec fn scan_symbol(s: Seq<char>) -> Scan
    recommends
        s.len() > 0,
{
    let width: int = if is_double_symbol(s[0], second_char(s)) {
        2
    } else {
        1
    };
    Scan {
        token: Some(
            TokenView { kind: symbol_kind(s[0], second_char(s)), text: s.take(width) },
        ),
        rest: s.skip(width),
    }
}

/// The kind of a word: a keyword, a boolean literal, or an identifier.
pub open spec fn word_kind(text: Seq<char>) -> TokenKind {
    if text == "if"@ {
        TokenKind::If
    } else if text == "else"@ {
        TokenKind::Else
    } else if text == "for"@ {
        TokenKind::For
    } else if text == "new"@ {
        TokenKind::New
    } else if text == "void"@ {
        TokenKind::Void
    } else if text == "class"@ {
        TokenKind::Class
    } else if text == "true"@ {
        TokenKind::BoolLiteral
    } else if text == "false"@ {
        TokenKind::BoolLiteral
    } else if text == "int"@ {
        TokenKind::Int
    } else if text == "double"@ {
        TokenKind::Double
    } else if text == "boolean"@ {
        TokenKind::Boolean
    } else {
        TokenKind::Ident
    }
}

/// A word: the longest run of word characters.
pub open spec fn scan_word(s: Seq<char>) -> Scan {
    let text = take_run(s, word_part());
    Scan {
        token: Some(TokenView { kind: word_kind(text), text }),
        rest: skip_run(s, word_part()),
    }
}

/// The token that starts at the first character of `s`, chosen by that
/// character.
pub open spec fn scan_token_at(s: Seq<char>) -> Scan
    recommends
        s.len() > 0,
{
    let c = s[0];
    if is_numeric_char(c) {
        scan_numeric(s)
    } else if is_symbol_char(c) {
        scan_symbol(s)
    } else if is_alphabetic_char(c) && !is_end_char(c) {
        scan_word(s)
    } else if c == '"' {
        scan_string(s)
    } else {
        Scan { token: Some(TokenView { kind: TokenKind::Other, text: s.take(1) }), rest: s.skip(1) }
    }
}

/// The next token of the text `s` and the text after it, or no token where
/// only white space and a comment are left.
pub open spec fn scan_token(s: Seq<char>) -> Scan {
    let start = skip_blanks(s);
    if start.len() == 0 {
        Scan { token: None, rest: start }
    } else {
        scan_token_at(start)
    }
}

/// The tokenizer: the characters not yet consumed, the first two of them
/// held apart.
pub struct LexicalAnalizer {
    chars: VecDeque<char>,
    current: Option<char>,
    next: Option<char>,
}

impl View for LexicalAnalizer {
    type V = Seq<char>;

    /// The text that is left to tokenize.
    closed spec fn view(&self) -> Seq<char> {
        match (self.current, self.next) {
            (Some(c), Some(n)) => seq![c, n] + self.chars@,
            (Some(c), None) => seq![c],
            _ => Seq::empty(),
        }
    }
}

impl LexicalAnalizer {
    /// Nothing is left behind a missing character.
    pub closed spec fn wf(&self) -> bool {
        &&& self.current is None ==> self.next is None
        &&& self.next is None ==> self.chars@.len() == 0
    }

    /// A tokenizer at the start of `src`.
    pub fn new(src: &str) -> (analizer: Self)
        ensures
            analizer.wf(),
            analizer@ == src@,
    {
        broadcast use vstd::string::group_string_axioms;

        let mut chars: VecDeque<char> = VecDeque::new();
        for c in it: src.chars()
            invariant
                it.seq() == src@,
                chars@ == it.seq().take(it.index()),
        {
            chars.push_back(c);
        }
        assert(src@.take(src@.len() as int) == src@);
        let current = chars.pop_front();
        let next = chars.pop_front();
        let analizer = LexicalAnalizer { chars, current, next };
        assert(analizer@ =~= src@);
        analizer
    }

    /// Drops the current character.
    fn read(&mut self)
        requires
            old(self).wf(),
        ensures
            final(self).wf(),
            old(self)@.len() > 0 ==> final(self)@ == old(self)@.skip(1),
            old(self)@.len() == 0 ==> final(self)@ == old(self)@,
    {
        self.current = self.next;
        self.next = self.chars.pop_front();
        assert(old(self)@.len() > 0 ==> self@ =~= old(self)@.skip(1));
    }

    /// The current character, if there is one.
    fn first(&self) -> (c: Option<char>)
        requires
            self.wf(),
        ensures
            c is None <==> self@.len() == 0,
            c is Some ==> c->0 == self@[0],
    {
        self.current
    }

    /// The character after the current one, if there is one.
    fn second(&self) -> (c: Option<char>)
        requires
            self.wf(),
        ensures
            c == second_char(self@),
    {
        if self.current.is_some() {
            self.next
        } else {
            None
        }
    }

    /// Drops the leading characters that pass `test`.
    fn skip_while<F: Fn(char) -> bool>(&mut self, test: F, Ghost(p): Ghost<spec_fn(char) -> bool>)
        requires
            old(self).wf(),
            forall|c: char| #[trigger] test.requires((c,)),
            forall|c: char, b: bool| #[trigger] test.ensures((c,), b) ==> b == p(c),
        ensures
            final(self).wf(),
            final(self)@ == skip_run(old(self)@, p),
    {
        let ghost s = self@;
        let ghost mut k: int = 0;
        loop
            invariant
                self.wf(),
                0 <= k <= s.len(),
                self@ == s.skip(k),
                forall|i: int| 0 <= i < k ==> p(#[trigger] s[i]),
                forall|c: char| #[trigger] test.requires((c,)),
                forall|c: char, b: bool| #[trigger] test.ensures((c,), b) ==> b == p(c),
            ensures
                k < s.len() ==> !p(s[k]),
            decreases s.len() - k,
        {
            let c = match self.first() {
                Some(c) => c,
                None => {
                    assert(s.skip(k).len() == 0);
                    break ;
                },
            };
            if test(c) {
                self.read();
                proof {
                    assert(s.skip(k).skip(1) =~= s.skip(k + 1));
                    k = k + 1;
                }
            } else {
                break ;
            }
        }
        proof {
            lemma_run_length_is(s, p, k);
        }
    }

    /// Consumes and returns the next token, or returns `None` at the end of
    /// the text. White space and one line comment before the token are
    /// passed over.
    pub fn next_token(&mut self) -> (token: Option<Token>)
        requires
            old(self).wf(),
        ensures
            final(self).wf(),
            token_option_view(token) == scan_token(old(self)@).token,
            final(self)@ == scan_token(old(self)@).rest,
    {
        let blank = |c: char| -> (b: bool)
            ensures b == is_whitespace_char(c),
            { c.is_whitespace() };
        self.skip_while(blank, Ghost(whitespace()));
        self.skip_comment();
        let blank = |c: char| -> (b: bool)
            ensures b == is_whitespace_char(c),
            { c.is_whitespace() };
        self.skip_while(blank, Ghost(whitespace()));
        match self.first() {
            None => None,
            Some(c) => {
                if c.is_numeric() {
                    Some(self.find_numeric())
                } else if Self::is_symbol(c) {
                    Some(self.find_symbol())
                } else if c.is_alphabetic() && !Self::is_end(c) {
                    Some(self.find_word())
                } else if c == '"' {
                    Some(self.find_string())
                } else {
                    let ghost s = self@;
                    self.read();
                    let token = Token::new(TokenKind::Other, string_from_char(c));
                    assert(s.take(1) =~= seq![c]);
                    Some(token)
                }
            },
        }
    }

    /// Whether `c` starts an operator or a separator.
    fn is_symbol(c: char) -> (b: bool)
        ensures
            b == is_symbol_char(c),
    {
        c == '=' || c == '+' || c == '-' || c == '*' || c == '/' || c == '!' || c == '.' || c
            == '&' || c == '|' || c == ';' || c == '(' || c == ')' || c == '{' || c == '}' || c
            == '[' || c == ']' || c == ':'
    }

    /// Whether `c` ends a line comment.
    fn is_end(c: char) -> (b: bool)
        ensures
            b == is_end_char(c),
    {
        c == '\n' || c == '\r' || c == '\0'
    }

    /// Drops a line comment, if the text starts with one.
    fn skip_comment(&mut self)
        requires
            old(self).wf(),
        ensures
            final(self).wf(),
            final(self)@ == skip_comment(old(self)@),
    {
        if Some('/') == self.first() {
            match self.second() {
                Some('/') => {
                    let in_line = |c: char| -> (b: bool)
                        ensures b == !is_end_char(c),
                        { !Self::is_end(c) };
                    self.skip_while(in_line, Ghost(within_line()));
                },
                _ => (),
            }
        }
    }

    /// Reads an operator or a separator. The text is not empty.
    fn find_symbol(&mut self) -> (token: Token)
        requires
            old(self).wf(),
            old(self)@.len() > 0,
        ensures
            final(self).wf(),
            Some(token@) == scan_symbol(old(self)@).token,
            final(self)@ == scan_symbol(old(self)@).rest,
    {
        let ghost s = self@;
        let op = self.first().unwrap();
        let mut text = string_from_char(op);
        let next = self.second();
        let kind = match op {
            '+' => TokenKind::Plus,
            '-' => TokenKind::Minus,
            '*' => TokenKind::Asterisk,
            '/' => TokenKind::Slash,
            '.' => TokenKind::Dot,
            '(' => TokenKind::Lparen,
            ')' => TokenKind::Rparen,
            '{' => TokenKind::Lcurly,
            '}' => TokenKind::Rcurly,
            '[' => TokenKind::Lsquare,
            ']' => TokenKind::Rsquare,
            ';' => TokenKind::SemiColon,
            ':' => TokenKind::Colon,
            '=' => match next {
                Some('=') => {
                    self.read();
                    text.push('=');
                    TokenKind::Equal
                },
                _ => TokenKind::Assign,
            },
            '!' => match next {
                Some('=') => {
                    self.read();
                    text.push('=');
                    TokenKind::NotEqual
                },
                _ => TokenKind::Bang,
            },
            '&' => match next {
                Some('&') => {
                    self.read();
                    text.push('&');
                    TokenKind::And
                },
                _ => TokenKind::Other,
            },
            '|' => match next {
                Some('|') => {
                    self.read();
                    text.push('|');
                    TokenKind::Or
                },
                _ => TokenKind::Other,
            },
            _ => TokenKind::Other,
        };
        self.read();
        proof {
            if is_double_symbol(op, next) {
                assert(text@ =~= s.take(2));
                assert(s.skip(1).skip(1) =~= s.skip(2));
            } else {
                assert(text@ =~= s.take(1));
            }
        }
        Token::new(kind, text)
    }

    /// Reads a word: a keyword, a boolean literal or an identifier.
    fn find_word(&mut self) -> (token: Token)
        requires
            old(self).wf(),
        ensures
            final(self).wf(),
            Some(token@) == scan_word(old(self)@).token,
            final(self)@ == scan_word(old(self)@).rest,
    {
        let ghost s = self@;
        let mut stack: Vec<char> = Vec::new();
        loop
            invariant
                self.wf(),
                stack@.len() <= s.len(),
                stack@ == s.take(stack@.len() as int),
                self@ == s.skip(stack@.len() as int),
                forall|i: int| 0 <= i < stack@.len() ==> is_word_char(#[trigger] s[i]),
            ensures
                stack@.len() < s.len() ==> !is_word_char(s[stack@.len() as int]),
            decreases s.len() - stack@.len(),
        {
            let ghost k = stack@.len() as int;
            let c = match self.first() {
                Some(c) => c,
                None => {
                    assert(s.skip(k).len() == 0);
                    break ;
                },
            };
            if c.is_whitespace() || Self::is_symbol(c) || Self::is_end(c) {
                break ;
            } else {
                stack.push(c);
                self.read();
                proof {
                    assert(s.skip(k).skip(1) =~= s.skip(k + 1));
                    assert(s.take(k).push(c) =~= s.take(k + 1));
                }
            }
        }
        proof {
            lemma_run_length_is(s, word_part(), stack@.len() as int);
        }
        let text: String = string_from_chars(&stack);
        if text_is(&text, "if") {
            Token::new(TokenKind::If, text)
        } else if text_is(&text, "else") {
            Token::new(TokenKind::Else, text)
        } else if text_is(&text, "for") {
            Token::new(TokenKind::For, text)
        } else if text_is(&text, "new") {
            Token::new(TokenKind::New, text)
        } else if text_is(&text, "void") {
            Token::new(TokenKind::Void, text)
        } else if text_is(&text, "class") {
            Token::new(TokenKind::Class, text)
        } else if text_is(&text, "true") {
            Token::new(TokenKind::BoolLiteral, text)
        } else if text_is(&text, "false") {
            Token::new(TokenKind::BoolLiteral, text)
        } else if text_is(&text, "int") {
            Token::new(TokenKind::Int, text)
        } else if text_is(&text, "double") {
            Token::new(TokenKind::Double, text)
        } else if text_is(&text, "boolean") {
            Token::new(TokenKind::Boolean, text)
        } else {
            Token::new(TokenKind::Ident, text)
        }
    }

    /// Reads a string literal. The text starts with its opening quote.
    fn find_string(&mut self) -> (token: Token)
        requires
            old(self).wf(),
            old(self)@.len() > 0,
        ensures
            final(self).wf(),
            Some(token@) == scan_string(old(self)@).token,
            final(self)@ == scan_string(old(self)@).rest,
    {
        let mut stack: Vec<char> = Vec::new();
        // pass over the opening quote
        self.read();
        let ghost s = self@;
        let ghost mut closed = false;
        loop
            invariant_except_break
                self.wf(),
                stack@.len() <= s.len(),
                stack@ == s.take(stack@.len() as int),
                self@ == s.skip(stack@.len() as int),
                forall|i: int| 0 <= i < stack@.len() ==> #[trigger] s[i] != '"',
            ensures
                self.wf(),
                stack@.len() <= s.len(),
                stack@ == s.take(stack@.len() as int),
                forall|i: int| 0 <= i < stack@.len() ==> #[trigger] s[i] != '"',
                stack@.len() < s.len() ==> s[stack@.len() as int] == '"' && self@ == s.skip(
                    stack@.len() as int + 1,
                ),
                stack@.len() == s.len() ==> self@ == s.skip(stack@.len() as int),
            decreases s.len() - stack@.len(),
        {
            let ghost k = stack@.len() as int;
            let c = match self.first() {
                Some(c) => c,
                None => {
                    assert(s.skip(k).len() == 0);
                    break ;
                },
            };
            if c != '"' {
                // keep what comes before the closing quote
                stack.push(c);
                self.read();
                proof {
                    assert(s.skip(k).skip(1) =~= s.skip(k + 1));
                    assert(s.take(k).push(c) =~= s.take(k + 1));
                }
            } else {
                // pass over the closing quote
                self.read();
                proof {
                    assert(s.skip(k).skip(1) =~= s.skip(k + 1));
                }
                break ;
            }
        }
        proof {
            let n = stack@.len() as int;
            assert forall|i: int| 0 <= i < n implies within_quotes()(#[trigger] s[i]) by {}
            lemma_run_length_is(s, within_quotes(), n);
            if n < s.len() {
                assert(s.skip(n).skip(1) =~= s.skip(n + 1));
            }
        }
        let value: String = string_from_chars(&stack);
        Token::new(TokenKind::StringLiteral, value)
    }

    /// Reads a number: digits, with at most one dot among them.
    fn find_numeric(&mut self) -> (token: Token)
        requires
            old(self).wf(),
        ensures
            final(self).wf(),
            Some(token@) == scan_numeric(old(self)@).token,
            final(self)@ == scan_numeric(old(self)@).rest,
    {
        let ghost s = self@;
        let ghost mut dot_at: int = 0;
        let mut stack: Vec<char> = Vec::new();
        let mut dot_flg = false;
        loop
            invariant
                self.wf(),
                stack@.len() <= s.len(),
                stack@ == s.take(stack@.len() as int),
                self@ == s.skip(stack@.len() as int),
                !dot_flg ==> forall|i: int|
                    0 <= i < stack@.len() ==> is_numeric_char(#[trigger] s[i]),
                dot_flg ==> 0 <= dot_at < stack@.len() && s[dot_at] == '.' && !is_numeric_char(
                    s[dot_at],
                ),
                dot_flg ==> forall|i: int| 0 <= i < dot_at ==> is_numeric_char(#[trigger] s[i]),
                dot_flg ==> forall|i: int|
                    dot_at < i < stack@.len() ==> is_numeric_char(#[trigger] s[i]),
            ensures
                stack@.len() < s.len() ==> !is_numeric_char(s[stack@.len() as int]) && (dot_flg
                    || s[stack@.len() as int] != '.'),
            decreases s.len() - stack@.len(),
        {
            let ghost k = stack@.len() as int;
            let c = match self.first() {
                Some(c) => c,
                None => {
                    assert(s.skip(k).len() == 0);
                    break ;
                },
            };
            if c.is_numeric() {
                stack.push(c);
                self.read();
                proof {
                    assert(s.skip(k).skip(1) =~= s.skip(k + 1));
                    assert(s.take(k).push(c) =~= s.take(k + 1));
                }
            } else if c == '.' && !dot_flg {
                dot_flg = true;
                stack.push(c);
                self.read();
                proof {
                    dot_at = k;
                    assert(s.skip(k).skip(1) =~= s.skip(k + 1));
                    assert(s.take(k).push(c) =~= s.take(k + 1));
                }
            } else {
                break ;
            }
        }
        let numeric: String = string_from_chars(&stack);
        proof {
            let end = stack@.len() as int;
            if dot_flg {
                lemma_run_length_is(s, numeric_part(), dot_at);
                let tail = s.skip(dot_at + 1);
                assert forall|i: int| 0 <= i < end - dot_at - 1 implies is_numeric_char(
                    #[trigger] tail[i],
                ) by {
                    assert(tail[i] == s[dot_at + 1 + i]);
                }
                lemma_run_length_is(tail, numeric_part(), end - dot_at - 1);
            } else {
                lemma_run_length_is(s, numeric_part(), end);
            }
        }
        if dot_flg {
            Token::new(TokenKind::DoubleLiteral, numeric)
        } else {
            Token::new(TokenKind::IntLiteral, numeric)
        }
    }
}

} // verus!
