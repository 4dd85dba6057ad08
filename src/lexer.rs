use vstd::prelude::*;
use crate::text::{is_digit, push_char};
use crate::token::Token;

verus! {

pub open spec fn is_alpha(c: char) -> bool {
    (65 <= c as u32 <= 90) || (97 <= c as u32 <= 122)
}

pub open spec fn is_blank(c: char) -> bool {
    c == ' ' || c == '\t' || c == '\x0C'
}

/// The end of the run of letters and digits starting at `p`.
pub open spec fn word_end(cs: Seq<char>, p: int) -> int
    decreases cs.len() - p,
{
    if p < 0 || p >= cs.len() || !(is_alpha(cs[p]) || is_digit(cs[p])) {
        p
    } else {
        word_end(cs, p + 1)
    }
}

/// The end of the run of digits starting at `p`.
pub open spec fn digits_end(cs: Seq<char>, p: int) -> int
    decreases cs.len() - p,
{
    if p < 0 || p >= cs.len() || !is_digit(cs[p]) {
        p
    } else {
        digits_end(cs, p + 1)
    }
}

/// The first position from `p` on that holds `c`.
pub open spec fn find_char(cs: Seq<char>, p: int, c: char) -> Option<int>
    decreases cs.len() - p,
{
    if p < 0 || p >= cs.len() {
        None
    } else if cs[p] == c {
        Some(p)
    } else {
        find_char(cs, p + 1, c)
    }
}

/// Where the next token may start: spaces, tabs, form feeds, newlines and
/// `//` comments are skipped; the flag says whether a newline was.
pub open spec fn skip_trivia(cs: Seq<char>, p: int) -> (int, bool)
    decreases cs.len() - p,
{
    if p < 0 || p >= cs.len() {
        (p, false)
    } else if is_blank(cs[p]) {
        skip_trivia(cs, p + 1)
    } else if cs[p] == '\n' {
        (skip_trivia(cs, p + 1).0, true)
    } else if cs[p] == '/' && p + 1 < cs.len() && cs[p + 1] == '/' {
        match find_char(cs, p + 2, '\n') {
            Some(q) => if p < q < cs.len() { (skip_trivia(cs, q + 1).0, true) } else { (q, true) },
            None => (cs.len() as int, false),
        }
    } else {
        (p, false)
    }
}

/// Keywords shadow identifiers.
pub open spec fn keyword_of(w: Seq<char>) -> Token {
    if w == "let"@ { Token::Let }
    else if w == "fn"@ { Token::Function }
    else if w == "return"@ { Token::Return }
    else if w == "if"@ { Token::If }
    else if w == "else"@ { Token::Else }
    else if w == "for"@ { Token::For }
    else if w == "in"@ { Token::In }
    else if w == "switch"@ { Token::Switch }
    else if w == "case"@ { Token::Case }
    else if w == "default"@ { Token::Default }
    else if w == "true"@ { Token::True }
    else if w == "false"@ { Token::False }
    else if w == "watch"@ { Token::Watch }
    else { Token::Identifier }
}

/// An operator or punctuation token at a character `c` followed by `n`,
/// with its width; two-character operators win over their prefixes.
pub open spec fn punct(c: char, n: Option<char>) -> Option<(Token, int)> {
    if c == '=' {
        if n == Some('=') { Some((Token::Equal, 2)) } else { Some((Token::Assign, 1)) }
    } else if c == '!' {
        if n == Some('=') { Some((Token::NotEqual, 2)) } else { Some((Token::Bang, 1)) }
    } else if c == '<' {
        if n == Some('=') { Some((Token::LessThanOrEqual, 2)) } else { Some((Token::LessThan, 1)) }
    } else if c == '>' {
        if n == Some('=') { Some((Token::GreaterThanOrEqual, 2)) } else { Some((Token::GreaterThan, 1)) }
    } else if c == '&' {
        if n == Some('&') { Some((Token::And, 2)) } else { None }
    } else if c == '|' {
        if n == Some('|') { Some((Token::Or, 2)) } else { None }
    } else if c == '+' { Some((Token::Plus, 1)) }
    else if c == '-' { Some((Token::Minus, 1)) }
    else if c == '*' { Some((Token::Asterisk, 1)) }
    else if c == '/' { Some((Token::Slash, 1)) }
    else if c == '%' { Some((Token::Percent, 1)) }
    else if c == '(' { Some((Token::LParen, 1)) }
    else if c == ')' { Some((Token::RParen, 1)) }
    else if c == '{' { Some((Token::LBrace, 1)) }
    else if c == '}' { Some((Token::RBrace, 1)) }
    else if c == '[' { Some((Token::LBracket, 1)) }
    else if c == ']' { Some((Token::RBracket, 1)) }
    else if c == ';' { Some((Token::Semicolon, 1)) }
    else if c == ':' { Some((Token::Colon, 1)) }
    else if c == ',' { Some((Token::Comma, 1)) }
    else { None }
}

/// The token that starts at `p` and where it ends; `None` at the end of the
/// input and at a character that starts no token (the stream ends there).
pub open spec fn token_at(cs: Seq<char>, p: int) -> Option<(Token, int)> {
    if p < 0 || p >= cs.len() {
        None
    } else if is_alpha(cs[p]) {
        let e = word_end(cs, p + 1);
        Some((keyword_of(cs.subrange(p, e)), e))
    } else if is_digit(cs[p]) {
        Some((Token::Number, digits_end(cs, p + 1)))
    } else if cs[p] == '"' {
        match find_char(cs, p + 1, '"') {
            Some(q) => Some((Token::String, q + 1)),
            None => None,
        }
    } else {
        let n = if p + 1 < cs.len() { Some(cs[p + 1]) } else { None };
        match punct(cs[p], n) {
            Some((t, w)) => Some((t, p + w)),
            None => None,
        }
    }
}

/// The tokens from position `p` on, each with its text.
pub open spec fn tokens_from(cs: Seq<char>, p: int) -> Seq<(Token, Seq<char>)>
    decreases cs.len() - p,
{
    let q = skip_trivia(cs, p).0;
    match token_at(cs, q) {
        Some((t, e)) => if p < e <= cs.len() {
            seq![(t, cs.subrange(q, e))] + tokens_from(cs, e)
        } else {
            Seq::empty()
        },
        None => Seq::empty(),
    }
}

/// The tokens of a source text.
pub open spec fn tokenize(src: Seq<char>) -> Seq<(Token, Seq<char>)> {
    tokens_from(src, 0)
}

proof fn lemma_word_end(cs: Seq<char>, p: int)
    requires
        0 <= p <= cs.len(),
    ensures
        p <= word_end(cs, p) <= cs.len(),
    decreases cs.len() - p,
{
    if p < cs.len() && (is_alpha(cs[p]) || is_digit(cs[p])) {
        lemma_word_end(cs, p + 1);
    }
}

proof fn lemma_digits_end(cs: Seq<char>, p: int)
    requires
        0 <= p <= cs.len(),
    ensures
        p <= digits_end(cs, p) <= cs.len(),
        forall|j: int| p <= j < digits_end(cs, p) ==> is_digit(#[trigger] cs[j]),
    decreases cs.len() - p,
{
    if p < cs.len() && is_digit(cs[p]) {
        lemma_digits_end(cs, p + 1);
    }
}

proof fn lemma_find_char(cs: Seq<char>, p: int, c: char)
    requires
        0 <= p,
    ensures
        find_char(cs, p, c) matches Some(q) ==> p <= q < cs.len() && cs[q] == c,
    decreases cs.len() - p,
{
    if p < cs.len() && cs[p] != c {
        lemma_find_char(cs, p + 1, c);
    }
}

proof fn lemma_skip_trivia(cs: Seq<char>, p: int)
    requires
        0 <= p <= cs.len(),
    ensures
        p <= skip_trivia(cs, p).0 <= cs.len(),
    decreases cs.len() - p,
{
    if p < cs.len() {
        if is_blank(cs[p]) || cs[p] == '\n' {
            lemma_skip_trivia(cs, p + 1);
        } else if cs[p] == '/' && p + 1 < cs.len() && cs[p + 1] == '/' {
            lemma_find_char(cs, p + 2, '\n');
            match find_char(cs, p + 2, '\n') {
                Some(q) => lemma_skip_trivia(cs, q + 1),
                None => {},
            }
        }
    }
}

proof fn lemma_token_at(cs: Seq<char>, p: int)
    requires
        0 <= p <= cs.len(),
    ensures
        token_at(cs, p) matches Some((t, e)) ==> p < e <= cs.len(),
{
    if p < cs.len() {
        lemma_word_end(cs, p + 1);
        lemma_digits_end(cs, p + 1);
        lemma_find_char(cs, p + 1, '"');
    }
}

/// A stream of tokens over a source text with one token of lookahead.
pub struct Peekable {
    pub chars: Vec<char>,
    pub pos: usize,
    pub peeked: Option<Token>,
    pub peeked_slice: Option<String>,
    pub current: Option<Token>,
    pub current_slice: Option<String>,
    /// Set once a newline has been skipped.
    pub is_newline: bool,
}

impl Peekable {
    pub open spec fn source(&self) -> Seq<char> {
        self.chars@
    }

    pub open spec fn wf(&self) -> bool {
        &&& self.pos <= self.chars@.len()
        &&& (self.peeked is Some <==> self.peeked_slice is Some)
    }

    /// The tokens not yet taken by `next`, each with its text.
    pub open spec fn rest(&self) -> Seq<(Token, Seq<char>)> {
        match (self.peeked, self.peeked_slice) {
            (Some(t), Some(s)) => seq![(t, s@)] + tokens_from(self.chars@, self.pos as int),
            _ => tokens_from(self.chars@, self.pos as int),
        }
    }

    pub fn new(source: &str) -> (r: Peekable)
        ensures
            r.wf(),
            r.source() == source@,
            r.rest() == tokenize(source@),
            r.current is None,
            r.current_slice is None,
            !r.is_newline,
    {
        let n = source.unicode_len();
        let mut chars: Vec<char> = Vec::new();
        let mut i: usize = 0;
        while i < n
            invariant
                n == source@.len(),
                i <= n,
                chars@ == source@.subrange(0, i as int),
            decreases n - i,
        {
            chars.push(source.get_char(i));
            i = i + 1;
            assert(chars@ =~= source@.subrange(0, i as int));
        }
        assert(chars@ =~= source@);
        Peekable {
            chars,
            pos: 0,
            peeked: None,
            peeked_slice: None,
            current: None,
            current_slice: None,
            is_newline: false,
        }
    }

    fn word_end(&self, p: usize) -> (r: usize)
        requires
            p <= self.chars@.len(),
        ensures
            r as int == word_end(self.chars@, p as int),
    {
        let mut q = p;
        while q < self.chars.len() && (is_alpha_char(self.chars[q]) || is_digit_char(self.chars[q]))
            invariant
                p <= q <= self.chars@.len(),
                word_end(self.chars@, p as int) == word_end(self.chars@, q as int),
            decreases self.chars@.len() - q,
        {
            q = q + 1;
        }
        q
    }

    fn digits_end(&self, p: usize) -> (r: usize)
        requires
            p <= self.chars@.len(),
        ensures
            r as int == digits_end(self.chars@, p as int),
    {
        let mut q = p;
        while q < self.chars.len() && is_digit_char(self.chars[q])
            invariant
                p <= q <= self.chars@.len(),
                digits_end(self.chars@, p as int) == digits_end(self.chars@, q as int),
            decreases self.chars@.len() - q,
        {
            q = q + 1;
        }
        q
    }

    fn find_char(&self, p: usize, c: char) -> (r: Option<usize>)
        requires
            p <= self.chars@.len(),
        ensures
            r matches Some(q) ==> find_char(self.chars@, p as int, c) == Some(q as int),
            r is None ==> find_char(self.chars@, p as int, c) is None,
    {
        let mut q = p;
        while q < self.chars.len()
            invariant
                p <= q <= self.chars@.len(),
                find_char(self.chars@, p as int, c) == find_char(self.chars@, q as int, c),
            decreases self.chars@.len() - q,
        {
            if self.chars[q] == c {
                return Some(q);
            }
            q = q + 1;
        }
        None
    }

    fn skip_trivia(&self, p: usize) -> (r: (usize, bool))
        requires
            p <= self.chars@.len(),
        ensures
            (r.0 as int, r.1) == skip_trivia(self.chars@, p as int),
    {
        let len = self.chars.len();
        let mut q = p;
        let mut newline = false;
        while q < len
            invariant
                len == self.chars@.len(),
                p <= q <= len,
                skip_trivia(self.chars@, p as int) == (skip_trivia(self.chars@, q as int).0,
                    newline || skip_trivia(self.chars@, q as int).1),
            decreases len - q,
        {
            let c = self.chars[q];
            if c == ' ' || c == '\t' || c == '\x0C' {
                q = q + 1;
            } else if c == '\n' {
                newline = true;
                q = q + 1;
            } else if c == '/' && q + 1 < len && self.chars[q + 1] == '/' {
                proof { lemma_find_char(self.chars@, q + 2, '\n'); }
                match self.find_char(q + 2, '\n') {
                    Some(e) => {
                        newline = true;
                        q = e + 1;
                    },
                    None => {
                        return (len, newline);
                    },
                }
            } else {
                return (q, newline);
            }
        }
        (q, newline)
    }

    fn token_at(&self, p: usize) -> (r: Option<(Token, usize)>)
        requires
            p <= self.chars@.len(),
        ensures
            r matches Some((t, e)) ==> token_at(self.chars@, p as int) == Some((t, e as int)),
            r is None ==> token_at(self.chars@, p as int) is None,
    {
        let len = self.chars.len();
        if p >= len {
            return None;
        }
        let c = self.chars[p];
        if is_alpha_char(c) {
            proof { lemma_word_end(self.chars@, p + 1); }
            let e = self.word_end(p + 1);
            let word = self.text(p, e);
            Some((keyword(&word), e))
        } else if is_digit_char(c) {
            proof { lemma_digits_end(self.chars@, p + 1); }
            Some((Token::Number, self.digits_end(p + 1)))
        } else if c == '"' {
            proof { lemma_find_char(self.chars@, p + 1, '"'); }
            match self.find_char(p + 1, '"') {
                Some(q) => Some((Token::String, q + 1)),
                None => None,
            }
        } else {
            let n = if p + 1 < len { Some(self.chars[p + 1]) } else { None };
            match punct_token(c, n) {
                Some((t, w)) => Some((t, p + w)),
                None => None,
            }
        }
    }

    /// The characters from `a` to `b` as a string.
    fn text(&self, a: usize, b: usize) -> (r: String)
        requires
            a <= b <= self.chars@.len(),
        ensures
            r@ == self.chars@.subrange(a as int, b as int),
    {
        let mut s = String::new();
        let mut i = a;
        while i < b
            invariant
                a <= i <= b,
                b <= self.chars@.len(),
                s@ == self.chars@.subrange(a as int, i as int),
            decreases b - i,
        {
            push_char(&mut s, self.chars[i]);
            i = i + 1;
            assert(s@ =~= self.chars@.subrange(a as int, i as int));
        }
        s
    }

    /// The next token, without taking it.
    pub fn peek(&mut self) -> (r: Option<Token>)
        requires
            old(self).wf(),
        ensures
            final(self).wf(),
            final(self).rest() == old(self).rest(),
            final(self).source() == old(self).source(),
            final(self).current == old(self).current,
            final(self).current_slice == old(self).current_slice,
            r == (if old(self).rest().len() > 0 { Some(old(self).rest()[0].0) } else { None }),
            r is Some ==> final(self).peeked == r,
    {
        if self.peeked.is_none() {
            let ghost cs = self.chars@;
            proof { lemma_skip_trivia(cs, self.pos as int); }
            let (q, newline) = self.skip_trivia(self.pos);
            if newline {
                self.is_newline = true;
            }
            proof { lemma_token_at(cs, q as int); }
            match self.token_at(q) {
                Some((t, e)) => {
                    let slice = self.text(q, e);
                    self.peeked = Some(t);
                    self.peeked_slice = Some(slice);
                    self.pos = e;
                },
                None => {},
            }
        }
        self.peeked
    }

    /// Takes the next token; its text becomes `current_slice`.
    pub fn next(&mut self) -> (r: Option<Token>)
        requires
            old(self).wf(),
        ensures
            final(self).wf(),
            final(self).source() == old(self).source(),
            final(self).peeked is None,
            old(self).rest().len() > 0 ==> {
                &&& r == Some(old(self).rest()[0].0)
                &&& final(self).rest() == old(self).rest().drop_first()
                &&& final(self).current == r
                &&& final(self).current_slice matches Some(s) && s@ == old(self).rest()[0].1
            },
            old(self).rest().len() == 0 ==> r is None && final(self).rest() == old(self).rest(),
    {
        self.peek();
        match self.peeked.take() {
            Some(token) => {
                self.current = Some(token);
                self.current_slice = self.peeked_slice.take();
                assert(self.rest() =~= old(self).rest().drop_first());
                Some(token)
            },
            None => None,
        }
    }
}

fn is_alpha_char(c: char) -> (r: bool)
    ensures
        r == is_alpha(c),
{
    let u = c as u32;
    (65 <= u && u <= 90) || (97 <= u && u <= 122)
}

fn is_digit_char(c: char) -> (r: bool)
    ensures
        r == is_digit(c),
{
    let u = c as u32;
    48 <= u && u <= 57
}

fn keyword(w: &String) -> (t: Token)
    ensures
        t == keyword_of(w@),
{
    if w.eq(&String::from_str("let")) { Token::Let }
    else if w.eq(&String::from_str("fn")) { Token::Function }
    else if w.eq(&String::from_str("return")) { Token::Return }
    else if w.eq(&String::from_str("if")) { Token::If }
    else if w.eq(&String::from_str("else")) { Token::Else }
    else if w.eq(&String::from_str("for")) { Token::For }
    else if w.eq(&String::from_str("in")) { Token::In }
    else if w.eq(&String::from_str("switch")) { Token::Switch }
    else if w.eq(&String::from_str("case")) { Token::Case }
    else if w.eq(&String::from_str("default")) { Token::Default }
    else if w.eq(&String::from_str("true")) { Token::True }
    else if w.eq(&String::from_str("false")) { Token::False }
    else if w.eq(&String::from_str("watch")) { Token::Watch }
    else { Token::Identifier }
}

fn punct_token(c: char, n: Option<char>) -> (r: Option<(Token, usize)>)
    ensures
        r matches Some((t, w)) ==> punct(c, n) == Some((t, w as int)) && 1 <= w <= 2,
        r is None ==> punct(c, n) is None,
{
    if c == '=' {
        if n == Some('=') { Some((Token::Equal, 2)) } else { Some((Token::Assign, 1)) }
    } else if c == '!' {
        if n == Some('=') { Some((Token::NotEqual, 2)) } else { Some((Token::Bang, 1)) }
    } else if c == '<' {
        if n == Some('=') { Some((Token::LessThanOrEqual, 2)) } else { Some((Token::LessThan, 1)) }
    } else if c == '>' {
        if n == Some('=') { Some((Token::GreaterThanOrEqual, 2)) } else { Some((Token::GreaterThan, 1)) }
    } else if c == '&' {
        if n == Some('&') { Some((Token::And, 2)) } else { None }
    } else if c == '|' {
        if n == Some('|') { Some((Token::Or, 2)) } else { None }
    } else if c == '+' { Some((Token::Plus, 1)) }
    else if c == '-' { Some((Token::Minus, 1)) }
    else if c == '*' { Some((Token::Asterisk, 1)) }
    else if c == '/' { Some((Token::Slash, 1)) }
    else if c == '%' { Some((Token::Percent, 1)) }
    else if c == '(' { Some((Token::LParen, 1)) }
    else if c == ')' { Some((Token::RParen, 1)) }
    else if c == '{' { Some((Token::LBrace, 1)) }
    else if c == '}' { Some((Token::RBrace, 1)) }
    else if c == '[' { Some((Token::LBracket, 1)) }
    else if c == ']' { Some((Token::RBracket, 1)) }
    else if c == ';' { Some((Token::Semicolon, 1)) }
    else if c == ':' { Some((Token::Colon, 1)) }
    else if c == ',' { Some((Token::Comma, 1)) }
    else { None }
}

} // verus!
