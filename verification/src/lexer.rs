//! The lexer: turns program text into a stream of tokens. Its behaviour
//! is specified by `spec_next` over the view of the input string.

use vstd::prelude::*;

verus! {

/// A lexical token. The text-carrying variants hold the characters they
/// were read from.
#[derive(Debug, Clone, PartialEq, Eq)]
pub enum Tok {
    Whitespace,
    LeftParen,
    RightParen,
    Quote,
    Symbol(String),
    Str(String),
    Num(String),
    HashSymbol(String),
}

/// Mathematical model of a token.
#[verifier::ext_equal]
pub enum TokV {
    Whitespace,
    LeftParen,
    RightParen,
    Quote,
    Symbol(Seq<char>),
    Str(Seq<char>),
    Num(Seq<char>),
    HashSymbol(Seq<char>),
}

impl View for Tok {
    type V = TokV;

    open spec fn view(&self) -> TokV {
        match self {
            Tok::Whitespace => TokV::Whitespace,
            Tok::LeftParen => TokV::LeftParen,
            Tok::RightParen => TokV::RightParen,
            Tok::Quote => TokV::Quote,
            Tok::Symbol(s) => TokV::Symbol(s@),
            Tok::Str(s) => TokV::Str(s@),
            Tok::Num(s) => TokV::Num(s@),
            Tok::HashSymbol(s) => TokV::HashSymbol(s@),
        }
    }
}

/// No input can fail to lex: every character falls in some class, so this
/// error is never produced.
#[derive(Debug, PartialEq, Eq)]
pub enum LexicalError {
    Never,
}

pub open spec fn wsp_char(c: char) -> bool {
    c == ' ' || c == '\n' || c == '\t' || c == '\r'
}

pub open spec fn left_paren_char(c: char) -> bool {
    c == '(' || c == '[' || c == '{'
}

pub open spec fn right_paren_char(c: char) -> bool {
    c == ')' || c == ']' || c == '}'
}

pub open spec fn quote_char(c: char) -> bool {
    c == '\''
}

pub open spec fn string_quote_char(c: char) -> bool {
    c == '"'
}

pub open spec fn hash_char(c: char) -> bool {
    c == '#'
}

pub open spec fn digit_char(c: char) -> bool {
    '0' <= c && c <= '9'
}

/// A symbol may contain any character that is not whitespace, a quote
/// mark, a string quote, or one of the two round parentheses.
pub open spec fn symbol_char(c: char) -> bool {
    !wsp_char(c) && !quote_char(c) && !string_quote_char(c) && c != '(' && c != ')'
}

/// First index at or after `i` whose character fails `p` (or the end).
pub open spec fn scan_while(s: Seq<char>, i: int, p: spec_fn(char) -> bool) -> int
    decreases s.len() - i,
{
    if i < 0 || i >= s.len() || !p(s[i]) {
        i
    } else {
        scan_while(s, i + 1, p)
    }
}

pub proof fn lemma_scan_while_bounds(s: Seq<char>, i: int, p: spec_fn(char) -> bool)
    requires
        0 <= i <= s.len(),
    ensures
        i <= scan_while(s, i, p) <= s.len(),
        forall|j: int| i <= j < scan_while(s, i, p) ==> p(s[j]),
        scan_while(s, i, p) < s.len() ==> !p(s[scan_while(s, i, p)]),
    decreases s.len() - i,
{
    if i < s.len() && p(s[i]) {
        lemma_scan_while_bounds(s, i + 1, p);
    }
}

/// What the lexer finds from position `pos`: the next token with its span,
/// or `None` at the end of input (or after an unterminated string, whose
/// partial token is dropped), together with the next cursor position.
pub open spec fn spec_next(s: Seq<char>, pos: int) -> (Option<(int, TokV, int)>, int) {
    let i = scan_while(s, pos, |c: char| wsp_char(c));
    if i >= s.len() {
        (None, s.len() as int)
    } else {
        let c = s[i];
        if left_paren_char(c) {
            (Some((i, TokV::LeftParen, i + 1)), i + 1)
        } else if right_paren_char(c) {
            (Some((i, TokV::RightParen, i + 1)), i + 1)
        } else if quote_char(c) {
            (Some((i, TokV::Quote, i + 1)), i + 1)
        } else if string_quote_char(c) {
            let e = scan_while(s, i + 1, |ch: char| !string_quote_char(ch));
            if e >= s.len() {
                (None, s.len() as int)
            } else {
                (Some((i + 1, TokV::Str(s.subrange(i + 1, e)), e)), e + 1)
            }
        } else if digit_char(c) {
            let e = scan_while(s, i, |ch: char| digit_char(ch));
            (Some((i, TokV::Num(s.subrange(i, e)), e)), e)
        } else if hash_char(c) {
            let e = scan_while(s, i, |ch: char| symbol_char(ch));
            (Some((i, TokV::HashSymbol(s.subrange(i, e)), e)), e)
        } else {
            let e = scan_while(s, i, |ch: char| symbol_char(ch));
            (Some((i, TokV::Symbol(s.subrange(i, e)), e)), e)
        }
    }
}

/// The lexer always advances: a token moves the cursor strictly
/// forward, and a `None` leaves it at the end of the input.
pub proof fn lemma_spec_next_advances(s: Seq<char>, pos: int)
    requires
        0 <= pos <= s.len(),
    ensures
        ({
            let (ot, np) = spec_next(s, pos);
            &&& pos <= np <= s.len()
            &&& (ot is Some ==> np > pos)
            &&& (ot is None ==> np == s.len())
            &&& (ot matches Some((a, t, b)) ==> 0 <= a <= b <= s.len())
        }),
{
    lemma_scan_while_bounds(s, pos, |c: char| wsp_char(c));
    let i = scan_while(s, pos, |c: char| wsp_char(c));
    if i < s.len() {
        let c = s[i];
        lemma_scan_while_bounds(s, i + 1, |ch: char| !string_quote_char(ch));
        lemma_scan_while_bounds(s, i, |ch: char| digit_char(ch));
        lemma_scan_while_bounds(s, i, |ch: char| symbol_char(ch));
        if digit_char(c) {
            assert(scan_while(s, i, |ch: char| digit_char(ch)) == scan_while(
                s,
                i + 1,
                |ch: char| digit_char(ch),
            ));
            lemma_scan_while_bounds(s, i + 1, |ch: char| digit_char(ch));
        }
        if symbol_char(c) {
            assert(scan_while(s, i, |ch: char| symbol_char(ch)) == scan_while(
                s,
                i + 1,
                |ch: char| symbol_char(ch),
            ));
            lemma_scan_while_bounds(s, i + 1, |ch: char| symbol_char(ch));
        }
    }
}

#[via_fn]
proof fn check_tokens_decreases(s: Seq<char>, pos: int) {
    if 0 <= pos <= s.len() {
        lemma_spec_next_advances(s, pos);
    }
}

/// The whole token stream from position `pos` on.
pub open spec fn spec_tokens_from(s: Seq<char>, pos: int) -> Seq<TokV>
    decreases s.len() - pos,
    via check_tokens_decreases
{
    if pos < 0 || pos > s.len() {
        Seq::empty()
    } else {
        let (ot, np) = spec_next(s, pos);
        match ot {
            None => Seq::empty(),
            Some((a, t, b)) => seq![t] + spec_tokens_from(s, np),
        }
    }
}

/// The model of a token list, element by element.
pub open spec fn toks_view(s: Seq<Tok>) -> Seq<TokV> {
    Seq::new(s.len(), |i: int| s[i]@)
}

/// All tokens of the input, in order.
pub fn tokenize(input: &str) -> (r: Vec<Tok>)
    ensures
        toks_view(r@) == spec_tokens_from(input@, 0),
{
    let mut lx = Lexer::new(input);
    let mut out: Vec<Tok> = Vec::new();
    loop
        invariant
            lx.wf(),
            lx.spec_input() == input@,
            toks_view(out@) + spec_tokens_from(input@, lx.spec_pos()) == spec_tokens_from(
                input@,
                0,
            ),
        decreases input@.len() - lx.spec_pos(),
    {
        let ghost pos0 = lx.spec_pos();
        proof {
            lemma_spec_next_advances(input@, pos0);
        }
        match lx.next() {
            None => {
                proof {
                    assert(toks_view(out@) + spec_tokens_from(input@, pos0) =~= toks_view(out@));
                }
                return out;
            },
            Some(Ok((a, t, b))) => {
                proof {
                    let (ot, np) = spec_next(input@, pos0);
                    assert(toks_view(out@.push(t)) =~= toks_view(out@) + seq![t@]);
                    assert(toks_view(out@) + (seq![t@] + spec_tokens_from(input@, np))
                        =~= (toks_view(out@) + seq![t@]) + spec_tokens_from(input@, np));
                }
                out.push(t);
            },
            Some(Err(e)) => {
                proof {
                    assert(false);
                }
                return out;
            },
        }
    }
}

/// A cursor over the input text.
pub struct Lexer<'a> {
    input: &'a str,
    pos: usize,
}

impl<'a> Lexer<'a> {
    pub closed spec fn wf(&self) -> bool {
        0 <= self.pos <= self.input@.len()
    }

    pub closed spec fn spec_input(&self) -> Seq<char> {
        self.input@
    }

    pub closed spec fn spec_pos(&self) -> int {
        self.pos as int
    }

    pub fn new(input: &'a str) -> (r: Lexer<'a>)
        ensures
            r.wf(),
            r.spec_input() == input@,
            r.spec_pos() == 0,
    {
        Lexer { input, pos: 0 }
    }

    pub fn is_symbol_char(ch: char) -> (r: bool)
        ensures
            r == symbol_char(ch),
    {
        !Self::is_whitespace(ch) && !Self::is_quote(ch) && !Self::is_string_quote(ch) && ch != '('
            && ch != ')'
    }

    pub fn is_decimal_digit(ch: char) -> (r: bool)
        ensures
            r == digit_char(ch),
    {
        '0' <= ch && ch <= '9'
    }

    pub fn is_string_quote(ch: char) -> (r: bool)
        ensures
            r == string_quote_char(ch),
    {
        '"' == ch
    }

    pub fn is_quote(ch: char) -> (r: bool)
        ensures
            r == quote_char(ch),
    {
        '\'' == ch
    }

    pub fn is_hash_char(ch: char) -> (r: bool)
        ensures
            r == hash_char(ch),
    {
        '#' == ch
    }

    pub fn is_whitespace(ch: char) -> (r: bool)
        ensures
            r == wsp_char(ch),
    {
        ch == ' ' || ch == '\n' || ch == '\t' || ch == '\r'
    }

    pub fn is_left_paren(ch: char) -> (r: bool)
        ensures
            r == left_paren_char(ch),
    {
        ch == '(' || ch == '[' || ch == '{'
    }

    pub fn is_right_paren(ch: char) -> (r: bool)
        ensures
            r == right_paren_char(ch),
    {
        ch == ')' || ch == ']' || ch == '}'
    }

    /// Advances the cursor past characters satisfying the scanned class,
    /// mirroring `scan_while` for the whitespace class.
    fn skip_whitespace(&mut self)
        requires
            old(self).wf(),
        ensures
            final(self).wf(),
            final(self).input == old(self).input,
            final(self).spec_pos() == scan_while(
                old(self).spec_input(),
                old(self).spec_pos(),
                |c: char| wsp_char(c),
            ),
    {
        loop
            invariant
                self.wf(),
                self.input == old(self).input,
                scan_while(old(self).spec_input(), old(self).spec_pos(), |c: char| wsp_char(c))
                    == scan_while(self.spec_input(), self.spec_pos(), |c: char| wsp_char(c)),
            decreases self.input@.len() - self.pos,
        {
            if self.pos >= self.input.unicode_len() {
                return ;
            }
            let c = self.input.get_char(self.pos);
            if !Self::is_whitespace(c) {
                return ;
            }
            self.pos = self.pos + 1;
        }
    }

    /// End of the run of symbol characters starting at `i`.
    fn scan_symbol_end(&self, i: usize) -> (e: usize)
        requires
            self.wf(),
            i <= self.input@.len(),
        ensures
            e == scan_while(self.spec_input(), i as int, |ch: char| symbol_char(ch)),
            i <= e <= self.input@.len(),
    {
        proof {
            lemma_scan_while_bounds(self.spec_input(), i as int, |ch: char| symbol_char(ch));
        }
        let mut j: usize = i;
        loop
            invariant
                self.wf(),
                i <= j <= self.input@.len(),
                scan_while(self.spec_input(), i as int, |ch: char| symbol_char(ch)) == scan_while(
                    self.spec_input(),
                    j as int,
                    |ch: char| symbol_char(ch),
                ),
            decreases self.input@.len() - j,
        {
            if j >= self.input.unicode_len() {
                return j;
            }
            let c = self.input.get_char(j);
            if !Self::is_symbol_char(c) {
                return j;
            }
            j = j + 1;
        }
    }

    /// End of the run of decimal digits starting at `i`.
    fn scan_num_end(&self, i: usize) -> (e: usize)
        requires
            self.wf(),
            i <= self.input@.len(),
        ensures
            e == scan_while(self.spec_input(), i as int, |ch: char| digit_char(ch)),
            i <= e <= self.input@.len(),
    {
        proof {
            lemma_scan_while_bounds(self.spec_input(), i as int, |ch: char| digit_char(ch));
        }
        let mut j: usize = i;
        loop
            invariant
                self.wf(),
                i <= j <= self.input@.len(),
                scan_while(self.spec_input(), i as int, |ch: char| digit_char(ch)) == scan_while(
                    self.spec_input(),
                    j as int,
                    |ch: char| digit_char(ch),
                ),
            decreases self.input@.len() - j,
        {
            if j >= self.input.unicode_len() {
                return j;
            }
            let c = self.input.get_char(j);
            if !Self::is_decimal_digit(c) {
                return j;
            }
            j = j + 1;
        }
    }

    /// First string quote at or after `i` (or the end of input).
    fn scan_string_end(&self, i: usize) -> (e: usize)
        requires
            self.wf(),
            i <= self.input@.len(),
        ensures
            e == scan_while(self.spec_input(), i as int, |ch: char| !string_quote_char(ch)),
            i <= e <= self.input@.len(),
    {
        proof {
            lemma_scan_while_bounds(
                self.spec_input(),
                i as int,
                |ch: char| !string_quote_char(ch),
            );
        }
        let mut j: usize = i;
        loop
            invariant
                self.wf(),
                i <= j <= self.input@.len(),
                scan_while(self.spec_input(), i as int, |ch: char| !string_quote_char(ch))
                    == scan_while(self.spec_input(), j as int, |ch: char| !string_quote_char(ch)),
            decreases self.input@.len() - j,
        {
            if j >= self.input.unicode_len() {
                return j;
            }
            let c = self.input.get_char(j);
            if Self::is_string_quote(c) {
                return j;
            }
            j = j + 1;
        }
    }

    /// The next token, as `spec_next` describes it. `Err` is never
    /// produced: no character fails to fall in a token class.
    pub fn next(&mut self) -> (r: Option<Result<(usize, Tok, usize), LexicalError>>)
        requires
            old(self).wf(),
        ensures
            final(self).wf(),
            final(self).spec_input() == old(self).spec_input(),
            ({
                let (ot, np) = spec_next(old(self).spec_input(), old(self).spec_pos());
                &&& final(self).spec_pos() == np
                &&& (match r {
                    None => ot is None,
                    Some(Ok((a, t, b))) => ot == Some((a as int, t@, b as int)),
                    Some(Err(_)) => false,
                })
            }),
    {
        self.skip_whitespace();
        let len = self.input.unicode_len();
        if self.pos >= len {
            self.pos = len;
            return None;
        }
        let i = self.pos;
        let c = self.input.get_char(i);
        if Self::is_left_paren(c) {
            self.pos = i + 1;
            Some(Ok((i, Tok::LeftParen, i + 1)))
        } else if Self::is_right_paren(c) {
            self.pos = i + 1;
            Some(Ok((i, Tok::RightParen, i + 1)))
        } else if Self::is_quote(c) {
            self.pos = i + 1;
            Some(Ok((i, Tok::Quote, i + 1)))
        } else if Self::is_string_quote(c) {
            let e = self.scan_string_end(i + 1);
            if e >= len {
                self.pos = len;
                return None;
            }
            self.pos = e + 1;
            let text = self.input.substring_char(i + 1, e).to_owned();
            Some(Ok((i + 1, Tok::Str(text), e)))
        } else if Self::is_decimal_digit(c) {
            let e = self.scan_num_end(i);
            self.pos = e;
            let text = self.input.substring_char(i, e).to_owned();
            Some(Ok((i, Tok::Num(text), e)))
        } else if Self::is_hash_char(c) {
            let e = self.scan_symbol_end(i);
            self.pos = e;
            let text = self.input.substring_char(i, e).to_owned();
            Some(Ok((i, Tok::HashSymbol(text), e)))
        } else {
            let e = self.scan_symbol_end(i);
            self.pos = e;
            let text = self.input.substring_char(i, e).to_owned();
            Some(Ok((i, Tok::Symbol(text), e)))
        }
    }
}

} // verus!
