//! Roto's lexer: it splits source text into tokens with exact byte spans.

use crate::syntax::meta::lemma_prefix_boundary;
use crate::syntax::scan::{
    colon_count, comment_end, continuation_end, digits_end, hashes_end, hex_end, ident_end, ipv6_scan,
    keyword_from, keyword_seq, lemma_run_end, number_scan, of_kind, punct_from, punct_seq, quote_end,
    regex_close, regex_scan, scanned, suffix_end, text_len, v6_end, word_scan, fpart_end,
};
use crate::syntax::token::{token_chars, FStringToken, Keyword, Token};
use std::ops::Range;
use vstd::prelude::*;
use vstd::string::*;
use vstd::utf8::*;

verus! {

/// Whether `b` is skipped as whitespace between tokens.
pub open spec fn is_space(b: u8) -> bool {
    b == 32 || b == 9 || b == 10 || b == 13 || b == 12
}

/// Whether `b` can start an identifier.
pub open spec fn is_ident_start(b: u8) -> bool {
    (65 <= b <= 90) || (97 <= b <= 122) || b == 95
}

/// Whether `b` can continue an identifier.
pub open spec fn is_ident_continue(b: u8) -> bool {
    is_ident_start(b) || is_digit(b)
}

pub open spec fn is_digit(b: u8) -> bool {
    48 <= b <= 57
}

pub open spec fn is_hex_digit(b: u8) -> bool {
    is_digit(b) || (65 <= b <= 70) || (97 <= b <= 102)
}

/// The first position at or after `i` that holds a newline, or the end.
pub open spec fn line_end(bytes: Seq<u8>, i: int) -> int
    decreases bytes.len() - i,
{
    if i >= bytes.len() {
        bytes.len() as int
    } else if bytes[i] == 10 {
        i
    } else {
        line_end(bytes, i + 1)
    }
}

/// The position at which the next token starts when lexing from `i`:
/// whitespace and `//` line comments are skipped.
pub open spec fn trivia_end(bytes: Seq<u8>, i: int) -> int
    decreases bytes.len() - i,
{
    if i < 0 || i >= bytes.len() {
        i
    } else if is_space(bytes[i]) {
        trivia_end(bytes, i + 1)
    } else if bytes[i] == 47 && i + 1 < bytes.len() && bytes[i + 1] == 47 {
        proof {
            lemma_line_end_bounds(bytes, i + 2);
        }
        trivia_end(bytes, line_end(bytes, i + 2))
    } else {
        i
    }
}

pub proof fn lemma_line_end_bounds(bytes: Seq<u8>, i: int)
    requires
        0 <= i,
    ensures
        i <= line_end(bytes, i) || i > bytes.len(),
        line_end(bytes, i) <= bytes.len(),
        i <= bytes.len() ==> i <= line_end(bytes, i),
        line_end(bytes, i) < bytes.len() ==> bytes[line_end(bytes, i)] == 10,
    decreases bytes.len() - i,
{
    if i < bytes.len() && bytes[i] != 10 {
        lemma_line_end_bounds(bytes, i + 1);
    }
}

/// Whether an f-string whose text continues at `i` is left unclosed: no
/// unescaped `"` ends it and no `{` interrupts it before the end.
pub open spec fn fstring_unclosed(bytes: Seq<u8>, i: int) -> bool {
    fpart_end(bytes, i) is None
}

/// Whether `t` is the token for the source bytes `text`.
///
/// Every token but a block comment displays as exactly its source text; a
/// block comment carries its source text.
pub open spec fn token_matches(t: Token, text: Seq<u8>) -> bool {
    match t {
        Token::BlockComment(s) => s.spec_bytes() == text,
        _ => encode_utf8(token_chars(t)) == text,
    }
}

/// A byte that follows an ASCII byte in valid UTF-8 starts a character.
pub proof fn lemma_after_ascii(bytes: Seq<u8>, q: int)
    requires
        valid_utf8(bytes),
        0 < q <= bytes.len(),
        bytes[q - 1] < 0x80,
    ensures
        is_char_boundary(bytes, q),
    decreases bytes.len(),
{
    if q == bytes.len() {
        is_char_boundary_start_end_of_seq(bytes);
    } else {
        lemma_not_continuation_after_ascii(bytes, q);
        is_char_boundary_iff_not_is_continuation_byte(bytes, q);
    }
}

proof fn lemma_not_continuation_after_ascii(bytes: Seq<u8>, q: int)
    requires
        valid_utf8(bytes),
        0 < q < bytes.len(),
        bytes[q - 1] < 0x80,
    ensures
        !is_continuation_byte(bytes[q]),
    decreases bytes.len(),
{
    reveal_with_fuel(valid_utf8, 2);
    let w = length_of_first_scalar(bytes);
    let tail = pop_first_scalar(bytes);
    if q - 1 < w {
        assert(q - 1 == 0);
        assert(w == 1);
        assert(tail[0] == bytes[q]);
    } else {
        assert(tail[q - w - 1] == bytes[q - 1]);
        assert(tail[q - w] == bytes[q]);
        lemma_not_continuation_after_ascii(tail, q - w);
    }
}

/// A position holding an ASCII byte starts a character.
pub proof fn lemma_at_ascii(bytes: Seq<u8>, q: int)
    requires
        valid_utf8(bytes),
        0 <= q < bytes.len(),
        bytes[q] < 0x80,
    ensures
        is_char_boundary(bytes, q),
{
    is_char_boundary_iff_not_is_continuation_byte(bytes, q);
}

fn ident_start_byte(b: u8) -> (res: bool)
    ensures
        res == is_ident_start(b),
{
    (65 <= b && b <= 90) || (97 <= b && b <= 122) || b == 95
}

fn ident_continue_byte(b: u8) -> (res: bool)
    ensures
        res == is_ident_continue(b),
{
    ident_start_byte(b) || digit_byte(b)
}

fn digit_byte(b: u8) -> (res: bool)
    ensures
        res == is_digit(b),
{
    48 <= b && b <= 57
}

fn hex_digit_byte(b: u8) -> (res: bool)
    ensures
        res == is_hex_digit(b),
{
    digit_byte(b) || (65 <= b && b <= 70) || (97 <= b && b <= 102)
}

/// The part of `s` between the byte offsets `a` and `b`.
pub fn substr<'a>(s: &'a str, a: usize, b: usize) -> (res: &'a str)
    requires
        a <= b <= s.spec_bytes().len(),
        is_char_boundary(s.spec_bytes(), a as int),
        is_char_boundary(s.spec_bytes(), b as int),
    ensures
        res.spec_bytes() == s.spec_bytes().subrange(a as int, b as int),
{
    proof {
        encode_utf8_valid_utf8(s@);
        lemma_prefix_boundary(s.spec_bytes(), b as int, a as int);
    }
    let (pre, _) = s.split_at(b);
    let (_, mid) = pre.split_at(a);
    proof {
        assert(mid.spec_bytes() =~= s.spec_bytes().subrange(a as int, b as int));
    }
    mid
}

/// UTF-8 encoding distributes over concatenation.
pub proof fn lemma_encode_concat(a: Seq<char>, b: Seq<char>)
    ensures
        encode_utf8(a + b) == encode_utf8(a) + encode_utf8(b),
    decreases a.len(),
{
    if a.len() > 0 {
        assert((a + b)[0] == a[0]);
        assert((a + b).drop_first() =~= a.drop_first() + b);
        lemma_encode_concat(a.drop_first(), b);
        assert(encode_utf8(a + b) =~= encode_utf8(a) + encode_utf8(b));
    } else {
        assert(a + b =~= b);
        assert(encode_utf8(a) =~= Seq::<u8>::empty());
        assert(encode_utf8(a) + encode_utf8(b) =~= encode_utf8(b));
    }
}

/// `tok` (or, for `None`, invalid input) was lexed from the bytes between
/// `start` and `end`, which ends at a character boundary.
pub open spec fn lexed(bytes: Seq<u8>, start: int, end: int, tok: Option<Token>) -> bool {
    &&& start < end <= bytes.len()
    &&& is_char_boundary(bytes, end)
    &&& (tok matches Some(t) ==> token_matches(t, bytes.subrange(start, end)))
}

/// The keywords of Roto.
fn all_keywords() -> (res: Vec<Keyword>)
    ensures
        res@ == keyword_seq(),
{
    let mut v: Vec<Keyword> = Vec::new();
    v.push(Keyword::Accept);
    v.push(Keyword::Const);
    v.push(Keyword::Dep);
    v.push(Keyword::Else);
    v.push(Keyword::Enum);
    v.push(Keyword::Filter);
    v.push(Keyword::FilterMap);
    v.push(Keyword::For);
    v.push(Keyword::Fn);
    v.push(Keyword::If);
    v.push(Keyword::Import);
    v.push(Keyword::In);
    v.push(Keyword::Let);
    v.push(Keyword::Match);
    v.push(Keyword::Pkg);
    v.push(Keyword::Record);
    v.push(Keyword::Reject);
    v.push(Keyword::Return);
    v.push(Keyword::Std);
    v.push(Keyword::Super);
    v.push(Keyword::Test);
    v.push(Keyword::While);
    assert(v@ =~= keyword_seq());
    v
}

/// The punctuation and delimiter tokens, the longer spellings first.
fn punctuation<'a>() -> (res: Vec<Token<'a>>)
    ensures
        forall|i: int| 0 <= i < res@.len() ==> !(#[trigger] res@[i] is BlockComment),
        res@ == punct_seq(),
{
    let mut v: Vec<Token<'a>> = Vec::new();
    v.push(Token::AmpAmp);
    v.push(Token::AngleLeftEq);
    v.push(Token::AngleRightEq);
    v.push(Token::Arrow);
    v.push(Token::BangEq);
    v.push(Token::EqEq);
    v.push(Token::FatArrow);
    v.push(Token::HyphenHyphen);
    v.push(Token::PipePipe);
    v.push(Token::PlusEq);
    v.push(Token::MinusEq);
    v.push(Token::StarEq);
    v.push(Token::SlashEq);
    v.push(Token::PercentEq);
    v.push(Token::Bang);
    v.push(Token::Colon);
    v.push(Token::Comma);
    v.push(Token::Eq);
    v.push(Token::Hash);
    v.push(Token::Hyphen);
    v.push(Token::Period);
    v.push(Token::Pipe);
    v.push(Token::Plus);
    v.push(Token::QuestionMark);
    v.push(Token::SemiColon);
    v.push(Token::Slash);
    v.push(Token::Star);
    v.push(Token::Percent);
    v.push(Token::AngleLeft);
    v.push(Token::AngleRight);
    v.push(Token::CurlyLeft);
    v.push(Token::CurlyRight);
    v.push(Token::RoundLeft);
    v.push(Token::RoundRight);
    v.push(Token::SquareLeft);
    v.push(Token::SquareRight);
    assert forall|i: int| 0 <= i < v@.len() implies !(#[trigger] v@[i] is BlockComment) by {
        assert(v@[i] != Token::BlockComment(v@[i]->BlockComment_0));
    }
    assert(v@ =~= punct_seq());
    v
}

/// The lexer over one source text.
pub struct Lexer<'s> {
    source: &'s str,
    pos: usize,
}

impl<'s> Lexer<'s> {
    /// The bytes of the source text.
    pub closed spec fn src_bytes(&self) -> Seq<u8> {
        self.source.spec_bytes()
    }

    /// The source text.
    pub closed spec fn src(&self) -> &'s str {
        self.source
    }

    /// The byte offset at which lexing continues.
    pub closed spec fn pos(&self) -> usize {
        self.pos
    }

    /// The number of bytes that are left to lex.
    pub open spec fn remaining(&self) -> int {
        self.src_bytes().len() - self.pos()
    }

    /// The lexer's invariant: it stands at a character boundary of valid
    /// UTF-8.
    pub open spec fn wf(&self) -> bool {
        &&& valid_utf8(self.src_bytes())
        &&& self.src_bytes().len() <= usize::MAX
        &&& self.pos() <= self.src_bytes().len()
        &&& is_char_boundary(self.src_bytes(), self.pos() as int)
    }

    /// Start lexing `source` from its beginning.
    pub fn new(source: &'s str) -> (res: Self)
        ensures
            res.wf(),
            res.src() == source,
            res.src_bytes() == source.spec_bytes(),
            res.pos() == 0,
    {
        proof {
            encode_utf8_valid_utf8(source@);
            is_char_boundary_start_end_of_seq(source.spec_bytes());
        }
        let _ = source.as_bytes().len();
        Lexer { source, pos: 0 }
    }

    fn len(&self) -> (res: usize)
        ensures
            res == self.src_bytes().len(),
    {
        self.source.as_bytes().len()
    }

    fn byte(&self, i: usize) -> (res: u8)
        requires
            i < self.src_bytes().len(),
        ensures
            res == self.src_bytes()[i as int],
    {
        self.source.as_bytes()[i]
    }

    /// Whether the source holds `text` at byte offset `p`.
    fn holds_at(&self, p: usize, text: &str) -> (res: bool)
        requires
            p <= self.src_bytes().len(),
        ensures
            res == (p + text.spec_bytes().len() <= self.src_bytes().len()
                && self.src_bytes().subrange(p as int, p + text.spec_bytes().len())
                == text.spec_bytes()),
    {
        let t = text.as_bytes();
        let n = self.len();
        if t.len() > n - p {
            return false;
        }
        let mut i: usize = 0;
        while i < t.len()
            invariant
                i <= t@.len(),
                t@ == text.spec_bytes(),
                p + t@.len() <= self.src_bytes().len(),
                n == self.src_bytes().len(),
                forall|j: int| 0 <= j < i ==> self.src_bytes()[p + j] == t@[j],
            decreases t@.len() - i,
        {
            if self.byte(p + i) != t[i] {
                assert(self.src_bytes().subrange(p as int, p + t@.len())[i as int] != t@[i as int]);
                return false;
            }
            i = i + 1;
        }
        assert(self.src_bytes().subrange(p as int, p + t@.len()) =~= t@);
        true
    }

    /// The position after the run of bytes from `i` on that satisfy the
    /// identifier-continue class.
    fn skip_ident_continue(&self, i: usize) -> (res: usize)
        requires
            i <= self.src_bytes().len(),
        ensures
            i <= res <= self.src_bytes().len(),
            forall|j: int| i <= j < res ==> is_ident_continue(#[trigger] self.src_bytes()[j]),
            res < self.src_bytes().len() ==> !is_ident_continue(self.src_bytes()[res as int]),
            res == ident_end(self.src_bytes(), i as int),
    {
        let n = self.len();
        let mut j = i;
        while j < n && ident_continue_byte(self.byte(j))
            invariant
                i <= j <= n,
                n == self.src_bytes().len(),
                forall|k: int| i <= k < j ==> is_ident_continue(#[trigger] self.src_bytes()[k]),
            decreases n - j,
        {
            j = j + 1;
        }
        proof {
            lemma_run_end(self.src_bytes(), i as int, j as int, |b: u8| is_ident_continue(b));
        }
        j
    }

    /// The position after the run of decimal digits from `i` on.
    fn skip_digits(&self, i: usize) -> (res: usize)
        requires
            i <= self.src_bytes().len(),
        ensures
            i <= res <= self.src_bytes().len(),
            forall|j: int| i <= j < res ==> is_digit(#[trigger] self.src_bytes()[j]),
            res < self.src_bytes().len() ==> !is_digit(self.src_bytes()[res as int]),
            res == digits_end(self.src_bytes(), i as int),
    {
        let n = self.len();
        let mut j = i;
        while j < n && digit_byte(self.byte(j))
            invariant
                i <= j <= n,
                n == self.src_bytes().len(),
                forall|k: int| i <= k < j ==> is_digit(#[trigger] self.src_bytes()[k]),
            decreases n - j,
        {
            j = j + 1;
        }
        proof {
            lemma_run_end(self.src_bytes(), i as int, j as int, |b: u8| is_digit(b));
        }
        j
    }

    /// Whether the source between `p` and `e` reads as the text of `tok`.
    fn reads_as(&self, p: usize, e: usize, tok: Token) -> (res: bool)
        requires
            p <= e <= self.src_bytes().len(),
        ensures
            res == (encode_utf8(token_chars(tok)) == self.src_bytes().subrange(p as int, e as int)),
    {
        let text = tok.to_string();
        let t = text.as_str();
        if t.as_bytes().len() == e - p && self.holds_at(p, t) {
            true
        } else {
            proof {
                if encode_utf8(token_chars(tok)) == self.src_bytes().subrange(p as int, e as int) {
                    assert(t.spec_bytes().len() == e - p);
                }
            }
            false
        }
    }

    /// Skip whitespace and line comments.
    fn skip_trivia(&mut self)
        requires
            old(self).wf(),
        ensures
            final(self).wf(),
            final(self).src() == old(self).src(),
            final(self).pos() == trivia_end(old(self).src_bytes(), old(self).pos() as int),
            final(self).pos() >= old(self).pos(),
    {
        let n = self.len();
        loop
            invariant
                self.wf(),
                self.src() == old(self).src(),
                n == self.src_bytes().len(),
                self.pos() >= old(self).pos(),
                trivia_end(self.src_bytes(), self.pos() as int) == trivia_end(
                    old(self).src_bytes(),
                    old(self).pos() as int,
                ),
            decreases n - self.pos,
        {
            if self.pos >= n {
                return;
            }
            let b = self.byte(self.pos);
            if b == 32 || b == 9 || b == 10 || b == 13 || b == 12 {
                proof {
                    lemma_after_ascii(self.src_bytes(), self.pos + 1);
                }
                self.pos = self.pos + 1;
            } else if b == 47 && self.pos + 1 < n && self.byte(self.pos + 1) == 47 {
                let mut j = self.pos + 2;
                while j < n && self.byte(j) != 10
                    invariant
                        self.pos + 2 <= j <= n,
                        n == self.src_bytes().len(),
                        line_end(self.src_bytes(), j as int) == line_end(self.src_bytes(), self.pos + 2),
                    decreases n - j,
                {
                    j = j + 1;
                }
                proof {
                    if j < n {
                        lemma_at_ascii(self.src_bytes(), j as int);
                    } else {
                        is_char_boundary_start_end_of_seq(self.src_bytes());
                    }
                }
                self.pos = j;
            } else {
                return;
            }
        }
    }
}

impl<'s> Lexer<'s> {
    /// A possibly nested block comment from `p` on.
    #[verifier::loop_isolation(false)]
    fn block_comment(&self, p: usize) -> (res: (Option<Token<'s>>, usize))
        requires
            self.wf(),
            p + 1 < self.src_bytes().len(),
            is_char_boundary(self.src_bytes(), p as int),
            self.src_bytes()[p as int] == 47 && self.src_bytes()[p + 1] == 42,
        ensures
            lexed(self.src_bytes(), p as int, res.1 as int, res.0),
            match comment_end(self.src_bytes(), p + 2, 1) {
                Some(e) => res.1 == e && res.0 matches Some(Token::BlockComment(_)),
                None => res.1 == self.src_bytes().len() && res.0 is None,
            },
    {
        let n = self.len();
        let mut i = p + 2;
        let mut depth: usize = 1;
        while i < n
            invariant
                p + 2 <= i <= n,
                n == self.src_bytes().len(),
                1 <= depth <= i,
                comment_end(self.src_bytes(), i as int, depth as nat) == comment_end(self.src_bytes(), p + 2, 1),
            decreases n - i,
        {
            let b = self.byte(i);
            if b == 47 && i + 1 < n && self.byte(i + 1) == 42 {
                depth = depth + 1;
                i = i + 2;
            } else if b == 42 && i + 1 < n && self.byte(i + 1) == 47 {
                i = i + 2;
                if depth == 1 {
                    proof {
                        lemma_after_ascii(self.src_bytes(), i as int);
                    }
                    let s = substr(self.source, p, i);
                    return (Some(Token::BlockComment(s)), i);
                }
                depth = depth - 1;
            } else {
                i = i + 1;
            }
        }
        proof {
            is_char_boundary_start_end_of_seq(self.src_bytes());
        }
        (None, n)
    }

    /// A string (`quote` 34) or character (`quote` 39) literal from `p` on,
    /// in which a backslash escapes the next byte.
    #[verifier::loop_isolation(false)]
    fn quoted(&self, p: usize, quote: u8) -> (res: (Option<Token<'s>>, usize))
        requires
            self.wf(),
            p < self.src_bytes().len(),
            is_char_boundary(self.src_bytes(), p as int),
            quote == 34 || quote == 39,
            self.src_bytes()[p as int] == quote,
        ensures
            lexed(self.src_bytes(), p as int, res.1 as int, res.0),
            res.0 matches Some(t) ==> (if quote == 34 { t is String } else { t is Char }),
            match quote_end(self.src_bytes(), p + 1, quote) {
                Some(e) => res.1 == e && res.0 is Some,
                None => res.1 == self.src_bytes().len() && res.0 is None,
            },
    {
        let n = self.len();
        let mut i = p + 1;
        while i < n
            invariant
                p + 1 <= i <= n,
                n == self.src_bytes().len(),
                quote_end(self.src_bytes(), i as int, quote) == quote_end(self.src_bytes(), p + 1, quote),
            decreases n - i,
        {
            let b = self.byte(i);
            if b == 92 {
                if i + 1 < n {
                    i = i + 2;
                } else {
                    i = i + 1;
                }
            } else if b == quote {
                proof {
                    lemma_after_ascii(self.src_bytes(), i + 1);
                }
                let s = substr(self.source, p, i + 1);
                if quote == 34 {
                    return (Some(Token::String(s)), i + 1);
                } else {
                    return (Some(Token::Char(s)), i + 1);
                }
            } else {
                i = i + 1;
            }
        }
        proof {
            is_char_boundary_start_end_of_seq(self.src_bytes());
        }
        (None, n)
    }

    /// A raw regex literal from `p` on, if one starts there: `r`, any number
    /// of `#`, a `"`, the pattern, and a `"` followed by exactly as many `#`.
    #[verifier::loop_isolation(false)]
    fn regex(&self, p: usize) -> (res: Option<(Token<'s>, usize)>)
        requires
            self.wf(),
            p < self.src_bytes().len(),
            is_char_boundary(self.src_bytes(), p as int),
            self.src_bytes()[p as int] == 114,
        ensures
            res matches Some((t, e)) ==> lexed(self.src_bytes(), p as int, e as int, Some(t)),
            match regex_scan(self.src_bytes(), p as int) {
                None => res is None,
                Some((kind, e)) => res matches Some((t, e2)) && e2 == e && of_kind(Some(t), p as int, kind),
            },
    {
        let n = self.len();
        let ghost bytes = self.src_bytes();
        let mut h = p + 1;
        while h < n && self.byte(h) == 35
            invariant
                p + 1 <= h <= n,
                n == bytes.len(),
                bytes == self.src_bytes(),
                hashes_end(bytes, h as int) == hashes_end(bytes, p + 1),
            decreases n - h,
        {
            h = h + 1;
        }
        let hashes = h - (p + 1);
        if h >= n || self.byte(h) != 34 {
            return None;
        }
        let mut i = h + 1;
        while i < n
            invariant
                h + 1 <= i <= n,
                n == bytes.len(),
                bytes == self.src_bytes(),
                hashes == h - (p + 1),
                h == hashes_end(bytes, p + 1),
                regex_close(bytes, i as int, hashes as int) == regex_close(bytes, h + 1, hashes as int),
            decreases n - i,
        {
            if self.byte(i) == 34 {
                let mut k = i + 1;
                while k < n && self.byte(k) == 35
                    invariant
                        i + 1 <= k <= n,
                        n == bytes.len(),
                        bytes == self.src_bytes(),
                        forall|j: int| i + 1 <= j < k ==> self.src_bytes()[j] == 35,
                        hashes_end(bytes, k as int) == hashes_end(bytes, i + 1),
                    decreases n - k,
                {
                    k = k + 1;
                }
                if k - (i + 1) == hashes {
                    proof {
                        lemma_after_ascii(self.src_bytes(), k as int);
                    }
                    let s = substr(self.source, p, k);
                    return Some((Token::Regex(s), k));
                }
            }
            i = i + 1;
        }
        proof {
            is_char_boundary_start_end_of_seq(self.src_bytes());
        }
        let s = substr(self.source, p, n);
        Some((Token::UnterminatedRegex(s), n))
    }

    /// An IPv6 address from `p` on, if one starts there: a run of hex digits
    /// and colons that holds at least two colons.
    #[verifier::loop_isolation(false)]
    fn ipv6(&self, p: usize) -> (res: Option<(Token<'s>, usize)>)
        requires
            self.wf(),
            p < self.src_bytes().len(),
            is_char_boundary(self.src_bytes(), p as int),
        ensures
            res matches Some((t, e)) ==> lexed(self.src_bytes(), p as int, e as int, Some(t))
                && t is IpV6,
            match ipv6_scan(self.src_bytes(), p as int) {
                None => res is None,
                Some((kind, e)) => res matches Some((t, e2)) && e2 == e && of_kind(Some(t), p as int, kind),
            },
    {
        let n = self.len();
        let mut i = p;
        let mut colons: usize = 0;
        while i < n && (hex_digit_byte(self.byte(i)) || self.byte(i) == 58)
            invariant
                p <= i <= n,
                colons <= i - p,
                n == self.src_bytes().len(),
                i > p ==> self.src_bytes()[i - 1] < 0x80,
                colons == colon_count(self.src_bytes(), p as int, i as int),
                v6_end(self.src_bytes(), i as int) == v6_end(self.src_bytes(), p as int),
            decreases n - i,
        {
            if self.byte(i) == 58 {
                colons = colons + 1;
            }
            i = i + 1;
        }
        if colons < 2 {
            return None;
        }
        proof {
            lemma_after_ascii(self.src_bytes(), i as int);
        }
        let s = substr(self.source, p, i);
        Some((Token::IpV6(s), i))
    }

    /// The end of an integer (`float` false) or float (`float` true) type
    /// suffix that starts at `e`, or `e` itself where none starts there.
    fn suffix(&self, e: usize, float: bool) -> (res: usize)
        requires
            self.wf(),
            e <= self.src_bytes().len(),
            is_char_boundary(self.src_bytes(), e as int),
        ensures
            e <= res <= self.src_bytes().len(),
            is_char_boundary(self.src_bytes(), res as int),
            res == suffix_end(self.src_bytes(), e as int, float),
    {
        let n = self.len();
        if e >= n {
            return e;
        }
        let b = self.byte(e);
        let starts = if float { b == 102 } else { b == 117 || b == 105 };
        if !starts {
            return e;
        }
        let d = self.skip_digits(e + 1);
        let width = d - (e + 1);
        let fits = if width == 1 {
            !float && self.byte(e + 1) == 56
        } else if width == 2 {
            let c0 = self.byte(e + 1);
            let c1 = self.byte(e + 2);
            (c0 == 51 && c1 == 50) || (c0 == 54 && c1 == 52) || (!float && c0 == 49 && c1 == 54)
        } else {
            false
        };
        if fits && (d == n || !ident_continue_byte(self.byte(d))) {
            proof {
                lemma_after_ascii(self.src_bytes(), d as int);
            }
            d
        } else {
            e
        }
    }

    /// A number literal from the digit at `p` on: a hex integer, an IPv4
    /// address, a float or an integer, each with an optional type suffix
    /// where the kind takes one.
    #[verifier::loop_isolation(false)]
    fn number(&self, p: usize) -> (res: (Token<'s>, usize))
        requires
            self.wf(),
            p < self.src_bytes().len(),
            is_char_boundary(self.src_bytes(), p as int),
            is_digit(self.src_bytes()[p as int]),
        ensures
            lexed(self.src_bytes(), p as int, res.1 as int, Some(res.0)),
            res.1 == number_scan(self.src_bytes(), p as int).1,
            of_kind(Some(res.0), p as int, number_scan(self.src_bytes(), p as int).0),
    {
        let n = self.len();
        let bytes = Ghost(self.src_bytes());
        if self.byte(p) == 48 && n - p > 2 && self.byte(p + 1) == 120 && hex_digit_byte(self.byte(p + 2)) {
            let mut i = p + 3;
            while i < n && hex_digit_byte(self.byte(i))
                invariant
                    p + 3 <= i <= n,
                    n == self.src_bytes().len(),
                    is_hex_digit(self.src_bytes()[i - 1]),
                    hex_end(self.src_bytes(), i as int) == hex_end(self.src_bytes(), p + 3),
                decreases n - i,
            {
                i = i + 1;
            }
            proof {
                lemma_after_ascii(bytes@, i as int);
            }
            let s = substr(self.source, p, i);
            return (Token::Hex(s), i);
        }
        let e1 = self.skip_digits(p + 1);
        proof {
            lemma_after_ascii(bytes@, e1 as int);
        }
        if n - e1 > 1 && self.byte(e1) == 46 && digit_byte(self.byte(e1 + 1)) {
            let e2 = self.skip_digits(e1 + 1);
            proof {
                lemma_after_ascii(bytes@, e2 as int);
            }
            if n - e2 > 1 && self.byte(e2) == 46 && digit_byte(self.byte(e2 + 1)) {
                let e3 = self.skip_digits(e2 + 1);
                if n - e3 > 1 && self.byte(e3) == 46 && digit_byte(self.byte(e3 + 1)) {
                    let e4 = self.skip_digits(e3 + 1);
                    proof {
                        lemma_after_ascii(bytes@, e4 as int);
                    }
                    let s = substr(self.source, p, e4);
                    return (Token::IpV4(s), e4);
                }
            }
            let se = self.suffix(e2, true);
            let s = substr(self.source, p, e2);
            let suffix = substr(self.source, e2, se);
            proof {
                lemma_encode_concat(s@, suffix@);
                assert(bytes@.subrange(p as int, se as int) =~= bytes@.subrange(p as int, e2 as int) + bytes@.subrange(e2 as int, se as int));
            }
            return (Token::Float(s, suffix), se);
        }
        let se = self.suffix(e1, false);
        let s = substr(self.source, p, e1);
        let suffix = substr(self.source, e1, se);
        proof {
            lemma_encode_concat(s@, suffix@);
            assert(bytes@.subrange(p as int, se as int) =~= bytes@.subrange(p as int, e1 as int) + bytes@.subrange(e1 as int, se as int));
        }
        (Token::Integer(s, suffix), se)
    }

    /// A word from the identifier start at `p` on: an AS number, a boolean,
    /// a keyword or an identifier.
    #[verifier::loop_isolation(false)]
    fn word(&self, p: usize) -> (res: (Token<'s>, usize))
        requires
            self.wf(),
            p < self.src_bytes().len(),
            is_char_boundary(self.src_bytes(), p as int),
            is_ident_start(self.src_bytes()[p as int]),
        ensures
            lexed(self.src_bytes(), p as int, res.1 as int, Some(res.0)),
            res.1 == word_scan(self.src_bytes(), p as int).1,
            of_kind(Some(res.0), p as int, word_scan(self.src_bytes(), p as int).0),
    {
        let e = self.skip_ident_continue(p + 1);
        proof {
            lemma_after_ascii(self.src_bytes(), e as int);
        }
        if e - p >= 3 && self.byte(p) == 65 && self.byte(p + 1) == 83 && self.skip_digits(p + 2) == e {
            let s = substr(self.source, p, e);
            return (Token::Asn(s), e);
        }
        if self.reads_as(p, e, Token::Bool(true)) {
            return (Token::Bool(true), e);
        }
        if self.reads_as(p, e, Token::Bool(false)) {
            return (Token::Bool(false), e);
        }
        let keywords = all_keywords();
        let mut i: usize = 0;
        while i < keywords.len()
            invariant
                i <= keywords@.len(),
                p < e <= self.src_bytes().len(),
                keywords@ == keyword_seq(),
                keyword_from(self.src_bytes(), p as int, e as int, i as int) == keyword_from(
                    self.src_bytes(),
                    p as int,
                    e as int,
                    0,
                ),
            decreases keywords@.len() - i,
        {
            let k = keywords[i];
            if self.reads_as(p, e, Token::Keyword(k)) {
                return (Token::Keyword(k), e);
            }
            i = i + 1;
        }
        let s = substr(self.source, p, e);
        (Token::Ident(s), e)
    }

    /// A punctuation or delimiter token at `p`, if one is there.
    #[verifier::loop_isolation(false)]
    fn punct(&self, p: usize) -> (res: Option<(Token<'s>, usize)>)
        requires
            self.wf(),
            p < self.src_bytes().len(),
            is_char_boundary(self.src_bytes(), p as int),
        ensures
            res matches Some((t, e)) ==> lexed(self.src_bytes(), p as int, e as int, Some(t)),
            match punct_from(self.src_bytes(), p as int, 0) {
                None => res is None,
                Some(i) => 0 <= i < punct_seq().len() && res == Some(
                    (punct_seq()[i], (p + text_len(punct_seq()[i])) as usize),
                ),
            },
    {
        let n = self.len();
        let candidates = punctuation();
        let mut i: usize = 0;
        while i < candidates.len()
            invariant
                i <= candidates@.len(),
                p < n == self.src_bytes().len(),
                self.wf(),
                candidates@ == punct_seq(),
                punct_from(self.src_bytes(), p as int, i as int) == punct_from(self.src_bytes(), p as int, 0),
            decreases candidates@.len() - i,
        {
            let tok = candidates[i];
            let text = tok.to_string();
            let t = text.as_str();
            let len = t.as_bytes().len();
            if 0 < len && len <= n - p && self.holds_at(p, t) && self.byte(p + len - 1) < 128 {
                proof {
                    lemma_after_ascii(self.src_bytes(), p + len);
                }
                return Some((tok, p + len));
            }
            i = i + 1;
        }
        None
    }

    /// Invalid input at `p`: one character is skipped.
    #[verifier::loop_isolation(false)]
    fn invalid(&self, p: usize) -> (res: usize)
        requires
            self.wf(),
            p < self.src_bytes().len(),
            is_char_boundary(self.src_bytes(), p as int),
        ensures
            lexed(self.src_bytes(), p as int, res as int, None),
            res == continuation_end(self.src_bytes(), p + 1),
    {
        let n = self.len();
        let mut i = p + 1;
        while i < n && self.byte(i) >= 0x80 && self.byte(i) <= 0xbf
            invariant
                p + 1 <= i <= n,
                n == self.src_bytes().len(),
                continuation_end(self.src_bytes(), i as int) == continuation_end(self.src_bytes(), p + 1),
            decreases n - i,
        {
            i = i + 1;
        }
        proof {
            if i < n {
                is_char_boundary_iff_not_is_continuation_byte(self.src_bytes(), i as int);
            } else {
                is_char_boundary_start_end_of_seq(self.src_bytes());
            }
        }
        i
    }
}

/// The token of a lexing result, `None` for invalid input.
pub open spec fn result_token<'s>(r: Result<Token<'s>, ()>) -> Option<Token<'s>> {
    match r {
        Ok(t) => Some(t),
        Err(_) => None,
    }
}

impl<'s> Lexer<'s> {
    /// The next token after whitespace and comments, with its exact byte
    /// span; `Err(())` for invalid input, `None` at the end of the source.
    pub fn next(&mut self) -> (res: Option<(Result<Token<'s>, ()>, Range<usize>)>)
        requires
            old(self).wf(),
        ensures
            final(self).wf(),
            final(self).src() == old(self).src(),
            final(self).src_bytes() == old(self).src_bytes(),
            match res {
                None => {
                    &&& final(self).pos() == old(self).src_bytes().len()
                    &&& trivia_end(old(self).src_bytes(), old(self).pos() as int) == old(
                        self,
                    ).src_bytes().len()
                },
                Some((tok, span)) => {
                    &&& span.start == trivia_end(old(self).src_bytes(), old(self).pos() as int)
                    &&& old(self).pos() <= span.start
                    &&& span.end == final(self).pos()
                    &&& is_char_boundary(old(self).src_bytes(), span.start as int)
                    &&& lexed(
                        old(self).src_bytes(),
                        span.start as int,
                        span.end as int,
                        result_token(tok),
                    )
                    &&& scanned(old(self).src_bytes(), span.start as int, span.end as int, result_token(tok))
                },
            },
    {
        self.skip_trivia();
        let n = self.len();
        let p = self.pos;
        if p >= n {
            return None;
        }
        let b = self.byte(p);
        let (tok, end): (Option<Token<'s>>, usize) = if b == 47 && n - p > 1 && self.byte(p + 1) == 42 {
            self.block_comment(p)
        } else if b == 34 || b == 39 {
            self.quoted(p, b)
        } else if b == 102 && n - p > 1 && self.byte(p + 1) == 34 {
            proof {
                lemma_after_ascii(self.src_bytes(), p + 2);
                let text = token_chars(Token::FStringStart);
                assert(is_ascii_chars(text));
                is_ascii_chars_encode_utf8(text);
                assert(encode_utf8(text) =~= self.src_bytes().subrange(p as int, p + 2));
            }
            (Some(Token::FStringStart), p + 2)
        } else {
            match self.regex_or_ipv6(p) {
                Some((t, e)) => (Some(t), e),
                None => {
                    if digit_byte(b) {
                        let (t, e) = self.number(p);
                        (Some(t), e)
                    } else if ident_start_byte(b) {
                        let (t, e) = self.word(p);
                        (Some(t), e)
                    } else {
                        match self.punct(p) {
                            Some((t, e)) => (Some(t), e),
                            None => (None, self.invalid(p)),
                        }
                    }
                },
            }
        };
        self.pos = end;
        let res = match tok {
            Some(t) => Ok(t),
            None => Err(()),
        };
        Some((res, p..end))
    }

    /// A raw regex literal or an IPv6 address at `p`, if one starts there.
    fn regex_or_ipv6(&self, p: usize) -> (res: Option<(Token<'s>, usize)>)
        requires
            self.wf(),
            p < self.src_bytes().len(),
            is_char_boundary(self.src_bytes(), p as int),
            !(self.src_bytes()[p as int] == 47 && self.src_bytes().len() - p > 1 && self.src_bytes()[p + 1] == 42),
            self.src_bytes()[p as int] != 34 && self.src_bytes()[p as int] != 39,
            !(self.src_bytes()[p as int] == 102 && self.src_bytes().len() - p > 1 && self.src_bytes()[p + 1] == 34),
        ensures
            res matches Some((t, e)) ==> lexed(self.src_bytes(), p as int, e as int, Some(t)),
            res is Some <==> ((self.src_bytes()[p as int] == 114 && regex_scan(self.src_bytes(), p as int) is Some)
                || ((is_hex_digit(self.src_bytes()[p as int]) || self.src_bytes()[p as int] == 58)
                && ipv6_scan(self.src_bytes(), p as int) is Some)),
            res matches Some((t, e)) ==> scanned(self.src_bytes(), p as int, e as int, Some(t)),
    {
        let b = self.byte(p);
        if b == 114 {
            if let Some(r) = self.regex(p) {
                return Some(r);
            }
        }
        if hex_digit_byte(b) || b == 58 {
            return self.ipv6(p);
        }
        None
    }

    /// The next part of an f-string: the text up to the next `{`, or the
    /// rest of the string including its closing quote. `None` where the
    /// string is not closed before the end of the source.
    pub fn f_string_part(&mut self) -> (res: Option<(FStringToken<'s>, Range<usize>)>)
        requires
            old(self).wf(),
        ensures
            final(self).wf(),
            final(self).src() == old(self).src(),
            final(self).src_bytes() == old(self).src_bytes(),
            final(self).pos() >= old(self).pos(),
            match res {
                None => final(self).pos() == old(self).src_bytes().len() && fstring_unclosed(
                    old(self).src_bytes(),
                    old(self).pos() as int,
                ),
                Some((FStringToken::StringEnd(s), span)) => {
                    &&& span.start == old(self).pos()
                    &&& span.start < span.end == final(self).pos()
                    &&& s.spec_bytes() == old(self).src_bytes().subrange(span.start as int, span.end as int)
                    &&& old(self).src_bytes()[span.end - 1] == 34
                    &&& fpart_end(old(self).src_bytes(), span.start as int) == Some((true, span.end as int))
                },
                Some((FStringToken::StringIntermediate(s), span)) => {
                    &&& span.start == old(self).pos()
                    &&& span.end == final(self).pos() < old(self).src_bytes().len()
                    &&& s.spec_bytes() == old(self).src_bytes().subrange(span.start as int, span.end as int)
                    &&& old(self).src_bytes()[span.end as int] == 123
                    &&& fpart_end(old(self).src_bytes(), span.start as int) == Some((false, span.end as int))
                },
            },
    {
        let n = self.len();
        let start = self.pos;
        let mut i = start;
        while i < n
            invariant
                start <= i <= n,
                n == self.src_bytes().len(),
                self.wf(),
                self.pos() == start,
                fpart_end(self.src_bytes(), start as int) == fpart_end(self.src_bytes(), i as int),
                start == old(self).pos(),
                self.src() == old(self).src(),
                self.src_bytes() == old(self).src_bytes(),
            decreases n - i,
        {
            let b = self.byte(i);
            if b == 92 {
                if i + 1 < n {
                    i = i + 2;
                } else {
                    i = i + 1;
                }
            } else if b == 34 {
                proof {
                    lemma_after_ascii(self.src_bytes(), i + 1);
                }
                let s = substr(self.source, start, i + 1);
                self.pos = i + 1;
                return Some((FStringToken::StringEnd(s), start..i + 1));
            } else if b == 123 {
                proof {
                    lemma_at_ascii(self.src_bytes(), i as int);
                }
                let s = substr(self.source, start, i);
                self.pos = i;
                return Some((FStringToken::StringIntermediate(s), start..i));
            } else {
                i = i + 1;
            }
        }
        proof {
            is_char_boundary_start_end_of_seq(self.src_bytes());
        }
        self.pos = n;
        None
    }
}

} // verus!
