//! What the lexer reads at a position: the kind of the token that starts
//! there and where it ends, stated over the source bytes.

use crate::syntax::lexer::{
    is_digit, is_hex_digit, is_ident_continue, is_ident_start, is_space, lemma_line_end_bounds, line_end,
    trivia_end,
};
use crate::syntax::token::{keyword_chars, token_chars, Keyword, Token};
use vstd::prelude::*;
use vstd::string::*;
use vstd::utf8::*;

verus! {

/// The end of the run of bytes from `i` on that belong to `class`.
pub open spec fn run_end(bytes: Seq<u8>, i: int, class: spec_fn(u8) -> bool) -> int
    decreases bytes.len() - i,
{
    if 0 <= i < bytes.len() && class(bytes[i]) {
        run_end(bytes, i + 1, class)
    } else {
        i
    }
}

/// A run ends where its class first fails, or at the end of the bytes.
pub proof fn lemma_run_end(bytes: Seq<u8>, i: int, e: int, class: spec_fn(u8) -> bool)
    requires
        0 <= i <= e <= bytes.len(),
        forall|j: int| i <= j < e ==> class(#[trigger] bytes[j]),
        e == bytes.len() || !class(bytes[e]),
    ensures
        run_end(bytes, i, class) == e,
    decreases e - i,
{
    if i < e {
        lemma_run_end(bytes, i + 1, e, class);
    }
}

/// The end of the run of decimal digits from `i` on.
pub open spec fn digits_end(bytes: Seq<u8>, i: int) -> int {
    run_end(bytes, i, |b: u8| is_digit(b))
}

/// The end of the run of hexadecimal digits from `i` on.
pub open spec fn hex_end(bytes: Seq<u8>, i: int) -> int {
    run_end(bytes, i, |b: u8| is_hex_digit(b))
}

/// The end of the run of identifier bytes from `i` on.
pub open spec fn ident_end(bytes: Seq<u8>, i: int) -> int {
    run_end(bytes, i, |b: u8| is_ident_continue(b))
}

/// The end of the run of `#` from `i` on.
pub open spec fn hashes_end(bytes: Seq<u8>, i: int) -> int {
    run_end(bytes, i, |b: u8| b == 35)
}

/// The end of the run of hexadecimal digits and colons from `i` on.
pub open spec fn v6_end(bytes: Seq<u8>, i: int) -> int {
    run_end(bytes, i, |b: u8| is_hex_digit(b) || b == 58)
}

/// The end of the run of UTF-8 continuation bytes from `i` on.
pub open spec fn continuation_end(bytes: Seq<u8>, i: int) -> int {
    run_end(bytes, i, |b: u8| 0x80 <= b <= 0xbf)
}

/// Where a block comment whose text continues at `i`, nested `depth` deep,
/// is closed; `None` where it is not closed before the end.
pub open spec fn comment_end(bytes: Seq<u8>, i: int, depth: nat) -> Option<int>
    decreases bytes.len() - i,
{
    if i < 0 || i >= bytes.len() {
        None
    } else if bytes[i] == 47 && i + 1 < bytes.len() && bytes[i + 1] == 42 {
        comment_end(bytes, i + 2, depth + 1)
    } else if bytes[i] == 42 && i + 1 < bytes.len() && bytes[i + 1] == 47 {
        if depth <= 1 {
            Some(i + 2)
        } else {
            comment_end(bytes, i + 2, (depth - 1) as nat)
        }
    } else {
        comment_end(bytes, i + 1, depth)
    }
}

/// Where a literal quoted by `quote`, whose text continues at `i`, is
/// closed (after the quote); a backslash escapes the next byte.
pub open spec fn quote_end(bytes: Seq<u8>, i: int, quote: u8) -> Option<int>
    decreases bytes.len() - i,
{
    if i < 0 || i >= bytes.len() {
        None
    } else if bytes[i] == 92 {
        if i + 1 < bytes.len() {
            quote_end(bytes, i + 2, quote)
        } else {
            None
        }
    } else if bytes[i] == quote {
        Some(i + 1)
    } else {
        quote_end(bytes, i + 1, quote)
    }
}

/// Where the pattern of a raw regex literal that continues at `i` is
/// closed: at the first `"` followed by a run of exactly `hashes` `#`.
pub open spec fn regex_close(bytes: Seq<u8>, i: int, hashes: int) -> Option<int>
    decreases bytes.len() - i,
{
    if i < 0 || i >= bytes.len() {
        None
    } else if bytes[i] == 34 && hashes_end(bytes, i + 1) - (i + 1) == hashes {
        Some(hashes_end(bytes, i + 1))
    } else {
        regex_close(bytes, i + 1, hashes)
    }
}

/// The number of colons between `i` and `e`.
pub open spec fn colon_count(bytes: Seq<u8>, i: int, e: int) -> int
    decreases e - i,
{
    if e <= i {
        0
    } else {
        colon_count(bytes, i, e - 1) + if bytes[e - 1] == 58 {
            1int
        } else {
            0int
        }
    }
}

/// The kind of token that the lexer reads at a position.
pub enum Scan {
    /// Input that is no token.
    Invalid,
    Comment,
    Str,
    Char,
    FStringStart,
    Regex,
    UnterminatedRegex,
    IpV6,
    Hex,
    IpV4,
    /// A float literal whose type suffix starts at the given offset.
    Float(int),
    /// An integer literal whose type suffix starts at the given offset.
    Integer(int),
    Asn,
    Bool(bool),
    Keyword(Keyword),
    Ident,
    /// The punctuation token at the given index of `punct_seq`.
    Punct(int),
}

/// A raw regex literal at `p` (which holds an `r`), if one starts there:
/// `r`, a run of `#`, a `"`, the pattern, and its close. One that is never
/// closed runs to the end.
pub open spec fn regex_scan(bytes: Seq<u8>, p: int) -> Option<(Scan, int)> {
    let h = hashes_end(bytes, p + 1);
    if h >= bytes.len() || bytes[h] != 34 {
        None
    } else {
        match regex_close(bytes, h + 1, h - (p + 1)) {
            Some(k) => Some((Scan::Regex, k)),
            None => Some((Scan::UnterminatedRegex, bytes.len() as int)),
        }
    }
}

/// An IPv6 address at `p`, if one starts there: a run of hexadecimal digits
/// and colons that holds at least two colons.
pub open spec fn ipv6_scan(bytes: Seq<u8>, p: int) -> Option<(Scan, int)> {
    let e = v6_end(bytes, p);
    if colon_count(bytes, p, e) < 2 {
        None
    } else {
        Some((Scan::IpV6, e))
    }
}

/// The end of a type suffix that may start at `e`: `u` or `i` and a width
/// of 8, 16, 32 or 64 for an integer, `f` and 32 or 64 for a float, not
/// followed by an identifier byte. `e` itself where none starts there.
pub open spec fn suffix_end(bytes: Seq<u8>, e: int, float: bool) -> int {
    if e >= bytes.len() {
        e
    } else {
        let b = bytes[e];
        let starts = if float {
            b == 102
        } else {
            b == 117 || b == 105
        };
        let d = digits_end(bytes, e + 1);
        let width = d - (e + 1);
        let fits = if width == 1 {
            !float && bytes[e + 1] == 56
        } else if width == 2 {
            let c0 = bytes[e + 1];
            let c1 = bytes[e + 2];
            (c0 == 51 && c1 == 50) || (c0 == 54 && c1 == 52) || (!float && c0 == 49 && c1 == 54)
        } else {
            false
        };
        if starts && fits && (d == bytes.len() || !is_ident_continue(bytes[d])) {
            d
        } else {
            e
        }
    }
}

/// Whether a `.` and a digit follow at `e`.
pub open spec fn dot_digit(bytes: Seq<u8>, e: int) -> bool {
    bytes.len() - e > 1 && bytes[e] == 46 && is_digit(bytes[e + 1])
}

/// A number at the digit at `p`: `0x` and hexadecimal digits, four dotted
/// runs of digits (an IPv4 address), two (a float) or one (an integer),
/// the last two with an optional type suffix.
pub open spec fn number_scan(bytes: Seq<u8>, p: int) -> (Scan, int) {
    if bytes[p] == 48 && bytes.len() - p > 2 && bytes[p + 1] == 120 && is_hex_digit(bytes[p + 2]) {
        (Scan::Hex, hex_end(bytes, p + 3))
    } else {
        let e1 = digits_end(bytes, p + 1);
        if dot_digit(bytes, e1) {
            let e2 = digits_end(bytes, e1 + 1);
            let e3 = digits_end(bytes, e2 + 1);
            if dot_digit(bytes, e2) && dot_digit(bytes, e3) {
                (Scan::IpV4, digits_end(bytes, e3 + 1))
            } else {
                (Scan::Float(e2), suffix_end(bytes, e2, true))
            }
        } else {
            (Scan::Integer(e1), suffix_end(bytes, e1, false))
        }
    }
}

/// The keywords, in the order in which the lexer tries them.
pub open spec fn keyword_seq() -> Seq<Keyword> {
    seq![
        Keyword::Accept,
        Keyword::Const,
        Keyword::Dep,
        Keyword::Else,
        Keyword::Enum,
        Keyword::Filter,
        Keyword::FilterMap,
        Keyword::For,
        Keyword::Fn,
        Keyword::If,
        Keyword::Import,
        Keyword::In,
        Keyword::Let,
        Keyword::Match,
        Keyword::Pkg,
        Keyword::Record,
        Keyword::Reject,
        Keyword::Return,
        Keyword::Std,
        Keyword::Super,
        Keyword::Test,
        Keyword::While,
    ]
}

/// The first keyword from index `i` of `keyword_seq` that is spelled as the
/// bytes between `p` and `e`.
pub open spec fn keyword_from(bytes: Seq<u8>, p: int, e: int, i: int) -> Option<Keyword>
    decreases keyword_seq().len() - i,
{
    if i < 0 || i >= keyword_seq().len() {
        None
    } else if encode_utf8(keyword_chars(keyword_seq()[i])) == bytes.subrange(p, e) {
        Some(keyword_seq()[i])
    } else {
        keyword_from(bytes, p, e, i + 1)
    }
}

/// Whether the bytes between `p` and `e` spell the token `t`.
pub open spec fn spells(bytes: Seq<u8>, p: int, e: int, t: Token) -> bool {
    encode_utf8(token_chars(t)) == bytes.subrange(p, e)
}

/// A word at the identifier start at `p`: `AS` and digits (an AS number),
/// `true` or `false`, a keyword, or else an identifier.
pub open spec fn word_scan(bytes: Seq<u8>, p: int) -> (Scan, int) {
    let e = ident_end(bytes, p + 1);
    if e - p >= 3 && bytes[p] == 65 && bytes[p + 1] == 83 && digits_end(bytes, p + 2) == e {
        (Scan::Asn, e)
    } else if spells(bytes, p, e, Token::Bool(true)) {
        (Scan::Bool(true), e)
    } else if spells(bytes, p, e, Token::Bool(false)) {
        (Scan::Bool(false), e)
    } else {
        match keyword_from(bytes, p, e, 0) {
            Some(k) => (Scan::Keyword(k), e),
            None => (Scan::Ident, e),
        }
    }
}

/// The punctuation and delimiter tokens, in the order in which the lexer
/// tries them: the longer spellings first.
pub open spec fn punct_seq<'a>() -> Seq<Token<'a>> {
    seq![
        Token::AmpAmp,
        Token::AngleLeftEq,
        Token::AngleRightEq,
        Token::Arrow,
        Token::BangEq,
        Token::EqEq,
        Token::FatArrow,
        Token::HyphenHyphen,
        Token::PipePipe,
        Token::PlusEq,
        Token::MinusEq,
        Token::StarEq,
        Token::SlashEq,
        Token::PercentEq,
        Token::Bang,
        Token::Colon,
        Token::Comma,
        Token::Eq,
        Token::Hash,
        Token::Hyphen,
        Token::Period,
        Token::Pipe,
        Token::Plus,
        Token::QuestionMark,
        Token::SemiColon,
        Token::Slash,
        Token::Star,
        Token::Percent,
        Token::AngleLeft,
        Token::AngleRight,
        Token::CurlyLeft,
        Token::CurlyRight,
        Token::RoundLeft,
        Token::RoundRight,
        Token::SquareLeft,
        Token::SquareRight,
    ]
}

/// The length in bytes of the spelling of `t`.
pub open spec fn text_len(t: Token) -> int {
    encode_utf8(token_chars(t)).len() as int
}

/// Whether the source holds the spelling of `t` at `p`, ending in an ASCII
/// byte.
pub open spec fn punct_fits(bytes: Seq<u8>, p: int, t: Token) -> bool {
    let len = text_len(t);
    &&& 0 < len <= bytes.len() - p
    &&& bytes.subrange(p, p + len) == encode_utf8(token_chars(t))
    &&& bytes[p + len - 1] < 128
}

/// The index of the first punctuation token from index `i` of `punct_seq`
/// whose spelling stands at `p`.
pub open spec fn punct_from(bytes: Seq<u8>, p: int, i: int) -> Option<int>
    decreases punct_seq().len() - i,
{
    if i < 0 || i >= punct_seq().len() {
        None
    } else if punct_fits(bytes, p, punct_seq()[i]) {
        Some(i)
    } else {
        punct_from(bytes, p, i + 1)
    }
}

/// What the lexer reads at `p`, where a token starts: its kind and where
/// it ends.
pub open spec fn scan(bytes: Seq<u8>, p: int) -> (Scan, int) {
    let n = bytes.len() as int;
    let b = bytes[p];
    if b == 47 && n - p > 1 && bytes[p + 1] == 42 {
        match comment_end(bytes, p + 2, 1) {
            Some(e) => (Scan::Comment, e),
            None => (Scan::Invalid, n),
        }
    } else if b == 34 || b == 39 {
        match quote_end(bytes, p + 1, b) {
            Some(e) => (
                if b == 34 {
                    Scan::Str
                } else {
                    Scan::Char
                },
                e,
            ),
            None => (Scan::Invalid, n),
        }
    } else if b == 102 && n - p > 1 && bytes[p + 1] == 34 {
        (Scan::FStringStart, p + 2)
    } else if b == 114 && regex_scan(bytes, p) is Some {
        regex_scan(bytes, p).unwrap()
    } else if (is_hex_digit(b) || b == 58) && ipv6_scan(bytes, p) is Some {
        ipv6_scan(bytes, p).unwrap()
    } else if is_digit(b) {
        number_scan(bytes, p)
    } else if is_ident_start(b) {
        word_scan(bytes, p)
    } else {
        match punct_from(bytes, p, 0) {
            Some(i) => (Scan::Punct(i), p + text_len(punct_seq()[i])),
            None => (Scan::Invalid, continuation_end(bytes, p + 1)),
        }
    }
}

/// Whether `tok`, which starts at `start`, is of the kind `kind`.
pub open spec fn of_kind(tok: Option<Token>, start: int, kind: Scan) -> bool {
    match kind {
        Scan::Invalid => tok is None,
        Scan::Comment => tok matches Some(Token::BlockComment(_)),
        Scan::Str => tok matches Some(Token::String(_)),
        Scan::Char => tok matches Some(Token::Char(_)),
        Scan::FStringStart => tok == Some(Token::FStringStart),
        Scan::Regex => tok matches Some(Token::Regex(_)),
        Scan::UnterminatedRegex => tok matches Some(Token::UnterminatedRegex(_)),
        Scan::IpV6 => tok matches Some(Token::IpV6(_)),
        Scan::Hex => tok matches Some(Token::Hex(_)),
        Scan::IpV4 => tok matches Some(Token::IpV4(_)),
        Scan::Float(split) => tok matches Some(Token::Float(s, _)) && s.spec_bytes().len() == split - start,
        Scan::Integer(split) => tok matches Some(Token::Integer(s, _)) && s.spec_bytes().len() == split
            - start,
        Scan::Asn => tok matches Some(Token::Asn(_)),
        Scan::Bool(b) => tok == Some(Token::Bool(b)),
        Scan::Keyword(k) => tok == Some(Token::Keyword(k)),
        Scan::Ident => tok matches Some(Token::Ident(_)),
        Scan::Punct(i) => 0 <= i < punct_seq().len() && tok == Some(punct_seq()[i]),
    }
}

/// Whether `tok` between `start` and `end` is what the lexer reads at
/// `start`.
pub open spec fn scanned(bytes: Seq<u8>, start: int, end: int, tok: Option<Token>) -> bool {
    &&& scan(bytes, start).1 == end
    &&& of_kind(tok, start, scan(bytes, start).0)
}

/// Where the piece of f-string text that continues at `i` ends, and whether
/// it is the last piece (closed by a `"`, which it includes) or stops at a
/// `{`; `None` where it is not closed before the end.
pub open spec fn fpart_end(bytes: Seq<u8>, i: int) -> Option<(bool, int)>
    decreases bytes.len() - i,
{
    if i < 0 || i >= bytes.len() {
        None
    } else if bytes[i] == 92 {
        if i + 1 < bytes.len() {
            fpart_end(bytes, i + 2)
        } else {
            None
        }
    } else if bytes[i] == 34 {
        Some((true, i + 1))
    } else if bytes[i] == 123 {
        Some((false, i))
    } else {
        fpart_end(bytes, i + 1)
    }
}

/// A run stays within the bytes.
pub proof fn lemma_run_end_bounds(bytes: Seq<u8>, i: int, class: spec_fn(u8) -> bool)
    requires
        0 <= i <= bytes.len(),
    ensures
        i <= run_end(bytes, i, class) <= bytes.len(),
    decreases bytes.len() - i,
{
    if i < bytes.len() && class(bytes[i]) {
        lemma_run_end_bounds(bytes, i + 1, class);
    }
}

/// Skipping whitespace and line comments moves forward within the bytes.
pub proof fn lemma_trivia_end_bounds(bytes: Seq<u8>, i: int)
    requires
        0 <= i <= bytes.len(),
    ensures
        i <= trivia_end(bytes, i) <= bytes.len(),
    decreases bytes.len() - i,
{
    if i < bytes.len() {
        if is_space(bytes[i]) {
            lemma_trivia_end_bounds(bytes, i + 1);
        } else if bytes[i] == 47 && i + 1 < bytes.len() && bytes[i + 1] == 47 {
            lemma_line_end_bounds(bytes, i + 2);
            lemma_trivia_end_bounds(bytes, line_end(bytes, i + 2));
        }
    }
}

pub proof fn lemma_comment_end_bounds(bytes: Seq<u8>, i: int, depth: nat)
    requires
        0 <= i,
    ensures
        comment_end(bytes, i, depth) matches Some(e) ==> i < e <= bytes.len(),
    decreases bytes.len() - i,
{
    if 0 <= i < bytes.len() {
        if bytes[i] == 47 && i + 1 < bytes.len() && bytes[i + 1] == 42 {
            lemma_comment_end_bounds(bytes, i + 2, depth + 1);
        } else if bytes[i] == 42 && i + 1 < bytes.len() && bytes[i + 1] == 47 {
            if depth > 1 {
                lemma_comment_end_bounds(bytes, i + 2, (depth - 1) as nat);
            }
        } else {
            lemma_comment_end_bounds(bytes, i + 1, depth);
        }
    }
}

pub proof fn lemma_quote_end_bounds(bytes: Seq<u8>, i: int, quote: u8)
    requires
        0 <= i,
    ensures
        quote_end(bytes, i, quote) matches Some(e) ==> i < e <= bytes.len(),
    decreases bytes.len() - i,
{
    if 0 <= i < bytes.len() {
        if bytes[i] == 92 {
            if i + 1 < bytes.len() {
                lemma_quote_end_bounds(bytes, i + 2, quote);
            }
        } else if bytes[i] != quote {
            lemma_quote_end_bounds(bytes, i + 1, quote);
        }
    }
}

pub proof fn lemma_regex_close_bounds(bytes: Seq<u8>, i: int, hashes: int)
    requires
        0 <= i,
    ensures
        regex_close(bytes, i, hashes) matches Some(e) ==> i < e <= bytes.len(),
    decreases bytes.len() - i,
{
    if 0 <= i < bytes.len() {
        lemma_run_end_bounds(bytes, i + 1, |b: u8| b == 35);
        lemma_regex_close_bounds(bytes, i + 1, hashes);
    }
}

pub proof fn lemma_fpart_end_bounds(bytes: Seq<u8>, i: int)
    requires
        0 <= i,
    ensures
        fpart_end(bytes, i) matches Some((closed, e)) ==> i <= e <= bytes.len() && (closed ==> i < e),
    decreases bytes.len() - i,
{
    if 0 <= i < bytes.len() {
        if bytes[i] == 92 {
            if i + 1 < bytes.len() {
                lemma_fpart_end_bounds(bytes, i + 2);
            }
        } else if bytes[i] != 34 && bytes[i] != 123 {
            lemma_fpart_end_bounds(bytes, i + 1);
        }
    }
}

pub proof fn lemma_suffix_end_bounds(bytes: Seq<u8>, e: int, float: bool)
    requires
        0 <= e <= bytes.len(),
    ensures
        e <= suffix_end(bytes, e, float) <= bytes.len(),
{
    if e < bytes.len() {
        lemma_run_end_bounds(bytes, e + 1, |b: u8| is_digit(b));
    }
}

pub proof fn lemma_colon_count_empty(bytes: Seq<u8>, i: int, e: int)
    requires
        e <= i,
    ensures
        colon_count(bytes, i, e) == 0,
{
}

pub proof fn lemma_punct_from(bytes: Seq<u8>, p: int, j: int)
    requires
        0 <= j,
    ensures
        punct_from(bytes, p, j) matches Some(i) ==> j <= i < punct_seq().len() && punct_fits(
            bytes,
            p,
            punct_seq()[i],
        ),
    decreases punct_seq().len() - j,
{
    if j < punct_seq().len() && !punct_fits(bytes, p, punct_seq()[j]) {
        lemma_punct_from(bytes, p, j + 1);
    }
}

/// Every token the lexer reads takes at least one byte and stays within
/// the bytes.
pub proof fn lemma_scan_advances(bytes: Seq<u8>, p: int)
    requires
        0 <= p < bytes.len(),
    ensures
        p < scan(bytes, p).1 <= bytes.len(),
{
    let n = bytes.len() as int;
    let b = bytes[p];
    lemma_comment_end_bounds(bytes, p + 2, 1);
    lemma_quote_end_bounds(bytes, p + 1, b);
    lemma_run_end_bounds(bytes, p + 1, |b: u8| b == 35);
    let h = hashes_end(bytes, p + 1);
    if h + 1 <= n {
        lemma_regex_close_bounds(bytes, h + 1, h - (p + 1));
    }
    lemma_run_end_bounds(bytes, p, |b: u8| is_hex_digit(b) || b == 58);
    if v6_end(bytes, p) <= p {
        lemma_colon_count_empty(bytes, p, v6_end(bytes, p));
    }
    if is_digit(b) {
        if bytes[p] == 48 && n - p > 2 && bytes[p + 1] == 120 && is_hex_digit(bytes[p + 2]) {
            lemma_run_end_bounds(bytes, p + 3, |b: u8| is_hex_digit(b));
        } else {
            lemma_run_end_bounds(bytes, p + 1, |b: u8| is_digit(b));
            let e1 = digits_end(bytes, p + 1);
            if dot_digit(bytes, e1) {
                lemma_run_end_bounds(bytes, e1 + 1, |b: u8| is_digit(b));
                let e2 = digits_end(bytes, e1 + 1);
                lemma_suffix_end_bounds(bytes, e2, true);
                if dot_digit(bytes, e2) {
                    lemma_run_end_bounds(bytes, e2 + 1, |b: u8| is_digit(b));
                    let e3 = digits_end(bytes, e2 + 1);
                    if dot_digit(bytes, e3) {
                        lemma_run_end_bounds(bytes, e3 + 1, |b: u8| is_digit(b));
                    }
                }
            } else {
                lemma_suffix_end_bounds(bytes, e1, false);
            }
        }
    }
    lemma_run_end_bounds(bytes, p + 1, |b: u8| is_ident_continue(b));
    lemma_run_end_bounds(bytes, p + 1, |b: u8| 0x80 <= b <= 0xbf);
    lemma_punct_from(bytes, p, 0);
}

/// Whether the kind `k` is the punctuation token `t`.
pub open spec fn is_punct(k: Scan, t: Token) -> bool {
    k matches Scan::Punct(i) && 0 <= i < punct_seq().len() && punct_seq()[i] == t
}

/// How a token was read: by `scan`, as a piece of f-string text that stops
/// at a `{`, or as the last piece of an f-string.
pub enum ReadKind {
    Scanned(Scan),
    Text,
    End,
}

/// A token as the lexer reads it: its kind and its byte range.
pub struct Read {
    pub kind: ReadKind,
    pub start: int,
    pub end: int,
}

/// The tokens that the lexer reads from `pos` on, in f-string text
/// (`text`) or in code, within the interpolations `stack` (for each open
/// interpolation, innermost last, how many of its own `{` are open).
///
/// In code, whitespace and line comments are skipped and the token that
/// `scan` reads follows; an f-string start switches to its text; inside an
/// interpolation a `{` opens a brace and a `}` closes one, or, where none
/// is open, ends the interpolation and returns to the text. In text, the
/// piece up to a `{` (if not empty) is followed by the token read there,
/// which opens an interpolation if it is a `{`; the piece through the
/// closing `"` ends the f-string. Text that is never closed ends the
/// tokens.
pub open spec fn read_from(bytes: Seq<u8>, pos: int, text: bool, stack: Seq<int>) -> Seq<Read>
    decreases bytes.len() - pos,
{
    let n = bytes.len() as int;
    if pos < 0 || pos > n {
        seq![]
    } else if text {
        match fpart_end(bytes, pos) {
            None => seq![],
            Some((closed, e)) => {
                proof {
                    lemma_fpart_end_bounds(bytes, pos);
                }
                if closed {
                    seq![Read { kind: ReadKind::End, start: pos, end: e }] + read_from(bytes, e, false, stack)
                } else {
                    let piece = if e > pos {
                        seq![Read { kind: ReadKind::Text, start: pos, end: e }]
                    } else {
                        Seq::<Read>::empty()
                    };
                    let s = trivia_end(bytes, e);
                    if s >= n {
                        piece
                    } else {
                        proof {
                            lemma_trivia_end_bounds(bytes, e);
                            lemma_scan_advances(bytes, s);
                        }
                        let k = scan(bytes, s).0;
                        let e2 = scan(bytes, s).1;
                        piece + seq![Read { kind: ReadKind::Scanned(k), start: s, end: e2 }] + read_from(
                            bytes,
                            e2,
                            false,
                            if is_punct(k, Token::CurlyLeft) {
                                stack.push(0)
                            } else {
                                stack
                            },
                        )
                    }
                }
            },
        }
    } else {
        let s = trivia_end(bytes, pos);
        if s >= n {
            seq![]
        } else {
            proof {
                lemma_trivia_end_bounds(bytes, pos);
                lemma_scan_advances(bytes, s);
            }
            let k = scan(bytes, s).0;
            let e = scan(bytes, s).1;
            let last = stack.len() - 1;
            seq![Read { kind: ReadKind::Scanned(k), start: s, end: e }] + if k is FStringStart {
                read_from(bytes, e, true, stack)
            } else if stack.len() > 0 && is_punct(k, Token::CurlyLeft) {
                read_from(bytes, e, false, stack.update(last, stack[last] + 1))
            } else if stack.len() > 0 && is_punct(k, Token::CurlyRight) {
                if stack[last] == 0 {
                    read_from(bytes, e, true, stack.drop_last())
                } else {
                    read_from(bytes, e, false, stack.update(last, stack[last] - 1))
                }
            } else {
                read_from(bytes, e, false, stack)
            }
        }
    }
}

// ---------------------------------------------------------------------
// Keywords are read as keywords

/// The position of the keyword `k` in `keyword_seq`.
pub open spec fn keyword_index(k: Keyword) -> int {
    match k {
        Keyword::Accept => 0,
        Keyword::Const => 1,
        Keyword::Dep => 2,
        Keyword::Else => 3,
        Keyword::Enum => 4,
        Keyword::Filter => 5,
        Keyword::FilterMap => 6,
        Keyword::For => 7,
        Keyword::Fn => 8,
        Keyword::If => 9,
        Keyword::Import => 10,
        Keyword::In => 11,
        Keyword::Let => 12,
        Keyword::Match => 13,
        Keyword::Pkg => 14,
        Keyword::Record => 15,
        Keyword::Reject => 16,
        Keyword::Return => 17,
        Keyword::Std => 18,
        Keyword::Super => 19,
        Keyword::Test => 20,
        Keyword::While => 21,
    }
}

/// The keyword whose spelling `s` is, told apart by its length and first
/// three characters, as a position in `keyword_seq`; -1 for no keyword.
pub open spec fn spelled_keyword(s: Seq<char>) -> int {
    if s.len() == 6 && s[0] == 'a' && s[1] == 'c' && s[2] == 'c' {
        0
    } else if s.len() == 5 && s[0] == 'c' && s[1] == 'o' && s[2] == 'n' {
        1
    } else if s.len() == 3 && s[0] == 'd' && s[1] == 'e' && s[2] == 'p' {
        2
    } else if s.len() == 4 && s[0] == 'e' && s[1] == 'l' && s[2] == 's' {
        3
    } else if s.len() == 4 && s[0] == 'e' && s[1] == 'n' && s[2] == 'u' {
        4
    } else if s.len() == 6 && s[0] == 'f' && s[1] == 'i' && s[2] == 'l' {
        5
    } else if s.len() == 9 && s[0] == 'f' && s[1] == 'i' && s[2] == 'l' {
        6
    } else if s.len() == 3 && s[0] == 'f' && s[1] == 'o' && s[2] == 'r' {
        7
    } else if s.len() == 2 && s[0] == 'f' && s[1] == 'n' {
        8
    } else if s.len() == 2 && s[0] == 'i' && s[1] == 'f' {
        9
    } else if s.len() == 6 && s[0] == 'i' && s[1] == 'm' && s[2] == 'p' {
        10
    } else if s.len() == 2 && s[0] == 'i' && s[1] == 'n' {
        11
    } else if s.len() == 3 && s[0] == 'l' && s[1] == 'e' && s[2] == 't' {
        12
    } else if s.len() == 5 && s[0] == 'm' && s[1] == 'a' && s[2] == 't' {
        13
    } else if s.len() == 3 && s[0] == 'p' && s[1] == 'k' && s[2] == 'g' {
        14
    } else if s.len() == 6 && s[0] == 'r' && s[1] == 'e' && s[2] == 'c' {
        15
    } else if s.len() == 6 && s[0] == 'r' && s[1] == 'e' && s[2] == 'j' {
        16
    } else if s.len() == 6 && s[0] == 'r' && s[1] == 'e' && s[2] == 't' {
        17
    } else if s.len() == 3 && s[0] == 's' && s[1] == 't' && s[2] == 'd' {
        18
    } else if s.len() == 5 && s[0] == 's' && s[1] == 'u' && s[2] == 'p' {
        19
    } else if s.len() == 4 && s[0] == 't' && s[1] == 'e' && s[2] == 's' {
        20
    } else if s.len() == 5 && s[0] == 'w' && s[1] == 'h' && s[2] == 'i' {
        21
    } else {
        -1
    }
}

/// Every keyword is spelled with at least two lowercase ASCII letters, and
/// its spelling tells it apart from every other keyword.
proof fn lemma_keyword_spelling(k: Keyword)
    ensures
        keyword_chars(k).len() >= 2,
        forall|i: int| 0 <= i < keyword_chars(k).len() ==> 'a' <= #[trigger] keyword_chars(k)[i] <= 'z',
        0 <= keyword_index(k) < keyword_seq().len(),
        keyword_seq()[keyword_index(k)] == k,
        spelled_keyword(keyword_chars(k)) == keyword_index(k),
{
    match k {
        Keyword::Accept => {},
        Keyword::Const => {},
        Keyword::Dep => {},
        Keyword::Else => {},
        Keyword::Enum => {},
        Keyword::Filter => {},
        Keyword::FilterMap => {},
        Keyword::For => {},
        Keyword::Fn => {},
        Keyword::If => {},
        Keyword::Import => {},
        Keyword::In => {},
        Keyword::Let => {},
        Keyword::Match => {},
        Keyword::Pkg => {},
        Keyword::Record => {},
        Keyword::Reject => {},
        Keyword::Return => {},
        Keyword::Std => {},
        Keyword::Super => {},
        Keyword::Test => {},
        Keyword::While => {},
    }
}

/// ASCII spellings that encode alike are the same spelling.
proof fn lemma_ascii_encoding_injective(a: Seq<char>, b: Seq<char>)
    requires
        is_ascii_chars(a),
        is_ascii_chars(b),
        encode_utf8(a) == encode_utf8(b),
    ensures
        a == b,
{
    is_ascii_chars_encode_utf8(a);
    is_ascii_chars_encode_utf8(b);
    assert forall|i: int| 0 <= i < a.len() implies a[i] == b[i] by {
        assert(encode_utf8(a)[i] == encode_utf8(b)[i]);
    }
    assert(a =~= b);
}

/// Two keywords spelled alike are the same keyword.
proof fn lemma_keyword_spelling_injective(a: Keyword, b: Keyword)
    requires
        keyword_chars(a) == keyword_chars(b),
    ensures
        a == b,
{
    lemma_keyword_spelling(a);
    lemma_keyword_spelling(b);
}

/// The search for a keyword finds one spelled as the word wherever one
/// from position `i` on is.
proof fn lemma_keyword_from_finds(bytes: Seq<u8>, p: int, e: int, i: int, j: int)
    requires
        0 <= i <= j < keyword_seq().len(),
        encode_utf8(keyword_chars(keyword_seq()[j])) == bytes.subrange(p, e),
    ensures
        keyword_from(bytes, p, e, i) matches Some(k) && encode_utf8(keyword_chars(k)) == bytes.subrange(p, e),
    decreases j - i,
{
    if encode_utf8(keyword_chars(keyword_seq()[i])) != bytes.subrange(p, e) {
        lemma_keyword_from_finds(bytes, p, e, i + 1, j);
    }
}

/// A run without colons counts none.
proof fn lemma_no_colons(bytes: Seq<u8>, i: int, e: int)
    requires
        forall|j: int| i <= j < e ==> #[trigger] bytes[j] != 58,
    ensures
        colon_count(bytes, i, e) == 0,
    decreases e - i,
{
    if e > i {
        lemma_no_colons(bytes, i, e - 1);
    }
}

/// A word spelled as a keyword is read as that keyword, never as an
/// identifier, and the whole word is the token.
pub proof fn law_keywords_read_as_keywords(k: Keyword)
    ensures
        scan(encode_utf8(keyword_chars(k)), 0) == (Scan::Keyword(k), encode_utf8(keyword_chars(k)).len() as int),
{
    let c = keyword_chars(k);
    let w = encode_utf8(c);
    let n = w.len() as int;
    lemma_keyword_spelling(k);
    assert(is_ascii_chars(c));
    is_ascii_chars_encode_utf8(c);
    assert forall|i: int| 0 <= i < n implies 97 <= #[trigger] w[i] <= 122 by {
        assert(w[i] == c[i] as u8);
    }
    assert(hashes_end(w, 1) == 1);
    lemma_run_end_bounds(w, 0, |b: u8| is_hex_digit(b) || b == 58);
    assert forall|j: int| 0 <= j < v6_end(w, 0) implies #[trigger] w[j] != 58 by {
        assert(97 <= w[j]);
    }
    lemma_no_colons(w, 0, v6_end(w, 0));
    assert forall|j: int| 1 <= j < n implies (|b: u8| is_ident_continue(b))(#[trigger] w[j]) by {
        assert(97 <= w[j] <= 122);
    }
    lemma_run_end(w, 1, n, |b: u8| is_ident_continue(b));
    assert(w.subrange(0, n) =~= w);
    let t = token_chars(Token::Bool(true));
    let f = token_chars(Token::Bool(false));
    if spells(w, 0, n, Token::Bool(true)) {
        assert(is_ascii_chars(t));
        lemma_ascii_encoding_injective(t, c);
        assert(spelled_keyword(t) == -1);
    }
    if spells(w, 0, n, Token::Bool(false)) {
        assert(is_ascii_chars(f));
        lemma_ascii_encoding_injective(f, c);
        assert(spelled_keyword(f) == -1);
    }
    lemma_keyword_from_finds(w, 0, n, 0, keyword_index(k));
    let k2 = keyword_from(w, 0, n, 0)->Some_0;
    lemma_keyword_spelling(k2);
    assert(is_ascii_chars(keyword_chars(k2)));
    lemma_ascii_encoding_injective(keyword_chars(k2), c);
    lemma_keyword_spelling_injective(k2, k);
}

} // verus!
