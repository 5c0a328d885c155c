//! Syntax highlighting of Roto code for the terminal, based solely on the
//! lexer.

use crate::syntax::lexer::{lexed, substr};
use crate::syntax::token::Token;
use crate::syntax::scan::{
    fpart_end, is_punct, lemma_fpart_end_bounds, lemma_scan_advances, lemma_trivia_end_bounds, punct_seq, read_from,
    scan, Read, ReadKind, Scan,
};
use crate::syntax::lexer::trivia_end;
use crate::syntax::{lex, read_of, reads, token_read, tokens_ok, LexedToken};
use vstd::prelude::*;
use vstd::string::*;
use vstd::utf8::*;

verus! {

pub const BLACK: &'static str = "\x1b[0;30m";
pub const RED: &'static str = "\x1b[0;31m";
pub const GREEN: &'static str = "\x1b[0;32m";
pub const YELLOW: &'static str = "\x1b[0;33m";
pub const BLUE: &'static str = "\x1b[0;34m";
pub const PURPLE: &'static str = "\x1b[0;35m";
pub const CYAN: &'static str = "\x1b[0;36m";
pub const WHITE: &'static str = "\x1b[0;37m";
pub const GRAY: &'static str = "\x1b[38;5;248m";
pub const RESET: &'static str = "\x1b[0m";
pub const ITALIC: &'static str = "\x1b[3m";

/// The color of a token: white for identifiers, gray for punctuation,
/// delimiters and block comments, blue for keywords, green for strings,
/// characters, regexes and f-strings, purple for other literals, and red
/// for what the lexer could not read.
pub open spec fn token_color(t: Option<Token>) -> Seq<char> {
    match t {
        Some(Token::Ident(_)) => WHITE@,
        Some(Token::Keyword(_)) => BLUE@,
        Some(Token::String(_)) | Some(Token::Char(_)) | Some(Token::FStringStart) | Some(Token::FStringText(_))
        | Some(Token::FStringEnd(_)) | Some(Token::Regex(_)) | Some(Token::UnterminatedRegex(_)) => GREEN@,
        Some(Token::Integer(_, _)) | Some(Token::Float(_, _)) | Some(Token::Hex(_)) | Some(Token::Asn(_))
        | Some(Token::IpV4(_)) | Some(Token::IpV6(_)) | Some(Token::Bool(_)) => PURPLE@,
        Some(_) => GRAY@,
        None => RED@,
    }
}

fn color_of(t: Option<Token>) -> (res: &'static str)
    ensures
        res@ == token_color(t),
{
    match t {
        Some(Token::Ident(_)) => WHITE,
        Some(Token::Keyword(_)) => BLUE,
        Some(Token::String(_)) | Some(Token::Char(_)) | Some(Token::FStringStart) | Some(Token::FStringText(_))
        | Some(Token::FStringEnd(_)) | Some(Token::Regex(_)) | Some(Token::UnterminatedRegex(_)) => GREEN,
        Some(Token::Integer(_, _)) | Some(Token::Float(_, _)) | Some(Token::Hex(_)) | Some(Token::Asn(_))
        | Some(Token::IpV4(_)) | Some(Token::IpV6(_)) | Some(Token::Bool(_)) => PURPLE,
        Some(_) => GRAY,
        None => RED,
    }
}

/// A piece of highlighted code: the escape codes that color it and its
/// bytes; a reset follows it.
pub ghost struct Segment {
    pub code: Seq<char>,
    pub text: Seq<u8>,
}

/// The code that is not part of any token: gray and italic.
pub open spec fn gap_code() -> Seq<char> {
    GRAY@ + ITALIC@
}

/// The pieces of `b` from byte `e` on, with the tokens `toks` that start
/// there: before each token the code up to it, if any, then the token in
/// its color, and after the last token the rest of the code, if any.
pub open spec fn segments(b: Seq<u8>, toks: Seq<LexedToken>, e: int) -> Seq<Segment>
    decreases toks.len(),
{
    if toks.len() == 0 {
        if e < b.len() {
            seq![Segment { code: gap_code(), text: b.subrange(e, b.len() as int) }]
        } else {
            Seq::empty()
        }
    } else {
        let t = toks[0];
        let s = t.span.start as int;
        let x = t.span.end as int;
        (if s > e {
            seq![Segment { code: gap_code(), text: b.subrange(e, s) }]
        } else {
            Seq::empty()
        }) + seq![Segment { code: token_color(t.token), text: b.subrange(s, x) }] + segments(b, toks.drop_first(), x)
    }
}

/// The bytes of highlighted pieces: each piece's codes, its bytes and a
/// reset.
pub open spec fn render(segs: Seq<Segment>) -> Seq<u8>
    decreases segs.len(),
{
    if segs.len() == 0 {
        Seq::empty()
    } else {
        encode_utf8(segs[0].code) + segs[0].text + encode_utf8(RESET@) + render(segs.drop_first())
    }
}

/// The bytes of the pieces without their escape codes.
pub open spec fn plain(segs: Seq<Segment>) -> Seq<u8>
    decreases segs.len(),
{
    if segs.len() == 0 {
        Seq::empty()
    } else {
        segs[0].text + plain(segs.drop_first())
    }
}

pub proof fn lemma_single(x: Segment)
    ensures
        plain(seq![x]) == x.text,
        render(seq![x]) == encode_utf8(x.code) + x.text + encode_utf8(RESET@),
{
    assert(seq![x].drop_first() =~= Seq::<Segment>::empty());
    assert(seq![x][0] == x);
    assert(plain(Seq::<Segment>::empty()) == Seq::<u8>::empty());
    assert(render(Seq::<Segment>::empty()) == Seq::<u8>::empty());
    assert(plain(seq![x]) =~= x.text);
    assert(render(seq![x]) =~= encode_utf8(x.code) + x.text + encode_utf8(RESET@));
}

pub proof fn lemma_render_append(a: Seq<Segment>, b: Seq<Segment>)
    ensures
        render(a + b) == render(a) + render(b),
    decreases a.len(),
{
    if a.len() == 0 {
        assert(a + b =~= b);
    } else {
        assert((a + b).drop_first() =~= a.drop_first() + b);
        lemma_render_append(a.drop_first(), b);
        assert(render(a + b) =~= render(a) + render(b));
    }
}

pub proof fn lemma_plain_append(a: Seq<Segment>, b: Seq<Segment>)
    ensures
        plain(a + b) == plain(a) + plain(b),
    decreases a.len(),
{
    if a.len() == 0 {
        assert(a + b =~= b);
    } else {
        assert((a + b).drop_first() =~= a.drop_first() + b);
        lemma_plain_append(a.drop_first(), b);
        assert(plain(a + b) =~= plain(a) + plain(b));
    }
}

/// Tokens in order, each within `b` and after byte `e`.
pub open spec fn ordered_from(b: Seq<u8>, toks: Seq<LexedToken>, e: int) -> bool {
    &&& 0 <= e <= b.len()
    &&& forall|i: int| 0 <= i < toks.len() ==> e <= (#[trigger] toks[i]).span.start < toks[i].span.end <= b.len()
    &&& forall|i: int, j: int| 0 <= i < j < toks.len() ==> (#[trigger] toks[i]).span.end <= (#[trigger] toks[j]).span.start
}

/// Highlighting given tokens loses no code and adds none: the pieces of the
/// code highlighted from byte `e` on, with tokens in order after `e`, are,
/// without the escape codes that highlighting puts around them, the code
/// from `e` on.
pub proof fn law_highlight_tokens_keeps_the_code(b: Seq<u8>, toks: Seq<LexedToken>, e: int)
    requires
        ordered_from(b, toks, e),
    ensures
        plain(segments(b, toks, e)) == b.subrange(e, b.len() as int),
    decreases toks.len(),
{
    if toks.len() == 0 {
        if e < b.len() {
            lemma_single(Segment { code: gap_code(), text: b.subrange(e, b.len() as int) });
        } else {
            assert(b.subrange(e, b.len() as int) =~= Seq::<u8>::empty());
        }
    } else {
        let t = toks[0];
        let s = t.span.start as int;
        let x = t.span.end as int;
        let rest = toks.drop_first();
        assert forall|i: int| 0 <= i < rest.len() implies x <= (#[trigger] rest[i]).span.start < rest[i].span.end <= b.len() by {
            assert(rest[i] == toks[i + 1]);
        }
        assert forall|i: int, j: int| 0 <= i < j < rest.len() implies (#[trigger] rest[i]).span.end <= (#[trigger] rest[j]).span.start by {
            assert(rest[i] == toks[i + 1] && rest[j] == toks[j + 1]);
        }
        law_highlight_tokens_keeps_the_code(b, rest, x);
        let gap = if s > e {
            seq![Segment { code: gap_code(), text: b.subrange(e, s) }]
        } else {
            Seq::<Segment>::empty()
        };
        let tok = seq![Segment { code: token_color(t.token), text: b.subrange(s, x) }];
        lemma_plain_append(gap + tok, segments(b, rest, x));
        lemma_plain_append(gap, tok);
        lemma_single(Segment { code: token_color(t.token), text: b.subrange(s, x) });
        if s > e {
            lemma_single(Segment { code: gap_code(), text: b.subrange(e, s) });
        } else {
            assert(plain(gap) =~= Seq::<u8>::empty());
        }
        assert(plain(segments(b, toks, e)) =~= b.subrange(e, b.len() as int));
    }
}

/// The color of a token that the lexer read as `kind`, as `token_color`
/// gives it.
pub open spec fn read_color(kind: ReadKind) -> Seq<char> {
    match kind {
        ReadKind::Text => GREEN@,
        ReadKind::End => GREEN@,
        ReadKind::Scanned(k) => match k {
            Scan::Invalid => RED@,
            Scan::Ident => WHITE@,
            Scan::Keyword(_) => BLUE@,
            Scan::Str | Scan::Char | Scan::FStringStart | Scan::Regex | Scan::UnterminatedRegex => GREEN@,
            Scan::Float(_) | Scan::Integer(_) | Scan::Hex | Scan::Asn | Scan::IpV4 | Scan::IpV6 | Scan::Bool(_) => PURPLE@,
            Scan::Comment | Scan::Punct(_) => GRAY@,
        },
    }
}

/// The pieces of `b` from byte `e` on, with the tokens read as `rs`: as
/// `segments` gives them for the tokens themselves.
pub open spec fn read_segments(b: Seq<u8>, rs: Seq<Read>, e: int) -> Seq<Segment>
    decreases rs.len(),
{
    if rs.len() == 0 {
        if e < b.len() {
            seq![Segment { code: gap_code(), text: b.subrange(e, b.len() as int) }]
        } else {
            Seq::empty()
        }
    } else {
        let r = rs[0];
        (if r.start > e {
            seq![Segment { code: gap_code(), text: b.subrange(e, r.start) }]
        } else {
            Seq::empty()
        }) + seq![Segment { code: read_color(r.kind), text: b.subrange(r.start, r.end) }] + read_segments(
            b,
            rs.drop_first(),
            r.end,
        )
    }
}

/// A token that the lexer read has the color of the kind it was read as.
proof fn lemma_color_of_read(b: Seq<u8>, t: LexedToken)
    requires
        token_read(b, t),
    ensures
        token_color(t.token) == read_color(read_of(b, t).kind),
{
    if let Scan::Punct(i) = scan(b, t.span.start as int).0 {
        if !(t.token matches Some(Token::FStringText(_))) && !(t.token matches Some(Token::FStringEnd(_))) {
            assert(token_color(Some(punct_seq()[i])) == GRAY@);
        }
    }
}

/// The pieces of tokens that the lexer read are those of their reading.
proof fn lemma_segments_as_read(b: Seq<u8>, toks: Seq<LexedToken>, e: int)
    requires
        forall|i: int| 0 <= i < toks.len() ==> token_read(b, #[trigger] toks[i]),
    ensures
        segments(b, toks, e) == read_segments(b, reads(b, toks), e),
    decreases toks.len(),
{
    if toks.len() > 0 {
        let rest = toks.drop_first();
        assert forall|i: int| 0 <= i < rest.len() implies token_read(b, #[trigger] rest[i]) by {
            assert(rest[i] == toks[i + 1]);
        }
        lemma_segments_as_read(b, rest, toks[0].span.end as int);
        lemma_color_of_read(b, toks[0]);
        assert(reads(b, toks).drop_first() =~= reads(b, rest));
        assert(reads(b, toks)[0] == read_of(b, toks[0]));
    }
}

/// Reads in order, each within `b` and none before byte `e`.
pub open spec fn reads_ordered(b: Seq<u8>, rs: Seq<Read>, e: int) -> bool
    decreases rs.len(),
{
    if rs.len() == 0 {
        0 <= e <= b.len()
    } else {
        &&& 0 <= e <= rs[0].start < rs[0].end <= b.len()
        &&& reads_ordered(b, rs.drop_first(), rs[0].end)
    }
}

proof fn lemma_reads_ordered_cons(b: Seq<u8>, r: Read, rest: Seq<Read>, e: int)
    requires
        0 <= e <= r.start < r.end <= b.len(),
        reads_ordered(b, rest, r.end),
    ensures
        reads_ordered(b, seq![r] + rest, e),
{
    assert((seq![r] + rest)[0] == r);
    assert((seq![r] + rest).drop_first() =~= rest);
}

/// What the lexer reads from `pos` on is in order and within the code.
proof fn lemma_read_from_ordered(b: Seq<u8>, pos: int, text: bool, stack: Seq<int>)
    requires
        0 <= pos <= b.len(),
    ensures
        reads_ordered(b, read_from(b, pos, text, stack), pos),
    decreases b.len() - pos,
{
    let n = b.len() as int;
    if text {
        lemma_fpart_end_bounds(b, pos);
        if let Some((closed, e)) = fpart_end(b, pos) {
            if closed {
                lemma_read_from_ordered(b, e, false, stack);
                lemma_reads_ordered_cons(b, Read { kind: ReadKind::End, start: pos, end: e }, read_from(b, e, false, stack), pos);
            } else {
                lemma_trivia_end_bounds(b, e);
                let s = trivia_end(b, e);
                if s < n {
                    lemma_scan_advances(b, s);
                    let k = scan(b, s).0;
                    let e2 = scan(b, s).1;
                    let next = if is_punct(k, Token::CurlyLeft) {
                        stack.push(0)
                    } else {
                        stack
                    };
                    let r2 = Read { kind: ReadKind::Scanned(k), start: s, end: e2 };
                    lemma_read_from_ordered(b, e2, false, next);
                    lemma_reads_ordered_cons(b, r2, read_from(b, e2, false, next), e);
                    if e > pos {
                        let r1 = Read { kind: ReadKind::Text, start: pos, end: e };
                        lemma_reads_ordered_cons(b, r1, seq![r2] + read_from(b, e2, false, next), pos);
                        assert(seq![r1] + seq![r2] + read_from(b, e2, false, next) =~= seq![r1] + (seq![r2] + read_from(b, e2, false, next)));
                    } else {
                        assert(Seq::<Read>::empty() + seq![r2] + read_from(b, e2, false, next) =~= seq![r2] + read_from(b, e2, false, next));
                    }
                } else if e > pos {
                    let r1 = Read { kind: ReadKind::Text, start: pos, end: e };
                    assert(reads_ordered(b, Seq::<Read>::empty(), e));
                    lemma_reads_ordered_cons(b, r1, Seq::<Read>::empty(), pos);
                    assert(seq![r1] + Seq::<Read>::empty() =~= seq![r1]);
                }
            }
        }
    } else {
        lemma_trivia_end_bounds(b, pos);
        let s = trivia_end(b, pos);
        if s < n {
            lemma_scan_advances(b, s);
            let k = scan(b, s).0;
            let e = scan(b, s).1;
            let last = stack.len() - 1;
            let (t2, st2) = if k is FStringStart {
                (true, stack)
            } else if stack.len() > 0 && is_punct(k, Token::CurlyLeft) {
                (false, stack.update(last, stack[last] + 1))
            } else if stack.len() > 0 && is_punct(k, Token::CurlyRight) {
                if stack[last] == 0 {
                    (true, stack.drop_last())
                } else {
                    (false, stack.update(last, stack[last] - 1))
                }
            } else {
                (false, stack)
            };
            lemma_read_from_ordered(b, e, t2, st2);
            lemma_reads_ordered_cons(b, Read { kind: ReadKind::Scanned(k), start: s, end: e }, read_from(b, e, t2, st2), pos);
        }
    }
}

/// Without their escape codes, pieces of reads in order from `e` on are the
/// code from `e` on.
proof fn lemma_plain_read_segments(b: Seq<u8>, rs: Seq<Read>, e: int)
    requires
        reads_ordered(b, rs, e),
    ensures
        plain(read_segments(b, rs, e)) == b.subrange(e, b.len() as int),
    decreases rs.len(),
{
    if rs.len() == 0 {
        if e < b.len() {
            lemma_single(Segment { code: gap_code(), text: b.subrange(e, b.len() as int) });
        } else {
            assert(b.subrange(e, b.len() as int) =~= Seq::<u8>::empty());
        }
    } else {
        let r = rs[0];
        lemma_plain_read_segments(b, rs.drop_first(), r.end);
        let gap = if r.start > e {
            seq![Segment { code: gap_code(), text: b.subrange(e, r.start) }]
        } else {
            Seq::<Segment>::empty()
        };
        let tok = seq![Segment { code: read_color(r.kind), text: b.subrange(r.start, r.end) }];
        lemma_plain_append(gap + tok, read_segments(b, rs.drop_first(), r.end));
        lemma_plain_append(gap, tok);
        lemma_single(Segment { code: read_color(r.kind), text: b.subrange(r.start, r.end) });
        if r.start > e {
            lemma_single(Segment { code: gap_code(), text: b.subrange(e, r.start) });
        } else {
            assert(plain(gap) =~= Seq::<u8>::empty());
        }
        assert(plain(read_segments(b, rs, e)) =~= b.subrange(e, b.len() as int));
    }
}

/// Highlighting loses no code and adds none: for every source, the pieces
/// of its highlighting, without the escape codes that highlighting puts
/// around them, are the code itself.
pub proof fn law_highlight_keeps_the_code(b: Seq<u8>)
    ensures
        plain(read_segments(b, read_from(b, 0, false, seq![]), 0)) == b,
{
    lemma_read_from_ordered(b, 0, false, seq![]);
    lemma_plain_read_segments(b, read_from(b, 0, false, seq![]), 0);
    assert(b.subrange(0, b.len() as int) =~= b);
}

proof fn lemma_append_encoded(out: Seq<char>, x: Seq<char>)
    ensures
        encode_utf8(out + x) == encode_utf8(out) + encode_utf8(x),
{
    crate::syntax::lexer::lemma_encode_concat(out, x);
}

/// The rendering of the pieces from a token on: the code before it, if
/// any, the token, and the rest.
pub proof fn lemma_segment_step(b: Seq<u8>, toks: Seq<LexedToken>, e: int)
    requires
        toks.len() > 0,
    ensures
        ({
            let t = toks[0];
            let st = t.span.start as int;
            let x = t.span.end as int;
            render(segments(b, toks, e)) == (if st > e {
                encode_utf8(gap_code()) + b.subrange(e, st) + encode_utf8(RESET@)
            } else {
                Seq::empty()
            }) + (encode_utf8(token_color(t.token)) + b.subrange(st, x) + encode_utf8(RESET@)) + render(
                segments(b, toks.drop_first(), x),
            )
        }),
{
    let t = toks[0];
    let st = t.span.start as int;
    let x = t.span.end as int;
    let gap = if st > e {
        seq![Segment { code: gap_code(), text: b.subrange(e, st) }]
    } else {
        Seq::<Segment>::empty()
    };
    let tok = seq![Segment { code: token_color(t.token), text: b.subrange(st, x) }];
    let after = segments(b, toks.drop_first(), x);
    lemma_render_append(gap + tok, after);
    lemma_render_append(gap, tok);
    lemma_single(Segment { code: token_color(t.token), text: b.subrange(st, x) });
    if st > e {
        lemma_single(Segment { code: gap_code(), text: b.subrange(e, st) });
    } else {
        assert(render(gap) =~= Seq::<u8>::empty());
    }
}

/// The tokens `toks` of `b`, as the lexer gives them.
#[verifier::opaque]
pub open spec fn well_lexed(b: Seq<u8>, toks: Seq<LexedToken>, n: int) -> bool {
    tokens_ok(b, toks, n)
}

/// What highlighting needs of a token: it is a non-empty range of whole
/// characters of the code, and the tokens after it start after it.
pub proof fn lemma_token_facts(b: Seq<u8>, toks: Seq<LexedToken>, n: int, i: int)
    requires
        well_lexed(b, toks, n),
        n == b.len(),
        0 <= i < toks.len(),
    ensures
        toks[i].span.start < toks[i].span.end <= n,
        is_char_boundary(b, toks[i].span.start as int),
        is_char_boundary(b, toks[i].span.end as int),
        forall|j: int| i < j < toks.len() ==> toks[i].span.end <= (#[trigger] toks[j]).span.start,
{
    reveal(well_lexed);
    assert(lexed(b, toks[i].span.start as int, toks[i].span.end as int, toks[i].token));
}

/// One step of highlighting: after the code before token `i`, if any, and
/// the token itself, what is left to render is what follows the token.
pub proof fn lemma_highlight_step(b: Seq<u8>, toks: Seq<LexedToken>, i: int, e: int, before: Seq<u8>, after: Seq<u8>)
    requires
        0 <= i < toks.len(),
        render(segments(b, toks, 0)) == before + render(segments(b, toks.skip(i), e)),
        after == before + (if toks[i].span.start > e {
            encode_utf8(gap_code()) + b.subrange(e, toks[i].span.start as int) + encode_utf8(RESET@)
        } else {
            Seq::empty()
        }) + (encode_utf8(token_color(toks[i].token)) + b.subrange(toks[i].span.start as int, toks[i].span.end as int)
            + encode_utf8(RESET@)),
    ensures
        render(segments(b, toks, 0)) == after + render(segments(b, toks.skip(i + 1), toks[i].span.end as int)),
{
    let rest = toks.skip(i);
    assert(rest[0] == toks[i]);
    assert(rest.drop_first() =~= toks.skip(i + 1));
    lemma_segment_step(b, rest, e);
}

/// Append `text` in the color `code`, then a reset.
fn push_coded(out: &mut String, code: &str, text: &str)
    ensures
        final(out)@ == old(out)@ + code@ + text@ + RESET@,
        encode_utf8(final(out)@) == encode_utf8(old(out)@) + encode_utf8(code@) + text.spec_bytes() + encode_utf8(RESET@),
{
    let ghost before = out@;
    out.append(code);
    out.append(text);
    out.append(RESET);
    proof {
        lemma_append_encoded(before, code@);
        lemma_append_encoded(before + code@, text@);
        lemma_append_encoded(before + code@ + text@, RESET@);
    }
}

/// Highlight `s`, whose tokens are `tokens`, with ANSI escape codes.
pub fn highlight_tokens(s: &str, tokens: &Vec<LexedToken>) -> (res: String)
    requires
        tokens_ok(s.spec_bytes(), tokens@, s.spec_bytes().len() as int),
    ensures
        encode_utf8(res@) == render(segments(s.spec_bytes(), tokens@, 0)),
{
    let ghost b = s.spec_bytes();
    let n = s.as_bytes().len();
    let mut out = String::new();
    let mut last_end: usize = 0;
    let mut i: usize = 0;
    proof {
        reveal(well_lexed);
        encode_utf8_valid_utf8(s@);
        is_char_boundary_start_end_of_seq(b);
        assert(tokens@.skip(0) =~= tokens@);
        assert(encode_utf8(out@) =~= Seq::<u8>::empty());
    }
    while i < tokens.len()
        invariant
            b == s.spec_bytes(),
            n == b.len(),
            valid_utf8(b),
            is_char_boundary(b, 0),
            is_char_boundary(b, n as int),
            well_lexed(b, tokens@, n as int),
            i <= tokens@.len(),
            last_end <= n,
            is_char_boundary(b, last_end as int),
            forall|j: int| i <= j < tokens@.len() ==> last_end <= (#[trigger] tokens@[j]).span.start,
            render(segments(b, tokens@, 0)) == encode_utf8(out@) + render(segments(b, tokens@.skip(i as int), last_end as int)),
        decreases tokens@.len() - i,
    {
        let t = &tokens[i];
        let start = t.span.start;
        let end = t.span.end;
        let ghost before = out@;
        proof {
            lemma_token_facts(b, tokens@, n as int, i as int);
        }
        if start > last_end {
            out.append(GRAY);
            push_coded(&mut out, ITALIC, substr(s, last_end, start));
            proof {
                lemma_append_encoded(before, GRAY@);
                lemma_append_encoded(GRAY@, ITALIC@);
            }
        }
        let ghost mid = out@;
        push_coded(&mut out, color_of(t.token), substr(s, start, end));
        proof {
            let g = if start > last_end {
                encode_utf8(gap_code()) + b.subrange(last_end as int, start as int) + encode_utf8(RESET@)
            } else {
                Seq::<u8>::empty()
            };
            assert(encode_utf8(mid) =~= encode_utf8(before) + g);
            let tk = encode_utf8(token_color(t.token)) + b.subrange(start as int, end as int) + encode_utf8(RESET@);
            assert(encode_utf8(out@) =~= encode_utf8(before) + g + tk);
            lemma_highlight_step(b, tokens@, i as int, last_end as int, encode_utf8(before), encode_utf8(out@));
        }
        last_end = end;
        i = i + 1;
    }
    let ghost before = out@;
    proof {
        assert(tokens@.skip(i as int) =~= Seq::<LexedToken>::empty());
    }
    if last_end < n {
        out.append(GRAY);
        push_coded(&mut out, ITALIC, substr(s, last_end, n));
        proof {
            lemma_append_encoded(before, GRAY@);
            lemma_append_encoded(GRAY@, ITALIC@);
            lemma_single(Segment { code: gap_code(), text: b.subrange(last_end as int, n as int) });
        }
    } else {
        proof {
            assert(render(segments(b, Seq::<LexedToken>::empty(), last_end as int)) =~= Seq::<u8>::empty());
            assert(encode_utf8(out@) + Seq::<u8>::empty() =~= encode_utf8(out@));
        }
    }
    out
}

/// Highlight Roto code with ANSI escape codes: each token that the lexer
/// reads in the color of its kind, and what lies between tokens in gray
/// italics.
pub fn highlight(s: &str) -> (res: String)
    ensures
        encode_utf8(res@) == render(read_segments(s.spec_bytes(), read_from(s.spec_bytes(), 0, false, seq![]), 0)),
{
    let tokens = lex(s);
    proof {
        lemma_segments_as_read(s.spec_bytes(), tokens@, 0);
    }
    highlight_tokens(s, &tokens)
}

} // verus!
