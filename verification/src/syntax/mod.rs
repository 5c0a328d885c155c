//! Roto's target-independent syntax frontend: exact source metadata,
//! tokens, the lexer and structured parse diagnostics.

pub mod diagnostic;
pub mod lexer;
pub mod meta;
pub mod scan;
pub mod token;

use crate::syntax::lexer::{fstring_unclosed, lexed, result_token, trivia_end, Lexer};
use crate::syntax::scan::{fpart_end, is_punct, of_kind, punct_seq, read_from, scan, scanned, Read, ReadKind, Scan};
use crate::syntax::token::{FStringToken, Token};
use std::ops::Range;
use vstd::prelude::*;
use vstd::string::*;
use vstd::utf8::*;

verus! {

/// One item emitted by Roto's authoritative lexer.
#[derive(Debug, PartialEq, Eq)]
pub struct LexedToken<'source> {
    /// The token, or `None` when the lexer encountered invalid input.
    pub token: Option<Token<'source>>,
    /// The exact byte range of the token in the original source.
    pub span: Range<usize>,
}

impl<'source> Clone for LexedToken<'source> {
    fn clone(&self) -> (res: Self)
        ensures
            res == *self,
    {
        LexedToken { token: self.token, span: self.span.start..self.span.end }
    }
}

/// Token `t` is what the lexer reads where it starts: a piece of f-string
/// text runs up to the next `{` or through the closing `"`, and any other
/// token (or invalid input) is what `scan` reads there.
pub open spec fn token_read(bytes: Seq<u8>, t: LexedToken) -> bool {
    match t.token {
        Some(Token::FStringText(_)) => fpart_end(bytes, t.span.start as int) == Some(
            (false, t.span.end as int),
        ),
        Some(Token::FStringEnd(_)) => fpart_end(bytes, t.span.start as int) == Some(
            (true, t.span.end as int),
        ),
        _ => scanned(bytes, t.span.start as int, t.span.end as int, t.token),
    }
}

/// The lexed tokens `toks` of `bytes` lie before `upto`, in order and
/// without overlap; each starts and ends at a character boundary, is the
/// token for its source bytes, and is what the lexer reads where it starts.
pub open spec fn tokens_ok(bytes: Seq<u8>, toks: Seq<LexedToken>, upto: int) -> bool {
    &&& forall|i: int|
        0 <= i < toks.len() ==> {
            &&& lexed(bytes, (#[trigger] toks[i]).span.start as int, toks[i].span.end as int, toks[i].token)
            &&& is_char_boundary(bytes, toks[i].span.start as int)
            &&& toks[i].span.end <= upto
            &&& token_read(bytes, toks[i])
        }
    &&& forall|i: int, j: int|
        0 <= i < j < toks.len() ==> (#[trigger] toks[i]).span.end <= (#[trigger] toks[j]).span.start
}

/// Where the last of `toks` ends, or the start of the source.
pub open spec fn last_end(toks: Seq<LexedToken>) -> int {
    if toks.len() == 0 {
        0
    } else {
        toks.last().span.end as int
    }
}

/// A piece of the text of an f-string.
pub open spec fn is_fstring_part(t: Option<Token>) -> bool {
    t matches Some(Token::FStringText(_)) || t matches Some(Token::FStringEnd(_))
}

/// A token after which the text of an f-string continues.
pub open spec fn continues_fstring(t: Option<Token>) -> bool {
    t matches Some(Token::FStringStart) || t matches Some(Token::CurlyRight)
}

/// Token `i` starts where lexing resumes after the token before it (or the
/// start of the source): after whitespace and line comments, or, for a
/// piece of f-string text, right away.
pub open spec fn gap_ok(bytes: Seq<u8>, toks: Seq<LexedToken>, i: int) -> bool {
    let prev = if i == 0 {
        0
    } else {
        toks[i - 1].span.end as int
    };
    ||| toks[i].span.start == trivia_end(bytes, prev)
    ||| (i > 0 && is_fstring_part(toks[i].token) && toks[i].span.start == prev)
}

/// Nothing but whitespace and line comments lies before and between the
/// tokens, f-string text aside.
pub open spec fn gaps_ok(bytes: Seq<u8>, toks: Seq<LexedToken>) -> bool {
    forall|i: int| 0 <= i < toks.len() ==> gap_ok(bytes, toks, i)
}

/// After the last token there is nothing but whitespace and line comments,
/// or the text of an f-string that is never closed.
pub open spec fn end_ok(bytes: Seq<u8>, toks: Seq<LexedToken>) -> bool {
    ||| trivia_end(bytes, last_end(toks)) == bytes.len()
    ||| (toks.len() > 0 && continues_fstring(toks.last().token) && fstring_unclosed(bytes, last_end(toks)))
}

/// The state of lexing at `pos`: the tokens so far leave no gaps, and
/// lexing resumes where the last token ends, or has ended.
pub open spec fn lex_state(bytes: Seq<u8>, toks: Seq<LexedToken>, pos: int) -> bool {
    &&& gaps_ok(bytes, toks)
    &&& (pos == last_end(toks) || (pos == bytes.len() && end_ok(bytes, toks)))
}

/// How the lexer read token `t`.
pub open spec fn read_of(bytes: Seq<u8>, t: LexedToken) -> Read {
    Read {
        kind: match t.token {
            Some(Token::FStringText(_)) => ReadKind::Text,
            Some(Token::FStringEnd(_)) => ReadKind::End,
            _ => ReadKind::Scanned(scan(bytes, t.span.start as int).0),
        },
        start: t.span.start as int,
        end: t.span.end as int,
    }
}

/// How the lexer read each of `toks`.
pub open spec fn reads(bytes: Seq<u8>, toks: Seq<LexedToken>) -> Seq<Read> {
    toks.map_values(|t: LexedToken| read_of(bytes, t))
}

proof fn lemma_reads_step(bytes: Seq<u8>, toks: Seq<LexedToken>, t: LexedToken, rest: Seq<Read>, total: Seq<Read>)
    requires
        reads(bytes, toks) + (seq![read_of(bytes, t)] + rest) == total,
    ensures
        reads(bytes, toks.push(t)) + rest == total,
{
    assert(reads(bytes, toks.push(t)) =~= reads(bytes, toks).push(read_of(bytes, t)));
    assert(reads(bytes, toks).push(read_of(bytes, t)) + rest =~= reads(bytes, toks) + (seq![read_of(bytes, t)]
        + rest));
}

/// What the lexer decides on after a token depends on its kind alone.
proof fn lemma_kind_decides(tok: Option<Token>, start: int, k: Scan)
    requires
        of_kind(tok, start, k),
    ensures
        (tok == Some(Token::FStringStart)) == (k is FStringStart),
        (tok == Some(Token::CurlyLeft)) == is_punct(k, Token::CurlyLeft),
        (tok == Some(Token::CurlyRight)) == is_punct(k, Token::CurlyRight),
{
    if let Scan::Punct(i) = k {
        assert(punct_seq()[i] != Token::FStringStart);
    }
}

pub proof fn lemma_push_token(bytes: Seq<u8>, toks: Seq<LexedToken>, t: LexedToken)
    requires
        gaps_ok(bytes, toks),
        t.span.start == trivia_end(bytes, last_end(toks)) || (toks.len() > 0 && is_fstring_part(t.token)
            && t.span.start == last_end(toks)),
    ensures
        gaps_ok(bytes, toks.push(t)),
        last_end(toks.push(t)) == t.span.end,
{
    let all = toks.push(t);
    assert forall|i: int| 0 <= i < all.len() implies gap_ok(bytes, all, i) by {
        if i < toks.len() {
            assert(all[i] == toks[i]);
            assert(gap_ok(bytes, toks, i));
            if i > 0 {
                assert(all[i - 1] == toks[i - 1]);
            }
        } else {
            assert(all[i] == t);
            if i > 0 {
                assert(all[i - 1] == toks.last());
            }
        }
    }
}

/// Tokenize `source` with Roto's authoritative lexer.
///
/// The tokens are in source order and do not overlap; each span starts and
/// ends at a character boundary, each token displays as exactly its source
/// text (a block comment carries it), and each is the token of the kind and
/// extent that `scan` reads where it starts, or a piece of f-string text
/// that runs to the next `{` or through its closing quote. Only whitespace
/// and line comments lie before, between and after them, except the text of
/// f-strings, whose pieces follow one another directly, and the text of an
/// f-string that is never closed, which ends the tokens. Kind by kind and
/// span by span, the tokens are those of `read_from` from the start of the
/// source in code: which `}` ends an interpolation is fixed there.
pub fn lex(source: &str) -> (res: Vec<LexedToken<'_>>)
    ensures
        tokens_ok(source.spec_bytes(), res@, source.spec_bytes().len() as int),
        gaps_ok(source.spec_bytes(), res@),
        end_ok(source.spec_bytes(), res@),
        reads(source.spec_bytes(), res@) == read_from(source.spec_bytes(), 0, false, seq![]),
{
    let mut lexer = Lexer::new(source);
    let mut tokens: Vec<LexedToken<'_>> = Vec::new();
    let ghost bytes = source.spec_bytes();
    let ghost total = read_from(bytes, 0, false, seq![]);
    proof {
        assert(reads(bytes, tokens@) + total =~= total);
    }
    loop
        invariant
            lexer.wf(),
            lexer.src_bytes() == bytes,
            bytes == source.spec_bytes(),
            tokens_ok(bytes, tokens@, lexer.pos() as int),
            lex_state(bytes, tokens@, lexer.pos() as int),
            reads(bytes, tokens@) + read_from(bytes, lexer.pos() as int, false, seq![]) == total,
        ensures
            tokens_ok(bytes, tokens@, bytes.len() as int),
            gaps_ok(bytes, tokens@),
            end_ok(bytes, tokens@),
            reads(bytes, tokens@) == total,
        decreases lexer.remaining(),
    {
        let ghost before = tokens@;
        let ghost p0 = lexer.pos() as int;
        match lexer.next() {
            None => {
                proof {
                    if p0 == last_end(before) {
                        assert(trivia_end(bytes, last_end(before)) == bytes.len());
                    }
                    assert(read_from(bytes, p0, false, seq![]) == Seq::<Read>::empty());
                    assert(reads(bytes, before) + Seq::<Read>::empty() =~= reads(bytes, before));
                }
                break;
            },
            Some((token, span)) => {
                let token = token.ok();
                let is_f_string = matches!(token, Some(Token::FStringStart));
                let t = LexedToken { token, span };
                proof {
                    assert(trivia_end(bytes, bytes.len() as int) == bytes.len());
                    assert(p0 == last_end(before));
                    lemma_push_token(bytes, before, t);
                    let k = scan(bytes, span.start as int).0;
                    lemma_kind_decides(token, span.start as int, k);
                    let rest = if k is FStringStart {
                        read_from(bytes, span.end as int, true, seq![])
                    } else {
                        read_from(bytes, span.end as int, false, seq![])
                    };
                    assert(read_from(bytes, p0, false, seq![]) == seq![read_of(bytes, t)] + rest);
                    lemma_reads_step(bytes, before, t, rest, total);
                }
                tokens.push(t);
                if is_f_string {
                    lex_f_string(&mut lexer, &mut tokens, Ghost(Seq::empty()));
                }
            },
        }
    }
    tokens
}

/// The tokens of an f-string after its start: literal text, and the tokens
/// of each interpolated expression between its braces. `stack` holds the
/// interpolations that enclose the f-string, for the reading order alone.
fn lex_f_string<'source>(
    lexer: &mut Lexer<'source>,
    tokens: &mut Vec<LexedToken<'source>>,
    Ghost(stack): Ghost<Seq<int>>,
)
    requires
        old(lexer).wf(),
        tokens_ok(old(lexer).src_bytes(), old(tokens)@, old(lexer).pos() as int),
        gaps_ok(old(lexer).src_bytes(), old(tokens)@),
        old(lexer).pos() == last_end(old(tokens)@),
        old(tokens)@.len() > 0,
        old(tokens)@.last().token == Some(Token::FStringStart),
    ensures
        final(lexer).wf(),
        final(lexer).src_bytes() == old(lexer).src_bytes(),
        final(lexer).pos() >= old(lexer).pos(),
        tokens_ok(old(lexer).src_bytes(), final(tokens)@, final(lexer).pos() as int),
        lex_state(old(lexer).src_bytes(), final(tokens)@, final(lexer).pos() as int),
        reads(old(lexer).src_bytes(), final(tokens)@) + read_from(
            old(lexer).src_bytes(),
            final(lexer).pos() as int,
            false,
            stack,
        ) == reads(old(lexer).src_bytes(), old(tokens)@) + read_from(
            old(lexer).src_bytes(),
            old(lexer).pos() as int,
            true,
            stack,
        ),
    decreases old(lexer).remaining(),
{
    let ghost bytes = lexer.src_bytes();
    let ghost entry = lexer.pos();
    let ghost total = reads(bytes, tokens@) + read_from(bytes, entry as int, true, stack);
    proof {
        assert(trivia_end(bytes, bytes.len() as int) == bytes.len());
        assert(read_from(bytes, bytes.len() as int, false, stack) == Seq::<Read>::empty());
        assert(read_from(bytes, bytes.len() as int, true, stack) == Seq::<Read>::empty());
    }
    loop
        invariant
            lexer.wf(),
            lexer.src_bytes() == bytes,
            lexer.pos() >= entry,
            entry == old(lexer).pos(),
            bytes == old(lexer).src_bytes(),
            trivia_end(bytes, bytes.len() as int) == bytes.len(),
            read_from(bytes, bytes.len() as int, false, stack) == Seq::<Read>::empty(),
            read_from(bytes, bytes.len() as int, true, stack) == Seq::<Read>::empty(),
            total == reads(bytes, old(tokens)@) + read_from(bytes, entry as int, true, stack),
            tokens_ok(bytes, tokens@, lexer.pos() as int),
            gaps_ok(bytes, tokens@),
            (lexer.pos() == last_end(tokens@) && tokens@.len() > 0 && continues_fstring(tokens@.last().token))
                || (lexer.pos() == bytes.len() && end_ok(bytes, tokens@)),
            reads(bytes, tokens@) + read_from(bytes, lexer.pos() as int, true, stack) == total,
        decreases lexer.remaining(),
    {
        let ghost p0 = lexer.pos() as int;
        let ghost before0 = tokens@;
        let Some((part, span)) = lexer.f_string_part() else {
            proof {
                assert(read_from(bytes, p0, true, stack) == Seq::<Read>::empty());
            }
            return;
        };
        proof {
            assert(p0 == last_end(tokens@));
        }
        match part {
            FStringToken::StringEnd(text) => {
                let t = LexedToken { token: Some(Token::FStringEnd(text)), span };
                proof {
                    lemma_push_token(bytes, tokens@, t);
                    assert(read_from(bytes, p0, true, stack) == seq![read_of(bytes, t)] + read_from(
                        bytes,
                        span.end as int,
                        false,
                        stack,
                    ));
                    lemma_reads_step(bytes, tokens@, t, read_from(bytes, span.end as int, false, stack), total);
                }
                tokens.push(t);
                return;
            },
            FStringToken::StringIntermediate(text) => {
                let ghost e = span.end as int;
                let ghost s = trivia_end(bytes, e);
                let ghost after = if s >= bytes.len() {
                    Seq::<Read>::empty()
                } else {
                    let k = scan(bytes, s).0;
                    seq![Read { kind: ReadKind::Scanned(k), start: s, end: scan(bytes, s).1 }] + read_from(
                        bytes,
                        scan(bytes, s).1,
                        false,
                        if is_punct(k, Token::CurlyLeft) {
                            stack.push(0)
                        } else {
                            stack
                        },
                    )
                };
                if text.as_bytes().len() > 0 {
                    let t = LexedToken { token: Some(Token::FStringText(text)), span };
                    proof {
                        lemma_push_token(bytes, tokens@, t);
                        assert(read_from(bytes, p0, true, stack) =~= seq![read_of(bytes, t)] + after);
                        lemma_reads_step(bytes, tokens@, t, after, total);
                    }
                    tokens.push(t);
                } else {
                    proof {
                        assert(span.start == span.end);
                        assert(read_from(bytes, p0, true, stack) =~= after);
                    }
                }
                proof {
                    assert(reads(bytes, tokens@) + after == total);
                }
            },
        }

        let ghost p1 = lexer.pos() as int;
        let ghost before = tokens@;
        let Some((token, span)) = lexer.next() else {
            proof {
                assert(reads(bytes, before) + Seq::<Read>::empty() =~= reads(bytes, before));
            }
            return;
        };
        let token = token.ok();
        let is_curly = matches!(token, Some(Token::CurlyLeft));
        let t = LexedToken { token, span };
        let ghost k = scan(bytes, span.start as int).0;
        proof {
            assert(p1 == last_end(before));
            lemma_push_token(bytes, before, t);
            lemma_kind_decides(token, span.start as int, k);
            let rest = read_from(
                bytes,
                span.end as int,
                false,
                if is_punct(k, Token::CurlyLeft) {
                    stack.push(0)
                } else {
                    stack
                },
            );
            lemma_reads_step(bytes, before, t, rest, total);
        }
        tokens.push(t);
        if !is_curly {
            return;
        }

        let ghost inner = lexer.pos();
        let mut brace_depth: usize = 0;
        loop
            invariant_except_break
                reads(bytes, tokens@) + read_from(
                    bytes,
                    lexer.pos() as int,
                    false,
                    stack.push(brace_depth as int),
                ) == total,
            invariant
                lexer.wf(),
                lexer.src_bytes() == bytes,
                lexer.pos() >= inner > entry,
                entry == old(lexer).pos(),
                bytes == old(lexer).src_bytes(),
                trivia_end(bytes, bytes.len() as int) == bytes.len(),
                read_from(bytes, bytes.len() as int, true, stack) == Seq::<Read>::empty(),
                total == reads(bytes, old(tokens)@) + read_from(bytes, entry as int, true, stack),
                brace_depth <= lexer.pos() - inner,
                tokens_ok(bytes, tokens@, lexer.pos() as int),
                lex_state(bytes, tokens@, lexer.pos() as int),
            ensures
                lexer.wf(),
                lexer.src_bytes() == bytes,
                lexer.pos() >= inner > entry,
                tokens_ok(bytes, tokens@, lexer.pos() as int),
                gaps_ok(bytes, tokens@),
                (lexer.pos() == last_end(tokens@) && tokens@.len() > 0 && continues_fstring(tokens@.last().token))
                    || (lexer.pos() == bytes.len() && end_ok(bytes, tokens@)),
                reads(bytes, tokens@) + read_from(bytes, lexer.pos() as int, true, stack) == total,
            decreases lexer.remaining(),
        {
            let ghost q0 = lexer.pos() as int;
            let ghost before = tokens@;
            let ghost frame = stack.push(brace_depth as int);
            let Some((token, span)) = lexer.next() else {
                proof {
                    if q0 == last_end(before) {
                        assert(trivia_end(bytes, last_end(before)) == bytes.len());
                    }
                    assert(read_from(bytes, q0, false, frame) == Seq::<Read>::empty());
                }
                break;
            };
            let token = token.ok();
            let t = LexedToken { token, span };
            let ghost k = scan(bytes, span.start as int).0;
            let ghost e = span.end as int;
            proof {
                assert(q0 == last_end(before));
                lemma_push_token(bytes, before, t);
                lemma_kind_decides(token, span.start as int, k);
                let last = frame.len() - 1;
                assert(frame.update(last, frame[last] + 1) =~= stack.push(brace_depth + 1));
                assert(frame.update(last, frame[last] - 1) =~= stack.push(brace_depth - 1));
                assert(frame.drop_last() =~= stack);
                let rest = if k is FStringStart {
                    read_from(bytes, e, true, frame)
                } else if is_punct(k, Token::CurlyLeft) {
                    read_from(bytes, e, false, stack.push(brace_depth + 1))
                } else if is_punct(k, Token::CurlyRight) {
                    if brace_depth == 0 {
                        read_from(bytes, e, true, stack)
                    } else {
                        read_from(bytes, e, false, stack.push(brace_depth - 1))
                    }
                } else {
                    read_from(bytes, e, false, frame)
                };
                assert(read_from(bytes, q0, false, frame) == seq![read_of(bytes, t)] + rest);
                lemma_reads_step(bytes, before, t, rest, total);
            }
            tokens.push(t);
            match token {
                Some(Token::FStringStart) => {
                    lex_f_string(lexer, tokens, Ghost(stack.push(brace_depth as int)));
                },
                Some(Token::CurlyLeft) => {
                    brace_depth = brace_depth + 1;
                },
                Some(Token::CurlyRight) => {
                    if brace_depth == 0 {
                        break;
                    }
                    brace_depth = brace_depth - 1;
                },
                _ => {},
            }
        }
    }
}

} // verus!
