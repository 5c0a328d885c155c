//! Tokens produced by the lexer

use vstd::prelude::*;
use vstd::string::*;

verus! {

#[derive(Clone, Copy, Debug, PartialEq, Eq)]
pub enum Token<'s> {
    Ident(&'s str),

    // === Punctuation ===
    AmpAmp,
    AngleLeftEq,
    AngleRightEq,
    Arrow,
    Bang,
    BangEq,
    Colon,
    Comma,
    Eq,
    EqEq,
    FatArrow,
    Hash,
    Hyphen,
    HyphenHyphen,
    Period,
    Pipe,
    PipePipe,
    Plus,
    QuestionMark,
    SemiColon,
    Slash,
    /// A possibly nested `/* ... */` block comment.
    ///
    /// Roto rejects this syntax, but retaining it as one token prevents
    /// tooling from interpreting the contents as code.
    BlockComment(&'s str),
    Star,
    Percent,
    PlusEq,
    MinusEq,
    StarEq,
    SlashEq,
    PercentEq,

    // === Delimiters ===
    AngleLeft,
    AngleRight,
    CurlyLeft,
    CurlyRight,
    RoundLeft,
    RoundRight,
    SquareLeft,
    SquareRight,

    // === Keywords ===
    Keyword(Keyword),

    // === Literals ===
    String(&'s str),
    /// A raw regex literal, including its `r` prefix and matching delimiters.
    Regex(&'s str),
    /// A raw regex literal that reaches EOF without its closing delimiter.
    UnterminatedRegex(&'s str),
    Char(&'s str),
    Integer(&'s str, &'s str),
    Float(&'s str, &'s str),
    Hex(&'s str),
    Asn(&'s str),
    IpV4(&'s str),
    IpV6(&'s str),
    Bool(bool),

    /// An f-string start token signals to the parser that an f-string is coming up
    FStringStart,

    /// Literal text before an interpolated expression in an f-string.
    FStringText(&'s str),

    /// Final literal text and the closing quote of an f-string.
    FStringEnd(&'s str),
}

#[derive(Clone, Copy, Debug, PartialEq, Eq)]
pub enum FStringToken<'s> {
    /// The final part of a string, including its closing quote.
    ///
    /// This is the token from the current position to the end of the string.
    /// For non-f-strings, this will be the entire string.
    StringEnd(&'s str),

    /// An intermediate part of an f-string, until the next `{` token.
    StringIntermediate(&'s str),
}

#[derive(Clone, Copy, Debug, PartialEq, Eq, Structural)]
pub enum Keyword {
    Accept,
    Const,
    Dep,
    Else,
    Enum,
    Filter,
    FilterMap,
    For,
    Fn,
    If,
    Import,
    In,
    Let,
    Match,
    Pkg,
    Record,
    Reject,
    Return,
    Std,
    Super,
    Test,
    While,
}

/// The canonical source spelling of a keyword.
pub open spec fn keyword_chars(k: Keyword) -> Seq<char> {
    match k {
        Keyword::Accept => seq!['a', 'c', 'c', 'e', 'p', 't'],
        Keyword::Const => seq!['c', 'o', 'n', 's', 't'],
        Keyword::Dep => seq!['d', 'e', 'p'],
        Keyword::Else => seq!['e', 'l', 's', 'e'],
        Keyword::Enum => seq!['e', 'n', 'u', 'm'],
        Keyword::Filter => seq!['f', 'i', 'l', 't', 'e', 'r'],
        Keyword::FilterMap => seq!['f', 'i', 'l', 't', 'e', 'r', 'm', 'a', 'p'],
        Keyword::For => seq!['f', 'o', 'r'],
        Keyword::Fn => seq!['f', 'n'],
        Keyword::If => seq!['i', 'f'],
        Keyword::Import => seq!['i', 'm', 'p', 'o', 'r', 't'],
        Keyword::In => seq!['i', 'n'],
        Keyword::Let => seq!['l', 'e', 't'],
        Keyword::Match => seq!['m', 'a', 't', 'c', 'h'],
        Keyword::Pkg => seq!['p', 'k', 'g'],
        Keyword::Record => seq!['r', 'e', 'c', 'o', 'r', 'd'],
        Keyword::Reject => seq!['r', 'e', 'j', 'e', 'c', 't'],
        Keyword::Return => seq!['r', 'e', 't', 'u', 'r', 'n'],
        Keyword::Std => seq!['s', 't', 'd'],
        Keyword::Super => seq!['s', 'u', 'p', 'e', 'r'],
        Keyword::Test => seq!['t', 'e', 's', 't'],
        Keyword::While => seq!['w', 'h', 'i', 'l', 'e'],
    }
}

/// The text of a token as it is displayed.
///
/// For every token but a block comment this is the token's source text.
pub open spec fn token_chars(t: Token) -> Seq<char> {
    match t {
        Token::Ident(s) => s@,
        Token::AmpAmp => seq!['&', '&'],
        Token::AngleLeftEq => seq!['<', '='],
        Token::AngleRightEq => seq!['>', '='],
        Token::Arrow => seq!['-', '>'],
        Token::Bang => seq!['!'],
        Token::BangEq => seq!['!', '='],
        Token::Colon => seq![':'],
        Token::Comma => seq![','],
        Token::Eq => seq!['='],
        Token::EqEq => seq!['=', '='],
        Token::FatArrow => seq!['=', '>'],
        Token::Hash => seq!['#'],
        Token::Hyphen => seq!['-'],
        Token::HyphenHyphen => seq!['-', '-'],
        Token::Period => seq!['.'],
        Token::Pipe => seq!['|'],
        Token::PipePipe => seq!['|', '|'],
        Token::Plus => seq!['+'],
        Token::QuestionMark => seq!['?'],
        Token::SemiColon => seq![';'],
        Token::Slash => seq!['/'],
        Token::Star => seq!['*'],
        Token::Percent => seq!['%'],
        Token::PlusEq => seq!['+', '='],
        Token::MinusEq => seq!['-', '='],
        Token::StarEq => seq!['*', '='],
        Token::SlashEq => seq!['/', '='],
        Token::PercentEq => seq!['%', '='],
        Token::AngleLeft => seq!['<'],
        Token::AngleRight => seq!['>'],
        Token::CurlyLeft => seq!['{'],
        Token::CurlyRight => seq!['}'],
        Token::RoundLeft => seq!['('],
        Token::RoundRight => seq![')'],
        Token::SquareLeft => seq!['['],
        Token::SquareRight => seq![']'],
        Token::BlockComment(_) => seq!['/', '*'],
        Token::Keyword(k) => keyword_chars(k),
        Token::String(s) => s@,
        Token::Regex(s) => s@,
        Token::UnterminatedRegex(s) => s@,
        Token::Char(s) => s@,
        Token::Integer(s, suffix) => s@ + suffix@,
        Token::Float(s, suffix) => s@ + suffix@,
        Token::Hex(s) => s@,
        Token::Asn(s) => s@,
        Token::IpV4(s) => s@,
        Token::IpV6(s) => s@,
        Token::Bool(b) => if b { seq!['t', 'r', 'u', 'e'] } else { seq!['f', 'a', 'l', 's', 'e'] },
        Token::FStringStart => seq!['f', '"'],
        Token::FStringText(s) => s@,
        Token::FStringEnd(s) => s@,
    }
}

impl<'s> Token<'s> {
    /// The text of this token as it is displayed.
    pub fn to_string(&self) -> (res: String)
        ensures
            res@ == token_chars(*self),
    {
        match self {
            Token::Ident(s) => String::from_str(s),
            Token::AmpAmp => {
                proof {
                    reveal_strlit("&&");
                }
                String::from_str("&&")
            },
            Token::AngleLeftEq => {
                proof {
                    reveal_strlit("<=");
                }
                String::from_str("<=")
            },
            Token::AngleRightEq => {
                proof {
                    reveal_strlit(">=");
                }
                String::from_str(">=")
            },
            Token::Arrow => {
                proof {
                    reveal_strlit("->");
                }
                String::from_str("->")
            },
            Token::Bang => {
                proof {
                    reveal_strlit("!");
                }
                String::from_str("!")
            },
            Token::BangEq => {
                proof {
                    reveal_strlit("!=");
                }
                String::from_str("!=")
            },
            Token::Colon => {
                proof {
                    reveal_strlit(":");
                }
                String::from_str(":")
            },
            Token::Comma => {
                proof {
                    reveal_strlit(",");
                }
                String::from_str(",")
            },
            Token::Eq => {
                proof {
                    reveal_strlit("=");
                }
                String::from_str("=")
            },
            Token::EqEq => {
                proof {
                    reveal_strlit("==");
                }
                String::from_str("==")
            },
            Token::FatArrow => {
                proof {
                    reveal_strlit("=>");
                }
                String::from_str("=>")
            },
            Token::Hash => {
                proof {
                    reveal_strlit("#");
                }
                String::from_str("#")
            },
            Token::Hyphen => {
                proof {
                    reveal_strlit("-");
                }
                String::from_str("-")
            },
            Token::HyphenHyphen => {
                proof {
                    reveal_strlit("--");
                }
                String::from_str("--")
            },
            Token::Period => {
                proof {
                    reveal_strlit(".");
                }
                String::from_str(".")
            },
            Token::Pipe => {
                proof {
                    reveal_strlit("|");
                }
                String::from_str("|")
            },
            Token::PipePipe => {
                proof {
                    reveal_strlit("||");
                }
                String::from_str("||")
            },
            Token::Plus => {
                proof {
                    reveal_strlit("+");
                }
                String::from_str("+")
            },
            Token::QuestionMark => {
                proof {
                    reveal_strlit("?");
                }
                String::from_str("?")
            },
            Token::SemiColon => {
                proof {
                    reveal_strlit(";");
                }
                String::from_str(";")
            },
            Token::Slash => {
                proof {
                    reveal_strlit("/");
                }
                String::from_str("/")
            },
            Token::Star => {
                proof {
                    reveal_strlit("*");
                }
                String::from_str("*")
            },
            Token::Percent => {
                proof {
                    reveal_strlit("%");
                }
                String::from_str("%")
            },
            Token::PlusEq => {
                proof {
                    reveal_strlit("+=");
                }
                String::from_str("+=")
            },
            Token::MinusEq => {
                proof {
                    reveal_strlit("-=");
                }
                String::from_str("-=")
            },
            Token::StarEq => {
                proof {
                    reveal_strlit("*=");
                }
                String::from_str("*=")
            },
            Token::SlashEq => {
                proof {
                    reveal_strlit("/=");
                }
                String::from_str("/=")
            },
            Token::PercentEq => {
                proof {
                    reveal_strlit("%=");
                }
                String::from_str("%=")
            },
            Token::AngleLeft => {
                proof {
                    reveal_strlit("<");
                }
                String::from_str("<")
            },
            Token::AngleRight => {
                proof {
                    reveal_strlit(">");
                }
                String::from_str(">")
            },
            Token::CurlyLeft => {
                proof {
                    reveal_strlit("{");
                }
                String::from_str("{")
            },
            Token::CurlyRight => {
                proof {
                    reveal_strlit("}");
                }
                String::from_str("}")
            },
            Token::RoundLeft => {
                proof {
                    reveal_strlit("(");
                }
                String::from_str("(")
            },
            Token::RoundRight => {
                proof {
                    reveal_strlit(")");
                }
                String::from_str(")")
            },
            Token::SquareLeft => {
                proof {
                    reveal_strlit("[");
                }
                String::from_str("[")
            },
            Token::SquareRight => {
                proof {
                    reveal_strlit("]");
                }
                String::from_str("]")
            },
            Token::BlockComment(_) => {
                proof {
                    reveal_strlit("/*");
                }
                String::from_str("/*")
            },
            Token::Keyword(k) => String::from_str(k.as_str()),
            Token::String(s) => String::from_str(s),
            Token::Regex(s) => String::from_str(s),
            Token::UnterminatedRegex(s) => String::from_str(s),
            Token::Char(s) => String::from_str(s),
            Token::Integer(s, suffix) => {
                let mut text = String::from_str(s);
                text.append(suffix);
                text
            },
            Token::Float(s, suffix) => {
                let mut text = String::from_str(s);
                text.append(suffix);
                text
            },
            Token::Hex(s) => String::from_str(s),
            Token::Asn(s) => String::from_str(s),
            Token::IpV4(s) => String::from_str(s),
            Token::IpV6(s) => String::from_str(s),
            Token::Bool(true) => {
                proof {
                    reveal_strlit("true");
                }
                String::from_str("true")
            },
            Token::Bool(false) => {
                proof {
                    reveal_strlit("false");
                }
                String::from_str("false")
            },
            Token::FStringStart => {
                proof {
                    reveal_strlit("f\"");
                }
                String::from_str("f\"")
            },
            Token::FStringText(s) => String::from_str(s),
            Token::FStringEnd(s) => String::from_str(s),
        }
    }
}

impl Keyword {
    /// Return the keyword's canonical source spelling.
    pub fn as_str(&self) -> (res: &'static str)
        ensures
            res@ == keyword_chars(*self),
    {
        match self {
            Keyword::Accept => {
                proof {
                    reveal_strlit("accept");
                }
                "accept"
            },
            Keyword::Const => {
                proof {
                    reveal_strlit("const");
                }
                "const"
            },
            Keyword::Dep => {
                proof {
                    reveal_strlit("dep");
                }
                "dep"
            },
            Keyword::Else => {
                proof {
                    reveal_strlit("else");
                }
                "else"
            },
            Keyword::Enum => {
                proof {
                    reveal_strlit("enum");
                }
                "enum"
            },
            Keyword::Filter => {
                proof {
                    reveal_strlit("filter");
                }
                "filter"
            },
            Keyword::FilterMap => {
                proof {
                    reveal_strlit("filtermap");
                }
                "filtermap"
            },
            Keyword::For => {
                proof {
                    reveal_strlit("for");
                }
                "for"
            },
            Keyword::Fn => {
                proof {
                    reveal_strlit("fn");
                }
                "fn"
            },
            Keyword::If => {
                proof {
                    reveal_strlit("if");
                }
                "if"
            },
            Keyword::Import => {
                proof {
                    reveal_strlit("import");
                }
                "import"
            },
            Keyword::In => {
                proof {
                    reveal_strlit("in");
                }
                "in"
            },
            Keyword::Let => {
                proof {
                    reveal_strlit("let");
                }
                "let"
            },
            Keyword::Match => {
                proof {
                    reveal_strlit("match");
                }
                "match"
            },
            Keyword::Pkg => {
                proof {
                    reveal_strlit("pkg");
                }
                "pkg"
            },
            Keyword::Record => {
                proof {
                    reveal_strlit("record");
                }
                "record"
            },
            Keyword::Reject => {
                proof {
                    reveal_strlit("reject");
                }
                "reject"
            },
            Keyword::Return => {
                proof {
                    reveal_strlit("return");
                }
                "return"
            },
            Keyword::Std => {
                proof {
                    reveal_strlit("std");
                }
                "std"
            },
            Keyword::Super => {
                proof {
                    reveal_strlit("super");
                }
                "super"
            },
            Keyword::Test => {
                proof {
                    reveal_strlit("test");
                }
                "test"
            },
            Keyword::While => {
                proof {
                    reveal_strlit("while");
                }
                "while"
            },
        }
    }
}

} // verus!
