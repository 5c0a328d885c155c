//! Names of registered items, and the decimal text of numbers in messages.

use crate::syntax::lexer::{is_digit, is_ident_continue, is_ident_start};
use crate::syntax::token::{keyword_chars, Keyword};
use vstd::prelude::*;
use vstd::string::*;
use vstd::utf8::*;

verus! {

/// The decimal digit `d` as a character.
pub open spec fn digit_char(d: nat) -> char {
    (48 + d) as char
}

/// The decimal representation of `n`, without leading zeros.
pub open spec fn decimal_chars(n: nat) -> Seq<char>
    decreases n,
{
    if n < 10 {
        seq![digit_char(n)]
    } else {
        decimal_chars(n / 10).push(digit_char(n % 10))
    }
}

fn digit_str(d: u64) -> (res: &'static str)
    requires
        d < 10,
    ensures
        res@ == seq![digit_char(d as nat)],
{
    proof {
        reveal_strlit("0");
        reveal_strlit("1");
        reveal_strlit("2");
        reveal_strlit("3");
        reveal_strlit("4");
        reveal_strlit("5");
        reveal_strlit("6");
        reveal_strlit("7");
        reveal_strlit("8");
        reveal_strlit("9");
    }
    if d == 0 {
        "0"
    } else if d == 1 {
        "1"
    } else if d == 2 {
        "2"
    } else if d == 3 {
        "3"
    } else if d == 4 {
        "4"
    } else if d == 5 {
        "5"
    } else if d == 6 {
        "6"
    } else if d == 7 {
        "7"
    } else if d == 8 {
        "8"
    } else {
        "9"
    }
}

/// The decimal text of `n`.
pub fn decimal(n: u64) -> (res: String)
    ensures
        res@ == decimal_chars(n as nat),
    decreases n,
{
    if n < 10 {
        String::from_str(digit_str(n))
    } else {
        let mut s = decimal(n / 10);
        s.append(digit_str(n % 10));
        s
    }
}

/// Whether `s` is the spelling of a word that Roto reserves: a keyword, a
/// boolean literal or an AS number such as `AS65536`.
pub open spec fn is_reserved_word(s: Seq<u8>) -> bool {
    ||| exists|k: Keyword| encode_utf8(#[trigger] keyword_chars(k)) == s
    ||| s == encode_utf8(seq!['t', 'r', 'u', 'e'])
    ||| s == encode_utf8(seq!['f', 'a', 'l', 's', 'e'])
    ||| (s.len() >= 3 && s[0] == 65 && s[1] == 83 && forall|i: int| 2 <= i < s.len() ==> is_digit(#[trigger] s[i]))
}

/// Whether `s` is a valid Roto identifier: a letter or underscore followed
/// by letters, digits and underscores, that is no reserved word.
pub open spec fn is_valid_name(s: Seq<u8>) -> bool {
    &&& s.len() > 0
    &&& is_ident_start(s[0])
    &&& forall|i: int| 1 <= i < s.len() ==> is_ident_continue(#[trigger] s[i])
    &&& !is_reserved_word(s)
}

fn bytes_equal(a: &[u8], b: &[u8]) -> (res: bool)
    ensures
        res == (a@ == b@),
{
    if a.len() != b.len() {
        return false;
    }
    let mut i: usize = 0;
    while i < a.len()
        invariant
            i <= a@.len(),
            a@.len() == b@.len(),
            forall|j: int| 0 <= j < i ==> a@[j] == b@[j],
        decreases a@.len() - i,
    {
        if a[i] != b[i] {
            return false;
        }
        i = i + 1;
    }
    assert(a@ =~= b@);
    true
}

fn keyword_at(i: usize) -> (res: Keyword)
    requires
        i < 22,
    ensures
        keyword_index(res) == i,
{
    match i {
        0 => Keyword::Accept,
        1 => Keyword::Const,
        2 => Keyword::Dep,
        3 => Keyword::Else,
        4 => Keyword::Enum,
        5 => Keyword::Filter,
        6 => Keyword::FilterMap,
        7 => Keyword::For,
        8 => Keyword::Fn,
        9 => Keyword::If,
        10 => Keyword::Import,
        11 => Keyword::In,
        12 => Keyword::Let,
        13 => Keyword::Match,
        14 => Keyword::Pkg,
        15 => Keyword::Record,
        16 => Keyword::Reject,
        17 => Keyword::Return,
        18 => Keyword::Std,
        19 => Keyword::Super,
        20 => Keyword::Test,
        _ => Keyword::While,
    }
}

/// The position of a keyword in the list of keywords.
pub open spec fn keyword_index(k: Keyword) -> int {
    match k {
        Keyword::Accept => 0,
        Keyword::Const => 1,
        Keyword::Dep => 2,
        Keyword::Else => 3,
        Keyword::Enum => 4,
        Keyword::Filter => 5,
        Keyword::FilterMap => 6,
        Keyword::For => 7,
        Keyword::Fn => 8,
        Keyword::If => 9,
        Keyword::Import => 10,
        Keyword::In => 11,
        Keyword::Let => 12,
        Keyword::Match => 13,
        Keyword::Pkg => 14,
        Keyword::Record => 15,
        Keyword::Reject => 16,
        Keyword::Return => 17,
        Keyword::Std => 18,
        Keyword::Super => 19,
        Keyword::Test => 20,
        Keyword::While => 21,
    }
}

/// Whether `name` is a valid Roto identifier.
pub fn is_valid_name_str(name: &str) -> (res: bool)
    ensures
        res == is_valid_name(name.spec_bytes()),
{
    let b = name.as_bytes();
    let n = b.len();
    if n == 0 {
        return false;
    }
    let c = b[0];
    if !((65 <= c && c <= 90) || (97 <= c && c <= 122) || c == 95) {
        return false;
    }
    let mut i: usize = 1;
    while i < n
        invariant
            1 <= i <= n,
            n == b@.len(),
            b@ == name.spec_bytes(),
            forall|j: int| 1 <= j < i ==> is_ident_continue(#[trigger] b@[j]),
        decreases n - i,
    {
        let c = b[i];
        if !((65 <= c && c <= 90) || (97 <= c && c <= 122) || c == 95 || (48 <= c && c <= 57)) {
            assert(!is_ident_continue(b@[i as int]));
            return false;
        }
        i = i + 1;
    }
    // AS numbers
    if n >= 3 && b[0] == 65 && b[1] == 83 {
        let mut j: usize = 2;
        while j < n && 48 <= b[j] && b[j] <= 57
            invariant
                2 <= j <= n,
                n == b@.len(),
                forall|k: int| 2 <= k < j ==> is_digit(#[trigger] b@[k]),
            decreases n - j,
        {
            j = j + 1;
        }
        if j == n {
            return false;
        }
        assert(!is_digit(b@[j as int]));
    }
    let t = String::from_str("true");
    let f = String::from_str("false");
    proof {
        reveal_strlit("true");
        reveal_strlit("false");
    }
    let tb = t.as_str().as_bytes();
    let fb = f.as_str().as_bytes();
    assert(t@ =~= seq!['t', 'r', 'u', 'e']);
    assert(f@ =~= seq!['f', 'a', 'l', 's', 'e']);
    assert(tb@ == encode_utf8(seq!['t', 'r', 'u', 'e']));
    assert(fb@ == encode_utf8(seq!['f', 'a', 'l', 's', 'e']));
    if bytes_equal(b, tb) || bytes_equal(b, fb) {
        return false;
    }
    let mut k: usize = 0;
    while k < 22
        invariant
            k <= 22,
            b@ == name.spec_bytes(),
            forall|kw: Keyword| keyword_index(kw) < k ==> encode_utf8(#[trigger] keyword_chars(kw)) != b@,
        decreases 22 - k,
    {
        let kw = keyword_at(k);
        if bytes_equal(b, kw.as_str().as_bytes()) {
            return false;
        }
        k = k + 1;
    }
    assert forall|kw: Keyword| encode_utf8(#[trigger] keyword_chars(kw)) != b@ by {
        assert(keyword_index(kw) < 22);
    }
    true
}

/// No keyword, boolean literal or AS number is a valid name.
pub proof fn law_reserved_words_are_not_names(s: Seq<u8>)
    requires
        is_reserved_word(s),
    ensures
        !is_valid_name(s),
{
}

/// Every keyword is reserved.
pub proof fn law_keywords_are_reserved(k: Keyword)
    ensures
        is_reserved_word(encode_utf8(keyword_chars(k))),
        !is_valid_name(encode_utf8(keyword_chars(k))),
{
}

} // verus!
