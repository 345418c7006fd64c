//! The texts that the scanner gives its tokens: numeric literals in their
//! normal form, and the table of keywords.

use crate::token::TokenType;
use vstd::prelude::*;
use vstd::string::*;

verus! {

/// `s` without its leading occurrences of `c`.
pub open spec fn trim_start(s: Seq<char>, c: char) -> Seq<char>
    decreases s.len(),
{
    if s.len() > 0 && s[0] == c {
        trim_start(s.drop_first(), c)
    } else {
        s
    }
}

/// `s` without its trailing occurrences of `c`.
pub open spec fn trim_end(s: Seq<char>, c: char) -> Seq<char>
    decreases s.len(),
{
    if s.len() > 0 && s.last() == c {
        trim_end(s.drop_last(), c)
    } else {
        s
    }
}

/// The normal form of an integer literal: leading zeros are dropped. A
/// literal of zeros alone becomes the empty text, which stands for zero.
pub open spec fn normal_integer(raw: Seq<char>) -> Seq<char> {
    trim_start(raw, '0')
}

/// The normal form of a float literal: trailing zeros are dropped, then
/// the decimal points that this leaves at the end.
pub open spec fn normal_float(raw: Seq<char>) -> Seq<char> {
    trim_end(trim_end(raw, '0'), '.')
}

/// Whether a numeric literal is a float: it is one exactly if it holds a
/// decimal point anywhere.
pub open spec fn is_float(raw: Seq<char>) -> bool {
    raw.contains('.')
}

/// The keyword that `word` spells, if it spells one.
pub open spec fn keyword(word: Seq<char>) -> Option<TokenType> {
    if word == TokenType::Function.spelling() {
        Some(TokenType::Function)
    } else if word == TokenType::Let.spelling() {
        Some(TokenType::Let)
    } else if word == TokenType::True.spelling() {
        Some(TokenType::True)
    } else if word == TokenType::False.spelling() {
        Some(TokenType::False)
    } else if word == TokenType::If.spelling() {
        Some(TokenType::If)
    } else if word == TokenType::Else.spelling() {
        Some(TokenType::Else)
    } else if word == TokenType::Return.spelling() {
        Some(TokenType::Return)
    } else {
        None
    }
}

/// The part of `text` that `trim_start` keeps begins at the returned
/// position: the number of leading occurrences of `c`.
fn count_leading(text: &str, c: char) -> (n: usize)
    ensures
        n <= text@.len(),
        trim_start(text@, c) == text@.subrange(n as int, text@.len() as int),
{
    let len = text.unicode_len();
    let mut n: usize = 0;
    proof {
        assert(text@.subrange(0, len as int) =~= text@);
    }
    while n < len && text.get_char(n) == c
        invariant
            n <= len == text@.len(),
            trim_start(text@, c) == trim_start(text@.subrange(n as int, len as int), c),
        decreases len - n,
    {
        proof {
            let rest = text@.subrange(n as int, len as int);
            assert(rest.drop_first() =~= text@.subrange(n + 1, len as int));
        }
        n += 1;
    }
    n
}

/// The part of `text` that `trim_end` keeps ends at the returned position.
fn count_kept(text: &str, c: char) -> (n: usize)
    ensures
        n <= text@.len(),
        trim_end(text@, c) == text@.subrange(0, n as int),
{
    let mut n: usize = text.unicode_len();
    proof {
        assert(text@.subrange(0, n as int) =~= text@);
    }
    while n > 0 && text.get_char(n - 1) == c
        invariant
            n <= text@.len(),
            trim_end(text@, c) == trim_end(text@.subrange(0, n as int), c),
        decreases n,
    {
        proof {
            let rest = text@.subrange(0, n as int);
            assert(rest.drop_last() =~= text@.subrange(0, n - 1));
        }
        n -= 1;
    }
    n
}

/// Brings the digits of an integer literal into normal form.
pub fn normalize_integer(raw: &str) -> (text: String)
    ensures
        text@ == normal_integer(raw@),
{
    let from = count_leading(raw, '0');
    let len = raw.unicode_len();
    raw.substring_char(from, len).to_owned()
}

/// Brings the characters of a float literal into normal form.
pub fn normalize_float(raw: &str) -> (text: String)
    ensures
        text@ == normal_float(raw@),
{
    let without_zeros = raw.substring_char(0, count_kept(raw, '0'));
    without_zeros.substring_char(0, count_kept(without_zeros, '.')).to_owned()
}

/// Tests whether a numeric literal holds a decimal point.
pub fn has_decimal_point(raw: &str) -> (found: bool)
    ensures
        found == is_float(raw@),
{
    let len = raw.unicode_len();
    let mut i: usize = 0;
    while i < len
        invariant
            i <= len == raw@.len(),
            forall|j: int| 0 <= j < i ==> raw@[j] != '.',
        decreases len - i,
    {
        if raw.get_char(i) == '.' {
            return true;
        }
        i += 1;
    }
    false
}

/// Tests whether `word` is the fixed spelling of `kind`.
fn spells(word: &String, kind: TokenType) -> (same: bool)
    ensures
        same == (word@ == kind.spelling()),
{
    let spelling: String = kind.get_spelling().to_owned();
    *word == spelling
}

/// Looks `word` up in the table of keywords.
pub fn lookup_keyword(word: &str) -> (found: Option<TokenType>)
    ensures
        found == keyword(word@),
{
    let word: String = word.to_owned();
    if spells(&word, TokenType::Function) {
        Some(TokenType::Function)
    } else if spells(&word, TokenType::Let) {
        Some(TokenType::Let)
    } else if spells(&word, TokenType::True) {
        Some(TokenType::True)
    } else if spells(&word, TokenType::False) {
        Some(TokenType::False)
    } else if spells(&word, TokenType::If) {
        Some(TokenType::If)
    } else if spells(&word, TokenType::Else) {
        Some(TokenType::Else)
    } else if spells(&word, TokenType::Return) {
        Some(TokenType::Return)
    } else {
        None
    }
}

} // verus!
