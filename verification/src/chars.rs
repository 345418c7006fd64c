//! Character classes of the scanner, and maximal runs of a class.

use vstd::prelude::*;

verus! {

/// The classes of characters that the scanner consumes in runs.
#[derive(Debug, PartialEq, Eq, Structural, Clone, Copy)]
pub enum CharClass {
    /// Space, tab, line feed and carriage return.
    Whitespace,
    /// The ASCII digits.
    Digit,
    /// ASCII digits and the decimal point: what a numeric literal is made of.
    Number,
    /// ASCII letters and the underscore: what a word may start with.
    Letter,
    /// ASCII letters, digits and the underscore: what a word is made of.
    Word,
}

impl CharClass {
    /// Whether `c` belongs to the class.
    pub open spec fn contains(self, c: char) -> bool {
        match self {
            CharClass::Whitespace => c == ' ' || c == '\t' || c == '\n' || c == '\r',
            CharClass::Digit => '0' <= c <= '9',
            CharClass::Number => '0' <= c <= '9' || c == '.',
            CharClass::Letter => 'a' <= c <= 'z' || 'A' <= c <= 'Z' || c == '_',
            CharClass::Word => 'a' <= c <= 'z' || 'A' <= c <= 'Z' || c == '_' || '0' <= c <= '9',
        }
    }

    /// Tests whether `c` belongs to the class.
    pub fn has(self, c: char) -> (found: bool)
        ensures
            found == self.contains(c),
    {
        match self {
            CharClass::Whitespace => c == ' ' || c == '\t' || c == '\n' || c == '\r',
            CharClass::Digit => '0' <= c && c <= '9',
            CharClass::Number => ('0' <= c && c <= '9') || c == '.',
            CharClass::Letter => ('a' <= c && c <= 'z') || ('A' <= c && c <= 'Z') || c == '_',
            CharClass::Word => ('a' <= c && c <= 'z') || ('A' <= c && c <= 'Z') || c == '_' || (
            '0' <= c && c <= '9'),
        }
    }
}

/// Where the maximal run of characters of `class` that starts at `pos` ends:
/// the first position from `pos` on that holds no character of the class,
/// or the length of `s` where there is none.
pub open spec fn run_end(s: Seq<char>, pos: nat, class: CharClass) -> nat
    decreases s.len() - pos,
{
    if pos < s.len() && class.contains(s[pos as int]) {
        run_end(s, pos + 1, class)
    } else {
        pos
    }
}

/// A run ends at or after its start and inside the text, every character
/// of it belongs to the class, and the character after it does not.
pub proof fn lemma_run_end(s: Seq<char>, pos: nat, class: CharClass)
    requires
        pos <= s.len(),
    ensures
        pos <= run_end(s, pos, class) <= s.len(),
        forall|i: int| pos <= i < run_end(s, pos, class) ==> class.contains(#[trigger] s[i]),
        run_end(s, pos, class) < s.len() ==> !class.contains(s[run_end(s, pos, class) as int]),
    decreases s.len() - pos,
{
    if pos < s.len() && class.contains(s[pos as int]) {
        lemma_run_end(s, pos + 1, class);
    }
}

/// A position that ends a run of the class from `pos` is the end of the
/// maximal run: the three facts of `lemma_run_end` pin it down.
pub proof fn lemma_run_end_unique(s: Seq<char>, pos: nat, class: CharClass, end: nat)
    requires
        pos <= end <= s.len(),
        forall|i: int| pos <= i < end ==> class.contains(#[trigger] s[i]),
        end < s.len() ==> !class.contains(s[end as int]),
    ensures
        run_end(s, pos, class) == end,
    decreases end - pos,
{
    if pos < end {
        lemma_run_end_unique(s, pos + 1, class, end);
    }
}

} // verus!
