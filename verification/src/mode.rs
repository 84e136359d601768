//! Blend modes and how their textual names are resolved.

use vstd::prelude::*;

verus! {

/// How a layer's colour is mixed with the colour beneath it.
#[derive(Clone, Copy, Debug, PartialEq, Eq, Structural)]
pub enum BlendMode {
    Over,
    Multiply,
    Screen,
    Add,
}

/// `c` is the lower-case ASCII letter `letter` or its upper-case form.
pub open spec fn same_letter(c: char, letter: char) -> bool {
    c as u32 == letter as u32 || (c as u32) + 32 == letter as u32
}

/// `text` spells `word`, a word of lower-case ASCII letters, in any mix of
/// upper and lower case.
pub open spec fn spells(text: Seq<char>, word: Seq<char>) -> bool {
    text.len() == word.len() && forall|i: int|
        0 <= i < word.len() ==> same_letter(#[trigger] text[i], word[i])
}

pub open spec fn word_multiply() -> Seq<char> {
    seq!['m', 'u', 'l', 't', 'i', 'p', 'l', 'y']
}

pub open spec fn word_screen() -> Seq<char> {
    seq!['s', 'c', 'r', 'e', 'e', 'n']
}

pub open spec fn word_add() -> Seq<char> {
    seq!['a', 'd', 'd']
}

pub open spec fn word_plus() -> Seq<char> {
    seq!['p', 'l', 'u', 's']
}

/// The mode that a textual name stands for. Every name that is not one of
/// the known words stands for `Over`.
pub open spec fn resolved_mode(text: Seq<char>) -> BlendMode {
    if spells(text, word_multiply()) {
        BlendMode::Multiply
    } else if spells(text, word_screen()) {
        BlendMode::Screen
    } else if spells(text, word_add()) || spells(text, word_plus()) {
        BlendMode::Add
    } else {
        BlendMode::Over
    }
}

/// The mode of a layer whose name may be absent.
pub open spec fn resolved_optional_mode(name: Option<Seq<char>>) -> BlendMode {
    match name {
        Some(text) => resolved_mode(text),
        None => BlendMode::Over,
    }
}

fn spells_word(text: &str, word: &str) -> (b: bool)
    ensures
        b == spells(text@, word@),
{
    let n: usize = word.unicode_len();
    if text.unicode_len() != n {
        return false;
    }
    let mut i: usize = 0;
    while i < n
        invariant
            n == word@.len(),
            n == text@.len(),
            i <= n,
            forall|j: int| 0 <= j < i ==> same_letter(#[trigger] text@[j], word@[j]),
        decreases n - i,
    {
        let c: char = text.get_char(i);
        let letter: char = word.get_char(i);
        if !(c as u32 == letter as u32 || (c as u32) + 32 == letter as u32) {
            return false;
        }
        i += 1;
    }
    true
}

impl BlendMode {
    /// Resolves a textual name without regard to letter case. This never
    /// fails: an unknown name gives `Over`.
    pub fn from_str(value: &str) -> (mode: BlendMode)
        ensures
            mode == resolved_mode(value@),
    {
        proof {
            reveal_strlit("multiply");
            reveal_strlit("screen");
            reveal_strlit("add");
            reveal_strlit("plus");
            assert("multiply"@ =~= word_multiply());
            assert("screen"@ =~= word_screen());
            assert("add"@ =~= word_add());
            assert("plus"@ =~= word_plus());
        }
        if spells_word(value, "multiply") {
            BlendMode::Multiply
        } else if spells_word(value, "screen") {
            BlendMode::Screen
        } else if spells_word(value, "add") || spells_word(value, "plus") {
            BlendMode::Add
        } else {
            BlendMode::Over
        }
    }
}

/// `a` and `b` are one character, or the upper- and lower-case form of one
/// ASCII letter.
pub open spec fn same_up_to_case(a: char, b: char) -> bool {
    ||| a == b
    ||| (65 <= a as u32 <= 90 && (a as u32) + 32 == b as u32)
    ||| (65 <= b as u32 <= 90 && (b as u32) + 32 == a as u32)
}

/// Two texts that agree character for character, up to the case of ASCII
/// letters.
pub open spec fn agree_up_to_case(a: Seq<char>, b: Seq<char>) -> bool {
    a.len() == b.len() && forall|i: int|
        0 <= i < a.len() ==> same_up_to_case(#[trigger] a[i], b[i])
}

/// Every character of `word` is a lower-case ASCII letter.
pub open spec fn lower_case_word(word: Seq<char>) -> bool {
    forall|i: int| 0 <= i < word.len() ==> 97 <= (#[trigger] word[i]) as u32 <= 122
}

proof fn lemma_spells_ignores_case(a: Seq<char>, b: Seq<char>, word: Seq<char>)
    requires
        agree_up_to_case(a, b),
        lower_case_word(word),
        spells(a, word),
    ensures
        spells(b, word),
{
    assert forall|i: int| 0 <= i < word.len() implies same_letter(#[trigger] b[i], word[i]) by {
        assert(same_up_to_case(a[i], b[i]));
        assert(same_letter(a[i], word[i]));
        assert(97 <= word[i] as u32 <= 122);
    }
}

proof fn lemma_known_words_are_lower_case()
    ensures
        lower_case_word(word_multiply()),
        lower_case_word(word_screen()),
        lower_case_word(word_add()),
        lower_case_word(word_plus()),
{
}

/// The case of its letters does not matter to what a name resolves to, and
/// "plus" is another name for "add".
pub proof fn lemma_mode_ignores_case(a: Seq<char>, b: Seq<char>)
    requires
        agree_up_to_case(a, b),
    ensures
        resolved_mode(a) == resolved_mode(b),
        spells(a, word_plus()) ==> resolved_mode(a) == resolved_mode(word_add()),
{
    lemma_known_words_are_lower_case();
    assert(agree_up_to_case(b, a));
    if spells(a, word_multiply()) {
        lemma_spells_ignores_case(a, b, word_multiply());
    }
    if spells(b, word_multiply()) {
        lemma_spells_ignores_case(b, a, word_multiply());
    }
    if spells(a, word_screen()) {
        lemma_spells_ignores_case(a, b, word_screen());
    }
    if spells(b, word_screen()) {
        lemma_spells_ignores_case(b, a, word_screen());
    }
    if spells(a, word_add()) {
        lemma_spells_ignores_case(a, b, word_add());
    }
    if spells(b, word_add()) {
        lemma_spells_ignores_case(b, a, word_add());
    }
    if spells(a, word_plus()) {
        lemma_spells_ignores_case(a, b, word_plus());
    }
    if spells(b, word_plus()) {
        lemma_spells_ignores_case(b, a, word_plus());
    }
    assert(spells(word_add(), word_add()));
    assert(!spells(word_add(), word_multiply()));
    assert(!spells(word_add(), word_screen()));
}

} // verus!
