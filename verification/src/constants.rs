//! The fixed vocabulary of the language: its keywords and its special
//! symbols.

use vstd::prelude::*;

verus! {

/// The views of a list of string slices.
pub open spec fn words_view(words: Seq<&str>) -> Seq<Seq<char>> {
    Seq::new(words.len(), |i: int| words[i]@)
}

/// The keywords.
pub open spec fn keywords() -> Seq<Seq<char>> {
    seq![
        "var"@,
        "and"@,
        "or"@,
        "not"@,
        "if"@,
        "then"@,
        "else"@,
        "of"@,
        "while"@,
        "do"@,
        "begin"@,
        "end"@,
        "array"@,
        "procedure"@,
        "function"@,
        "program"@,
        "assert"@,
        "return"@,
    ]
}

/// The special symbols.
pub open spec fn special_symbols() -> Seq<Seq<char>> {
    seq![
        "+"@,
        "-"@,
        "*"@,
        "/"@,
        "%"@,
        "="@,
        "<>"@,
        "<"@,
        "<="@,
        ">="@,
        ">"@,
        "("@,
        ")"@,
        "["@,
        "]"@,
        "."@,
        ","@,
        ";"@,
        ":"@,
        ":="@,
    ]
}

/// The keywords, as text.
pub fn get_keywords<'a>() -> (words: Vec<&'a str>)
    ensures
        words_view(words@) == keywords(),
{
    let words = vec![
        "var",
        "and",
        "or",
        "not",
        "if",
        "then",
        "else",
        "of",
        "while",
        "do",
        "begin",
        "end",
        "array",
        "procedure",
        "function",
        "program",
        "assert",
        "return",
    ];
    assert(words_view(words@) =~= keywords());
    words
}

/// The special symbols, as text.
pub fn get_special_symbols<'a>() -> (words: Vec<&'a str>)
    ensures
        words_view(words@) == special_symbols(),
{
    let words = vec![
        "+",
        "-",
        "*",
        "/",
        "%",
        "=",
        "<>",
        "<",
        "<=",
        ">=",
        ">",
        "(",
        ")",
        "[",
        "]",
        ".",
        ",",
        ";",
        ":",
        ":=",
    ];
    assert(words_view(words@) =~= special_symbols());
    words
}

/// Whether the word is in the list.
pub fn contains_word(words: &Vec<&str>, word: &str) -> (found: bool)
    ensures
        found == words_view(words@).contains(word@),
{
    let mut i: usize = 0;
    while i < words.len()
        invariant
            i <= words.len(),
            forall|k: int| 0 <= k < i ==> words_view(words@)[k] != word@,
        decreases words.len() - i,
    {
        if *words[i] == *word {
            assert(words_view(words@)[i as int] == word@);
            return true;
        }
        i = i + 1;
    }
    false
}

} // verus!
