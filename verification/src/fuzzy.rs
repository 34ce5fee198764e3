//! Configuration for the fuzzy word-correction helper.
//!
//! The correction engine itself is an outside collaborator that loads
//! frequency dictionaries from disk; only its configuration is modeled here.
//! A dictionary's location travels as its path text.

use vstd::prelude::*;
use vstd::string::StringExecFns;

verus! {

/// Where and how to read one frequency dictionary: the file's path, the
/// column of the word, the column of its frequency count, and the separator
/// between columns.
#[derive(Clone, Debug)]
pub struct FuzzyConfig {
    corpus: String,
    term_index: i64,
    count_index: i64,
    separator: String,
}

impl FuzzyConfig {
    /// The corpus path, as contracts see it.
    pub closed spec fn spec_corpus(&self) -> Seq<char> {
        self.corpus@
    }

    /// The word column, as contracts see it.
    pub closed spec fn spec_term_index(&self) -> i64 {
        self.term_index
    }

    /// The count column, as contracts see it.
    pub closed spec fn spec_count_index(&self) -> i64 {
        self.count_index
    }

    /// The separator, as contracts see it.
    pub closed spec fn spec_separator(&self) -> Seq<char> {
        self.separator@
    }

    pub fn new(corpus: String, term_index: i64, count_index: i64, separator: String) -> (r: Self)
        ensures
            r.spec_corpus() == corpus@,
            r.spec_term_index() == term_index,
            r.spec_count_index() == count_index,
            r.spec_separator() == separator@,
    {
        FuzzyConfig { corpus, term_index, count_index, separator }
    }

    pub fn corpus(&self) -> (r: &String)
        ensures
            r@ == self.spec_corpus(),
    {
        &self.corpus
    }

    pub fn term_index(&self) -> (r: i64)
        ensures
            r == self.spec_term_index(),
    {
        self.term_index
    }

    pub fn count_index(&self) -> (r: i64)
        ensures
            r == self.spec_count_index(),
    {
        self.count_index
    }

    pub fn separator(&self) -> (r: &String)
        ensures
            r@ == self.spec_separator(),
    {
        &self.separator
    }
}

impl PartialEq for FuzzyConfig {
    fn eq(&self, other: &Self) -> (r: bool) {
        self.corpus == other.corpus && self.term_index == other.term_index && self.count_index
            == other.count_index && self.separator == other.separator
    }
}

impl vstd::std_specs::cmp::PartialEqSpecImpl for FuzzyConfig {
    open spec fn obeys_eq_spec() -> bool {
        true
    }

    open spec fn eq_spec(&self, other: &Self) -> bool {
        self.spec_corpus() == other.spec_corpus() && self.spec_term_index()
            == other.spec_term_index() && self.spec_count_index() == other.spec_count_index()
            && self.spec_separator() == other.spec_separator()
    }
}

/// By default a dictionary of word frequencies for names: word first,
/// count second, separated by a space.
impl Default for FuzzyConfig {
    fn default() -> (r: Self)
        ensures
            r.spec_corpus() == "corpus/frequency_names.txt"@,
            r.spec_term_index() == 0,
            r.spec_count_index() == 1,
            r.spec_separator() == " "@,
    {
        FuzzyConfig::new(
            String::from_str("corpus/frequency_names.txt"),
            0,
            1,
            String::from_str(" "),
        )
    }
}

} // verus!
