use vstd::prelude::*;
use crate::text::{contains, has_substring, split_on, split_terms, string_views};

verus! {

/// Which test a search applies to each message's text.
#[derive(Clone, Copy, Debug, PartialEq, Eq, Structural)]
pub enum PredicateKind {
    /// Text that is not exactly the argument.
    AllBut,
    /// Text that holds the argument as a contiguous part.
    Exact,
    /// Text that holds every comma-separated term of the argument.
    And,
    /// Text that holds at least one comma-separated term of the argument.
    Or,
}

/// The terms of an `And` or `Or` argument: its pieces between commas, untrimmed.
pub open spec fn terms_of(argument: Seq<char>) -> Seq<Seq<char>> {
    split_on(argument, ',')
}

/// Whether a message whose text is `text` is selected by `kind` with `argument`.
pub open spec fn selects(kind: PredicateKind, argument: Seq<char>, text: Seq<char>) -> bool {
    match kind {
        PredicateKind::AllBut => text != argument,
        PredicateKind::Exact => has_substring(text, argument),
        PredicateKind::And => forall|i: int|
            0 <= i < terms_of(argument).len() ==> has_substring(text, #[trigger] terms_of(argument)[i]),
        PredicateKind::Or => exists|i: int|
            0 <= i < terms_of(argument).len() && has_substring(text, #[trigger] terms_of(argument)[i]),
    }
}

/// A predicate ready to be applied: its kind, its argument, and the argument's terms.
pub struct Matcher {
    pub kind: PredicateKind,
    pub argument: String,
    pub terms: Vec<String>,
}

impl Matcher {
    /// The terms are those of the argument.
    pub open spec fn wf(&self) -> bool {
        string_views(self.terms@) == terms_of(self.argument@)
    }

    /// The predicate of `kind` with `argument`.
    pub fn new(kind: PredicateKind, argument: String) -> (r: Matcher)
        ensures
            r.wf(),
            r.kind == kind,
            r.argument@ == argument@,
    {
        let terms = split_terms(argument.as_str());
        Matcher { kind, argument, terms }
    }

    /// Whether a message with text `text` is selected.
    pub fn is_match(&self, text: &str) -> (r: bool)
        requires
            self.wf(),
        ensures
            r == selects(self.kind, self.argument@, text@),
    {
        let ghost terms = terms_of(self.argument@);
        match self.kind {
            PredicateKind::AllBut => {
                let t = String::from_str(text);
                !(t == self.argument)
            },
            PredicateKind::Exact => contains(text, self.argument.as_str()),
            PredicateKind::And => {
                let mut i: usize = 0;
                while i < self.terms.len()
                    invariant
                        self.wf(),
                        self.kind == PredicateKind::And,
                        terms == terms_of(self.argument@),
                        i <= self.terms@.len(),
                        forall|k: int| 0 <= k < i ==> has_substring(text@, #[trigger] terms[k]),
                    decreases self.terms@.len() - i,
                {
                    assert(self.terms@[i as int]@ == terms[i as int]);
                    if !contains(text, self.terms[i].as_str()) {
                        assert(string_views(self.terms@).len() == self.terms@.len());
                        assert(!has_substring(text@, terms_of(self.argument@)[i as int]));
                        return false;
                    }
                    i = i + 1;
                }
                true
            },
            PredicateKind::Or => {
                let mut i: usize = 0;
                while i < self.terms.len()
                    invariant
                        self.wf(),
                        self.kind == PredicateKind::Or,
                        terms == terms_of(self.argument@),
                        i <= self.terms@.len(),
                        forall|k: int| 0 <= k < i ==> !has_substring(text@, #[trigger] terms[k]),
                    decreases self.terms@.len() - i,
                {
                    assert(self.terms@[i as int]@ == terms[i as int]);
                    if contains(text, self.terms[i].as_str()) {
                        assert(string_views(self.terms@).len() == self.terms@.len());
                        assert(has_substring(text@, terms_of(self.argument@)[i as int]));
                        return true;
                    }
                    i = i + 1;
                }
                false
            },
        }
    }
}

} // verus!
