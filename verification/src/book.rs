//! Programs: definitions, their rules, and the log of what was reported on them.

use vstd::prelude::*;
use crate::diagnostics::{Diagnostics, EntryErrView};
use crate::name::{Name, opt_name_view};
use crate::term::{Term, TermView};

verus! {

/// The mathematical value of a [`Pattern`].
pub enum PatternView {
    Var { nam: Option<Seq<char>> },
    Num { val: u64 },
}

/// What a rule expects of one argument.
#[derive(Debug, Clone, PartialEq, Eq)]
pub enum Pattern {
    /// Any argument, bound to `nam` where there is one.
    Var { nam: Option<Name> },
    /// The number `val`.
    Num { val: u64 },
}

impl View for Pattern {
    type V = PatternView;

    open spec fn view(&self) -> PatternView {
        match self {
            Pattern::Var { nam } => PatternView::Var { nam: opt_name_view(*nam) },
            Pattern::Num { val } => PatternView::Num { val: *val },
        }
    }
}

/// The mathematical value of a [`Rule`].
pub struct RuleView {
    pub pats: Seq<PatternView>,
    pub body: TermView,
}

/// One clause of a definition: the patterns of its arguments, and its body. A rule without patterns
/// takes no arguments.
#[derive(Debug, Clone, PartialEq, Eq)]
pub struct Rule {
    pub pats: Vec<Pattern>,
    pub body: Term,
}

/// The values of the patterns of `pats`, in order.
pub open spec fn pats_view(pats: Seq<Pattern>) -> Seq<PatternView> {
    pats.map_values(|p: Pattern| p@)
}

impl View for Rule {
    type V = RuleView;

    open spec fn view(&self) -> RuleView {
        RuleView { pats: pats_view(self.pats@), body: self.body@ }
    }
}

/// The mathematical value of a [`Definition`].
pub struct DefinitionView {
    pub name: Seq<char>,
    pub rules: Seq<RuleView>,
}

/// A named function, given by its rules in order.
#[derive(Debug, Clone, PartialEq, Eq)]
pub struct Definition {
    pub name: Name,
    pub rules: Vec<Rule>,
}

/// The values of the rules of `rules`, in order.
pub open spec fn rules_view(rules: Seq<Rule>) -> Seq<RuleView> {
    rules.map_values(|r: Rule| r@)
}

impl View for Definition {
    type V = DefinitionView;

    open spec fn view(&self) -> DefinitionView {
        DefinitionView { name: self.name@, rules: rules_view(self.rules@) }
    }
}

/// The mathematical value of a [`Book`].
pub struct BookView {
    pub defs: Seq<DefinitionView>,
    pub entrypoint: Option<Seq<char>>,
    pub info: Seq<EntryErrView>,
}

/// A whole program: its definitions, the name that was configured for its entry point, if any, and
/// the errors reported on it so far.
#[derive(Debug, Clone, PartialEq, Eq)]
pub struct Book {
    pub defs: Vec<Definition>,
    pub entrypoint: Option<Name>,
    pub info: Diagnostics,
}

/// The values of the definitions of `defs`, in order.
pub open spec fn defs_view(defs: Seq<Definition>) -> Seq<DefinitionView> {
    defs.map_values(|d: Definition| d@)
}

impl View for Book {
    type V = BookView;

    open spec fn view(&self) -> BookView {
        BookView {
            defs: defs_view(self.defs@),
            entrypoint: opt_name_view(self.entrypoint),
            info: self.info@,
        }
    }
}

/// The position of the first definition of `defs` that is named `name`.
pub open spec fn position(defs: Seq<DefinitionView>, name: Seq<char>) -> Option<int>
    decreases defs.len(),
{
    if defs.len() == 0 {
        None
    } else {
        match position(defs.drop_last(), name) {
            Some(i) => Some(i),
            None => if defs.last().name == name {
                Some(defs.len() - 1)
            } else {
                None
            },
        }
    }
}

/// What is found under a name is the first definition of that name; nothing is found only where no
/// definition has the name.
pub proof fn lemma_position(defs: Seq<DefinitionView>, name: Seq<char>)
    ensures
        match position(defs, name) {
            Some(i) => {
                &&& 0 <= i < defs.len()
                &&& defs[i].name == name
                &&& forall|k: int| 0 <= k < i ==> defs[k].name != name
            },
            None => forall|k: int| 0 <= k < defs.len() ==> defs[k].name != name,
        },
    decreases defs.len(),
{
    if defs.len() > 0 {
        lemma_position(defs.drop_last(), name);
        assert(forall|k: int| 0 <= k < defs.len() - 1 ==> defs.drop_last()[k] == defs[k]);
    }
}

/// The definition at `i` is what is found under `name`, if it has that name and none before it has.
pub proof fn lemma_position_found(defs: Seq<DefinitionView>, name: Seq<char>, i: int)
    requires
        0 <= i < defs.len(),
        defs[i].name == name,
        forall|k: int| 0 <= k < i ==> defs[k].name != name,
    ensures
        position(defs, name) == Some(i),
{
    lemma_position(defs, name);
    match position(defs, name) {
        Some(j) => {
            if j < i {
                assert(defs[j].name != name);
            } else if i < j {
                assert(defs[i].name == name);
            }
        },
        None => {
            assert(defs[i].name == name);
        },
    }
}

/// Nothing is found under a name that no definition has.
pub proof fn lemma_position_absent(defs: Seq<DefinitionView>, name: Seq<char>)
    requires
        forall|k: int| 0 <= k < defs.len() ==> defs[k].name != name,
    ensures
        position(defs, name) is None,
{
    lemma_position(defs, name);
}

impl BookView {
    /// No two definitions have the same name.
    pub open spec fn wf(self) -> bool {
        forall|i: int, j: int|
            0 <= i < j < self.defs.len() ==> self.defs[i].name != self.defs[j].name
    }

    /// The definition named `name`.
    pub open spec fn get(self, name: Seq<char>) -> Option<DefinitionView> {
        match position(self.defs, name) {
            Some(i) => Some(self.defs[i]),
            None => None,
        }
    }

    /// The program with `def` as the definition of its name: in the place of the one that had the
    /// name, or after all the others where none had it.
    pub open spec fn inserted(self, def: DefinitionView) -> BookView {
        BookView {
            defs: match position(self.defs, def.name) {
                Some(i) => self.defs.update(i, def),
                None => self.defs.push(def),
            },
            entrypoint: self.entrypoint,
            info: self.info,
        }
    }
}

/// After `def` is inserted it is what its name stands for, and every other name stands for what it
/// stood for; and the names are still all different if they were.
pub proof fn lemma_inserted(book: BookView, def: DefinitionView, name: Seq<char>)
    ensures
        book.inserted(def).get(name) == if name == def.name {
            Some(def)
        } else {
            book.get(name)
        },
        book.wf() ==> book.inserted(def).wf(),
{
    let after = book.inserted(def).defs;
    lemma_position(book.defs, def.name);
    lemma_position(book.defs, name);
    match position(book.defs, def.name) {
        Some(i) => {
            match position(book.defs, name) {
                Some(k) => {
                    lemma_position_found(after, name, k);
                },
                None => {
                    lemma_position_absent(after, name);
                },
            }
        },
        None => {
            assert(after.drop_last() =~= book.defs);
        },
    }
}

/// The value of a definition that may be absent.
pub open spec fn opt_def_view(def: Option<&Definition>) -> Option<DefinitionView> {
    match def {
        Some(d) => Some(d@),
        None => None,
    }
}

impl Book {
    /// A program without definitions and without reports, with `entrypoint` as the name configured
    /// for its entry point.
    pub fn new(entrypoint: Option<Name>) -> (book: Book)
        ensures
            book@.defs.len() == 0,
            book@.entrypoint == opt_name_view(entrypoint),
            book@.info.len() == 0,
            book@.wf(),
    {
        Book { defs: Vec::new(), entrypoint, info: Diagnostics::new() }
    }

    /// The position of the definition named `name`.
    fn find(&self, name: &Name) -> (at: Option<usize>)
        ensures
            match at {
                Some(i) => position(self@.defs, name@) == Some(i as int) && i < self.defs.len(),
                None => position(self@.defs, name@) is None,
            },
    {
        let mut i: usize = 0;
        while i < self.defs.len()
            invariant
                i <= self.defs.len(),
                forall|k: int| 0 <= k < i ==> self@.defs[k].name != name@,
            decreases self.defs.len() - i,
        {
            if self.defs[i].name == *name {
                proof {
                    lemma_position_found(self@.defs, name@, i as int);
                }
                return Some(i);
            }
            i += 1;
        }
        proof {
            lemma_position_absent(self@.defs, name@);
        }
        None
    }

    /// The definition named `name`.
    pub fn get(&self, name: &Name) -> (def: Option<&Definition>)
        ensures
            opt_def_view(def) == self@.get(name@),
    {
        match self.find(name) {
            Some(i) => Some(&self.defs[i]),
            None => None,
        }
    }

    /// Makes `def` the definition of its name, and returns the one that had the name before.
    pub fn insert(&mut self, def: Definition) -> (replaced: Option<Definition>)
        ensures
            final(self)@ == old(self)@.inserted(def@),
            (match replaced {
                Some(d) => Some(d@),
                None => None,
            }) == old(self)@.get(def@.name),
            old(self)@.wf() ==> final(self)@.wf(),
    {
        proof {
            lemma_inserted(self@, def@, def@.name);
        }
        match self.find(&def.name) {
            Some(i) => {
                let mut held = def;
                std::mem::swap(&mut self.defs[i], &mut held);
                assert(self@.defs =~= old(self)@.inserted(def@).defs);
                Some(held)
            },
            None => {
                self.defs.push(def);
                assert(self@.defs =~= old(self)@.inserted(def@).defs);
                None
            },
        }
    }
}

} // verus!
