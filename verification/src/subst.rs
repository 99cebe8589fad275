//! Substitution of a term for the free occurrences of a name.

use vstd::prelude::*;
use crate::name::Name;
use crate::term::{Term, TermView};
use crate::rewrite::{Pass, passed, rewrite};

verus! {

impl TermView {
    /// The term with every free occurrence of `from` replaced by `to`. An occurrence is free unless it
    /// lies in the body of an abstraction, or in the continuation of a binding, that binds `from`
    /// again.
    pub open spec fn substituted(self, from: Seq<char>, to: TermView) -> TermView
        decreases self,
    {
        match self {
            TermView::Var { nam } => if nam == from {
                to
            } else {
                self
            },
            TermView::Lam { nam, bod } => if nam == Some(from) {
                self
            } else {
                TermView::Lam { nam, bod: Box::new(bod.substituted(from, to)) }
            },
            TermView::App { fun, arg } => TermView::App {
                fun: Box::new(fun.substituted(from, to)),
                arg: Box::new(arg.substituted(from, to)),
            },
            TermView::Use { nam, val, nxt } => TermView::Use {
                nam,
                val: Box::new(val.substituted(from, to)),
                nxt: if nam == Some(from) {
                    nxt
                } else {
                    Box::new(nxt.substituted(from, to))
                },
            },
            _ => self,
        }
    }
}

impl TermView {
    /// Whether `name` occurs free in the term.
    pub open spec fn occurs_free(self, name: Seq<char>) -> bool
        decreases self,
    {
        match self {
            TermView::Var { nam } => nam == name,
            TermView::Lam { nam, bod } => nam != Some(name) && bod.occurs_free(name),
            TermView::App { fun, arg } => fun.occurs_free(name) || arg.occurs_free(name),
            TermView::Use { nam, val, nxt } => val.occurs_free(name) || (nam != Some(name)
                && nxt.occurs_free(name)),
            _ => false,
        }
    }
}

/// Substituting for a name that does not occur free changes nothing.
pub proof fn lemma_substituted_without_occurrence(term: TermView, from: Seq<char>, to: TermView)
    requires
        !term.occurs_free(from),
    ensures
        term.substituted(from, to) == term,
    decreases term,
{
    match term {
        TermView::Lam { nam, bod } => {
            if nam != Some(from) {
                lemma_substituted_without_occurrence(*bod, from, to);
            }
        },
        TermView::App { fun, arg } => {
            lemma_substituted_without_occurrence(*fun, from, to);
            lemma_substituted_without_occurrence(*arg, from, to);
        },
        TermView::Use { nam, val, nxt } => {
            lemma_substituted_without_occurrence(*val, from, to);
            if nam != Some(from) {
                lemma_substituted_without_occurrence(*nxt, from, to);
            }
        },
        _ => {},
    }
}

/// A subterm in which the name does not occur free is where it was after a substitution, and as it
/// was.
pub proof fn lemma_substituted_subterm(term: TermView, from: Seq<char>, to: TermView, path: Seq<int>)
    requires
        term.subterm(path) matches Some(sub) && !sub.occurs_free(from),
    ensures
        term.substituted(from, to).subterm(path) == term.subterm(path),
    decreases path.len(),
{
    if path.len() == 0 {
        lemma_substituted_without_occurrence(term, from, to);
    } else {
        let child = term.children()[path[0]];
        lemma_substituted_subterm(child, from, to, path.skip(1));
        assert(term.substituted(from, to).children()[path[0]] == child
            || term.substituted(from, to).children()[path[0]] == child.substituted(from, to));
    }
}

/// The replacement of the free occurrences of `from` by copies of `to`, as a rewriting from the leaves
/// up: it stays out of the scopes that bind `from` again, and changes the references to `from`.
pub(crate) struct Substitution<'a> {
    pub(crate) from: &'a Name,
    pub(crate) to: &'a Term,
}

impl<'a> Pass for Substitution<'a> {
    open spec fn enters(&self, nam: Option<Seq<char>>) -> bool {
        nam != Some(self.from@)
    }

    open spec fn leaves(&self, node: TermView) -> TermView {
        match node {
            TermView::Var { nam } => if nam == self.from@ {
                self.to@
            } else {
                node
            },
            _ => node,
        }
    }

    fn enter(&self, nam: &Option<Name>) -> (goes: bool) {
        match nam {
            Some(n) => !(n == self.from),
            None => true,
        }
    }

    fn leave(&self, node: Term) -> (made: Term) {
        match node {
            Term::Var { nam } => {
                if nam == *self.from {
                    self.to.clone()
                } else {
                    Term::Var { nam }
                }
            },
            other => other,
        }
    }
}

proof fn lemma_passed_is_substituted(pass: &Substitution, term: TermView)
    ensures
        passed(pass, term) == term.substituted(pass.from@, pass.to@),
    decreases term,
{
    match term {
        TermView::Lam { nam, bod } => {
            lemma_passed_is_substituted(pass, *bod);
        },
        TermView::App { fun, arg } => {
            lemma_passed_is_substituted(pass, *fun);
            lemma_passed_is_substituted(pass, *arg);
        },
        TermView::Use { nam, val, nxt } => {
            lemma_passed_is_substituted(pass, *val);
            lemma_passed_is_substituted(pass, *nxt);
        },
        _ => {},
    }
}

impl Term {
    /// Replaces every free occurrence of `from` in the term by a copy of `to`. The depth of the term
    /// costs no call stack.
    pub fn subst(&mut self, from: &Name, to: &Term)
        ensures
            final(self)@ == old(self)@.substituted(from@, to@),
    {
        let pass = Substitution { from, to };
        proof {
            lemma_passed_is_substituted(&pass, self@);
        }
        rewrite(self, &pass);
    }
}

} // verus!
