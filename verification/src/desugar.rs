//! Inlining of the named `use` bindings of a term, and of the terms of a program.

use vstd::prelude::*;
use crate::book::{Book, BookView, Definition, DefinitionView, RuleView};
use crate::name::Name;
use crate::subst::lemma_substituted_subterm;
use crate::term::{Term, TermView};
use crate::rewrite::{Pass, passed, rewrite};

verus! {

/// What a binding of `val` to `nam` within `nxt` stands for once `val` and `nxt` are themselves
/// desugared: with a name, `nxt` with `val` in place of the name; without one, the binding as it is.
pub open spec fn inlined(nam: Option<Seq<char>>, val: TermView, nxt: TermView) -> TermView {
    match nam {
        Some(n) => nxt.substituted(n, val),
        None => TermView::Use { nam: None, val: Box::new(val), nxt: Box::new(nxt) },
    }
}

impl TermView {
    /// Whether a binding with a name occurs anywhere in the term.
    pub open spec fn has_named_use(self) -> bool
        decreases self,
    {
        match self {
            TermView::Lam { bod, .. } => bod.has_named_use(),
            TermView::App { fun, arg } => fun.has_named_use() || arg.has_named_use(),
            TermView::Use { nam, val, nxt } => nam is Some || val.has_named_use() || nxt.has_named_use(),
            _ => false,
        }
    }

    /// The term with every named binding inlined, innermost first.
    pub open spec fn desugared(self) -> TermView
        decreases self,
    {
        match self {
            TermView::Lam { nam, bod } => TermView::Lam { nam, bod: Box::new(bod.desugared()) },
            TermView::App { fun, arg } => TermView::App {
                fun: Box::new(fun.desugared()),
                arg: Box::new(arg.desugared()),
            },
            TermView::Use { nam, val, nxt } => inlined(nam, val.desugared(), nxt.desugared()),
            _ => self,
        }
    }
}

/// The inlining of the named bindings, as a rewriting from the leaves up: it goes into every scope, and
/// changes the named bindings.
pub(crate) struct Inlining;

impl Pass for Inlining {
    open spec fn enters(&self, nam: Option<Seq<char>>) -> bool {
        true
    }

    open spec fn leaves(&self, node: TermView) -> TermView {
        match node {
            TermView::Use { nam, val, nxt } => inlined(nam, *val, *nxt),
            _ => node,
        }
    }

    fn enter(&self, nam: &Option<Name>) -> (goes: bool) {
        true
    }

    fn leave(&self, node: Term) -> (made: Term) {
        match node {
            Term::Use { nam: Some(n), val, nxt } => {
                let mut made = *nxt;
                made.subst(&n, &val);
                (*val).release();
                made
            },
            other => other,
        }
    }
}

proof fn lemma_passed_is_desugared(term: TermView)
    ensures
        passed(&Inlining, term) == term.desugared(),
    decreases term,
{
    match term {
        TermView::Lam { nam, bod } => {
            lemma_passed_is_desugared(*bod);
        },
        TermView::App { fun, arg } => {
            lemma_passed_is_desugared(*fun);
            lemma_passed_is_desugared(*arg);
        },
        TermView::Use { nam, val, nxt } => {
            lemma_passed_is_desugared(*val);
            lemma_passed_is_desugared(*nxt);
        },
        _ => {},
    }
}

impl Term {
    /// Inlines every named binding of the term: children first, then the binding itself, whose
    /// continuation takes its place with a copy of the value wherever the name occurred free. A
    /// binding without a name stays. The depth of the term costs no call stack.
    pub fn desugar_use(&mut self)
        ensures
            final(self)@ == old(self)@.desugared(),
            !final(self)@.has_named_use(),
    {
        proof {
            lemma_passed_is_desugared(self@);
            lemma_desugared_has_no_named_use(self@);
        }
        rewrite(self, &Inlining);
    }
}

impl DefinitionView {
    /// The definition with the body of every rule desugared.
    pub open spec fn desugared(self) -> DefinitionView {
        DefinitionView {
            name: self.name,
            rules: self.rules.map_values(
                |r: RuleView| RuleView { pats: r.pats, body: r.body.desugared() },
            ),
        }
    }

    /// Whether a binding with a name occurs in the body of a rule of the definition.
    pub open spec fn has_named_use(self) -> bool {
        exists|j: int| 0 <= j < self.rules.len() && (#[trigger] self.rules[j]).body.has_named_use()
    }
}

impl BookView {
    /// The program with the body of every rule of every definition desugared.
    pub open spec fn desugared(self) -> BookView {
        BookView {
            defs: self.defs.map_values(|d: DefinitionView| d.desugared()),
            entrypoint: self.entrypoint,
            info: self.info,
        }
    }

    /// Whether a binding with a name occurs in the body of a rule of the program.
    pub open spec fn has_named_use(self) -> bool {
        exists|i: int| 0 <= i < self.defs.len() && (#[trigger] self.defs[i]).has_named_use()
    }
}

impl Definition {
    /// Inlines every named binding in the body of every rule of the definition.
    pub fn desugar_use(&mut self)
        ensures
            final(self)@ == old(self)@.desugared(),
    {
        let mut j: usize = 0;
        while j < self.rules.len()
            invariant
                j <= self.rules.len(),
                self.name == old(self).name,
                self.rules.len() == old(self).rules.len(),
                forall|k: int|
                    0 <= k < j ==> {
                        &&& (#[trigger] self.rules[k])@.pats == old(self).rules[k]@.pats
                        &&& self.rules[k]@.body == old(self).rules[k]@.body.desugared()
                    },
                forall|k: int| j <= k < self.rules.len() ==> self.rules[k] == old(self).rules[k],
            decreases self.rules.len() - j,
        {
            self.rules[j].body.desugar_use();
            j += 1;
        }
        assert(self@.rules =~= old(self)@.desugared().rules);
    }
}

impl Book {
    /// Inlines every named binding in the body of every rule of every definition of the program.
    /// Nothing else of the program changes, and nothing is reported.
    pub fn desugar_use(&mut self)
        ensures
            final(self)@ == old(self)@.desugared(),
            !final(self)@.has_named_use(),
            old(self)@.wf() ==> final(self)@.wf(),
    {
        let mut i: usize = 0;
        while i < self.defs.len()
            invariant
                i <= self.defs.len(),
                self.defs.len() == old(self).defs.len(),
                self.entrypoint == old(self).entrypoint,
                self.info == old(self).info,
                forall|k: int|
                    0 <= k < i ==> (#[trigger] self.defs[k])@ == old(self).defs[k]@.desugared(),
                forall|k: int| i <= k < self.defs.len() ==> self.defs[k] == old(self).defs[k],
            decreases self.defs.len() - i,
        {
            self.defs[i].desugar_use();
            i += 1;
        }
        assert(self@.defs =~= old(self)@.desugared().defs);
        proof {
            lemma_desugared_book(old(self)@);
        }
    }
}

/// Substituting a term without named bindings into a term without named bindings brings none in.
pub proof fn lemma_substituted_has_no_named_use(term: TermView, from: Seq<char>, to: TermView)
    requires
        !term.has_named_use(),
        !to.has_named_use(),
    ensures
        !term.substituted(from, to).has_named_use(),
    decreases term,
{
    match term {
        TermView::Lam { nam, bod } => {
            lemma_substituted_has_no_named_use(*bod, from, to);
        },
        TermView::App { fun, arg } => {
            lemma_substituted_has_no_named_use(*fun, from, to);
            lemma_substituted_has_no_named_use(*arg, from, to);
        },
        TermView::Use { nam, val, nxt } => {
            lemma_substituted_has_no_named_use(*val, from, to);
            lemma_substituted_has_no_named_use(*nxt, from, to);
        },
        _ => {},
    }
}

/// No named binding is left anywhere in a desugared term.
pub proof fn lemma_desugared_has_no_named_use(term: TermView)
    ensures
        !term.desugared().has_named_use(),
    decreases term,
{
    match term {
        TermView::Lam { nam, bod } => {
            lemma_desugared_has_no_named_use(*bod);
        },
        TermView::App { fun, arg } => {
            lemma_desugared_has_no_named_use(*fun);
            lemma_desugared_has_no_named_use(*arg);
        },
        TermView::Use { nam, val, nxt } => {
            lemma_desugared_has_no_named_use(*val);
            lemma_desugared_has_no_named_use(*nxt);
            if let Some(n) = nam {
                lemma_substituted_has_no_named_use(nxt.desugared(), n, val.desugared());
            }
        },
        _ => {},
    }
}

/// Desugaring leaves a term without named bindings as it is.
pub proof fn lemma_desugared_without_named_use(term: TermView)
    requires
        !term.has_named_use(),
    ensures
        term.desugared() == term,
    decreases term,
{
    match term {
        TermView::Lam { nam, bod } => {
            lemma_desugared_without_named_use(*bod);
        },
        TermView::App { fun, arg } => {
            lemma_desugared_without_named_use(*fun);
            lemma_desugared_without_named_use(*arg);
        },
        TermView::Use { nam, val, nxt } => {
            lemma_desugared_without_named_use(*val);
            lemma_desugared_without_named_use(*nxt);
        },
        _ => {},
    }
}

/// Desugaring twice gives what desugaring once gives.
pub proof fn lemma_desugared_twice(term: TermView)
    ensures
        term.desugared().desugared() == term.desugared(),
{
    lemma_desugared_has_no_named_use(term);
    lemma_desugared_without_named_use(term.desugared());
}

impl TermView {
    /// Whether `path` leads to a subterm of the term without entering the value or the continuation of
    /// a named binding.
    pub open spec fn outside_named_use(self, path: Seq<int>) -> bool
        decreases path.len(),
    {
        path.len() == 0 || {
            &&& !(self matches TermView::Use { nam: Some(_), .. })
            &&& 0 <= path[0] < self.children().len()
            &&& self.children()[path[0]].outside_named_use(path.skip(1))
        }
    }
}

/// What lies outside every named binding keeps its place: there the desugared term has the desugared
/// subterm.
pub proof fn lemma_desugared_subterm(term: TermView, path: Seq<int>)
    requires
        term.outside_named_use(path),
    ensures
        term.subterm(path) is Some,
        term.desugared().subterm(path) == Some(term.subterm(path).unwrap().desugared()),
    decreases path.len(),
{
    if path.len() > 0 {
        lemma_desugared_subterm(term.children()[path[0]], path.skip(1));
        assert(term.desugared().children()[path[0]] == term.children()[path[0]].desugared());
    }
}

/// A binding without a name that lies outside every named binding stays where it is, a binding
/// without a name still, with its value and its continuation desugared. Where it holds no named
/// binding either, it stays as it is.
pub proof fn lemma_anonymous_use_stays(term: TermView, path: Seq<int>)
    requires
        term.outside_named_use(path),
        term.subterm(path) matches Some(TermView::Use { nam: None, .. }),
    ensures
        term.desugared().subterm(path) matches Some(TermView::Use { nam: None, .. }),
        term.desugared().subterm(path) == Some(term.subterm(path).unwrap().desugared()),
        !term.subterm(path).unwrap().has_named_use() ==> term.desugared().subterm(path)
            == term.subterm(path),
{
    lemma_desugared_subterm(term, path);
    if !term.subterm(path).unwrap().has_named_use() {
        lemma_desugared_without_named_use(term.subterm(path).unwrap());
    }
}

impl TermView {
    /// Whether `path` leads to a subterm of the term on a way that desugaring cannot touch `sub` on:
    /// never into the value of a named binding, and into the continuation of one only where its name
    /// does not occur free in `sub`.
    pub open spec fn spares(self, path: Seq<int>, sub: TermView) -> bool
        decreases path.len(),
    {
        path.len() == 0 || {
            &&& 0 <= path[0] < self.children().len()
            &&& self matches TermView::Use { nam: Some(n), .. } ==> path[0] == 1 && !sub.occurs_free(n)
            &&& self.children()[path[0]].spares(path.skip(1), sub)
        }
    }
}

/// A binding without a name is found in the desugared term as it was, if it holds no named binding,
/// does not lie in the value of a named binding, and no name of a named binding around it occurs free
/// in it. Returns where it is found.
pub proof fn lemma_anonymous_use_survives(term: TermView, path: Seq<int>) -> (found: Seq<int>)
    requires
        term.subterm(path) matches Some(sub) && {
            &&& sub matches TermView::Use { nam: None, .. }
            &&& !sub.has_named_use()
            &&& term.spares(path, sub)
        },
    ensures
        term.desugared().subterm(found) == term.subterm(path),
        term.desugared().contains(term.subterm(path).unwrap()),
{
    lemma_spared_subterm_survives(term, path)
}

/// Any subterm that holds no named binding, and that desugaring cannot touch on the way to it, is
/// found in the desugared term as it was.
pub proof fn lemma_spared_subterm_survives(term: TermView, path: Seq<int>) -> (found: Seq<int>)
    requires
        term.subterm(path) matches Some(sub) && !sub.has_named_use() && term.spares(path, sub),
    ensures
        term.desugared().subterm(found) == term.subterm(path),
        term.desugared().contains(term.subterm(path).unwrap()),
    decreases path.len(),
{
    let sub = term.subterm(path).unwrap();
    if path.len() == 0 {
        lemma_desugared_without_named_use(term);
        path
    } else {
        let below = lemma_spared_subterm_survives(term.children()[path[0]], path.skip(1));
        match term {
            TermView::Use { nam: Some(n), val, nxt } => {
                lemma_substituted_subterm(nxt.desugared(), n, val.desugared(), below);
                below
            },
            _ => {
                let found = seq![path[0]] + below;
                assert(found.skip(1) =~= below);
                assert(term.desugared().children()[path[0]] == term.children()[path[0]].desugared());
                found
            },
        }
    }
}

/// No named binding is left in a desugared program, and its definitions have the names they had.
pub proof fn lemma_desugared_book(book: BookView)
    ensures
        !book.desugared().has_named_use(),
        book.wf() ==> book.desugared().wf(),
{
    assert forall|i: int, j: int| 0 <= i < book.defs.len() && 0 <= j < book.defs[i].rules.len() implies
        !(#[trigger] book.desugared().defs[i].rules[j]).body.has_named_use() by {
        lemma_desugared_has_no_named_use(book.defs[i].rules[j].body);
    }
}

} // verus!
