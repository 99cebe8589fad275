//! Terms, their mathematical values, and what every use of terms needs: a default, equality, copies
//! and release, none of which costs call stack in proportion to the depth of a term.

use vstd::prelude::*;
use vstd::std_specs::cmp::PartialEqSpecImpl;
use crate::name::{Name, opt_name_view};

verus! {

/// The mathematical value of a term: the same tree, with every name given by its characters.
#[allow(inconsistent_fields)]
pub enum TermView {
    Era,
    Var { nam: Seq<char> },
    Num { val: u64 },
    Lam { nam: Option<Seq<char>>, bod: Box<TermView> },
    App { fun: Box<TermView>, arg: Box<TermView> },
    Use { nam: Option<Seq<char>>, val: Box<TermView>, nxt: Box<TermView> },
}

impl TermView {
    /// The number of nodes of the term.
    pub open spec fn size(self) -> nat
        decreases self,
    {
        match self {
            TermView::Lam { bod, .. } => 1 + bod.size(),
            TermView::App { fun, arg } => 1 + fun.size() + arg.size(),
            TermView::Use { val, nxt, .. } => 1 + val.size() + nxt.size(),
            _ => 1,
        }
    }

    /// The direct subterms of the term, in order.
    pub open spec fn children(self) -> Seq<TermView> {
        match self {
            TermView::Lam { bod, .. } => seq![*bod],
            TermView::App { fun, arg } => seq![*fun, *arg],
            TermView::Use { val, nxt, .. } => seq![*val, *nxt],
            _ => seq![],
        }
    }

    /// The subterm that `path` leads to: each of its numbers says which child comes next on the way
    /// down from the term. `None` where the path leaves the term.
    pub open spec fn subterm(self, path: Seq<int>) -> Option<TermView>
        decreases path.len(),
    {
        if path.len() == 0 {
            Some(self)
        } else if 0 <= path[0] < self.children().len() {
            self.children()[path[0]].subterm(path.skip(1))
        } else {
            None
        }
    }

    /// Whether `sub` is the term or one of its subterms.
    pub open spec fn contains(self, sub: TermView) -> bool {
        exists|path: Seq<int>| self.subterm(path) == Some(sub)
    }
}

/// A program expression.
#[allow(inconsistent_fields)]
#[derive(Debug, Eq)]
pub enum Term {
    /// The erased term; also what is left behind where a term has been moved out.
    Era,
    /// A reference to a bound name.
    Var { nam: Name },
    /// A number literal.
    Num { val: u64 },
    /// An abstraction; `nam` is bound in `bod`.
    Lam { nam: Option<Name>, bod: Box<Term> },
    /// An application.
    App { fun: Box<Term>, arg: Box<Term> },
    /// A binding of `val` to `nam` within `nxt`.
    Use { nam: Option<Name>, val: Box<Term>, nxt: Box<Term> },
}

impl Term {
    /// The value of the term, node by node.
    pub open spec fn to_view(self) -> TermView
        decreases self,
    {
        match self {
            Term::Era => TermView::Era,
            Term::Var { nam } => TermView::Var { nam: nam@ },
            Term::Num { val } => TermView::Num { val },
            Term::Lam { nam, bod } => TermView::Lam {
                nam: opt_name_view(nam),
                bod: Box::new(bod.to_view()),
            },
            Term::App { fun, arg } => TermView::App {
                fun: Box::new(fun.to_view()),
                arg: Box::new(arg.to_view()),
            },
            Term::Use { nam, val, nxt } => TermView::Use {
                nam: opt_name_view(nam),
                val: Box::new(val.to_view()),
                nxt: Box::new(nxt.to_view()),
            },
        }
    }
}

impl View for Term {
    type V = TermView;

    open spec fn view(&self) -> TermView {
        self.to_view()
    }
}

impl Default for Term {
    fn default() -> (term: Term)
        ensures
            term@ == TermView::Era,
    {
        Term::Era
    }
}

/// What a copy has still to do once the subterm it is working on is copied. What is not yet copied is
/// borrowed from the term that is copied.
enum CopyFrame<'a> {
    LamBod { nam: &'a Option<Name> },
    AppFun { arg: &'a Term },
    AppArg { fun: Term },
    UseVal { nam: &'a Option<Name>, nxt: &'a Term },
    UseNxt { nam: &'a Option<Name>, val: Term },
}

spec fn copy_frame_work(frame: CopyFrame) -> nat {
    match frame {
        CopyFrame::AppFun { arg } => 3 * arg@.size() + 2,
        CopyFrame::UseVal { nxt, .. } => 3 * nxt@.size() + 2,
        _ => 1,
    }
}

spec fn copy_work(frames: Seq<CopyFrame>) -> nat
    decreases frames.len(),
{
    if frames.len() == 0 {
        0
    } else {
        copy_work(frames.drop_last()) + copy_frame_work(frames.last())
    }
}

/// The value of the whole copy, given the value `done` of the copy of the subterm that is being
/// worked on.
spec fn copy_resumed(frames: Seq<CopyFrame>, done: TermView) -> TermView
    decreases frames.len(),
{
    if frames.len() == 0 {
        done
    } else {
        let rest = frames.drop_last();
        match frames.last() {
            CopyFrame::LamBod { nam } => copy_resumed(
                rest,
                TermView::Lam { nam: opt_name_view(*nam), bod: Box::new(done) },
            ),
            CopyFrame::AppFun { arg } => copy_resumed(
                rest,
                TermView::App { fun: Box::new(done), arg: Box::new(arg@) },
            ),
            CopyFrame::AppArg { fun } => copy_resumed(
                rest,
                TermView::App { fun: Box::new(fun@), arg: Box::new(done) },
            ),
            CopyFrame::UseVal { nam, nxt } => copy_resumed(
                rest,
                TermView::Use { nam: opt_name_view(*nam), val: Box::new(done), nxt: Box::new(nxt@) },
            ),
            CopyFrame::UseNxt { nam, val } => copy_resumed(
                rest,
                TermView::Use { nam: opt_name_view(*nam), val: Box::new(val@), nxt: Box::new(done) },
            ),
        }
    }
}

proof fn lemma_copy_push(frames: Seq<CopyFrame>, frame: CopyFrame)
    ensures
        frames.push(frame).drop_last() == frames,
        frames.push(frame).last() == frame,
        copy_work(frames.push(frame)) == copy_work(frames) + copy_frame_work(frame),
{
    assert(frames.push(frame).drop_last() =~= frames);
}

fn copy_of_name(nam: &Option<Name>) -> (copy: Option<Name>)
    ensures
        opt_name_view(copy) == opt_name_view(*nam),
{
    match nam {
        Some(n) => Some(n.clone()),
        None => None,
    }
}

impl Clone for Term {
    /// A copy that shares nothing with the term. The depth of the term costs no call stack.
    fn clone(&self) -> (copy: Term)
        ensures
            copy@ == self@,
    {
        let mut src: &Term = self;
        let mut built = Term::Era;
        let mut stack: Vec<CopyFrame> = Vec::new();
        let mut descending = true;
        let mut finished = false;
        while !finished
            invariant
                !finished ==> self@ == copy_resumed(
                    stack@,
                    if descending {
                        src@
                    } else {
                        built@
                    },
                ),
                finished ==> built@ == self@,
            decreases
                copy_work(stack@) + (if descending {
                    3 * src@.size()
                } else {
                    0
                }) + (if finished {
                    0nat
                } else {
                    1nat
                }),
        {
            if descending {
                match src {
                    Term::Era => {
                        built = Term::Era;
                        descending = false;
                    },
                    Term::Var { nam } => {
                        built = Term::Var { nam: nam.clone() };
                        descending = false;
                    },
                    Term::Num { val } => {
                        built = Term::Num { val: *val };
                        descending = false;
                    },
                    Term::Lam { nam, bod } => {
                        proof {
                            lemma_copy_push(stack@, CopyFrame::LamBod { nam });
                        }
                        stack.push(CopyFrame::LamBod { nam });
                        src = &**bod;
                    },
                    Term::App { fun, arg } => {
                        proof {
                            lemma_copy_push(stack@, CopyFrame::AppFun { arg: &**arg });
                        }
                        stack.push(CopyFrame::AppFun { arg: &**arg });
                        src = &**fun;
                    },
                    Term::Use { nam, val, nxt } => {
                        proof {
                            lemma_copy_push(stack@, CopyFrame::UseVal { nam, nxt: &**nxt });
                        }
                        stack.push(CopyFrame::UseVal { nam, nxt: &**nxt });
                        src = &**val;
                    },
                }
            } else {
                match stack.pop() {
                    None => {
                        finished = true;
                    },
                    Some(CopyFrame::LamBod { nam }) => {
                        built = Term::Lam { nam: copy_of_name(nam), bod: Box::new(built) };
                    },
                    Some(CopyFrame::AppFun { arg }) => {
                        proof {
                            lemma_copy_push(stack@, CopyFrame::AppArg { fun: built });
                        }
                        stack.push(CopyFrame::AppArg { fun: built });
                        built = Term::Era;
                        src = arg;
                        descending = true;
                    },
                    Some(CopyFrame::AppArg { fun }) => {
                        built = Term::App { fun: Box::new(fun), arg: Box::new(built) };
                    },
                    Some(CopyFrame::UseVal { nam, nxt }) => {
                        proof {
                            lemma_copy_push(stack@, CopyFrame::UseNxt { nam, val: built });
                        }
                        stack.push(CopyFrame::UseNxt { nam, val: built });
                        built = Term::Era;
                        src = nxt;
                        descending = true;
                    },
                    Some(CopyFrame::UseNxt { nam, val }) => {
                        built = Term::Use {
                            nam: copy_of_name(nam),
                            val: Box::new(val),
                            nxt: Box::new(built),
                        };
                    },
                }
            }
        }
        built
    }
}

/// Whether the two terms of each pair have the same value.
spec fn all_same(pairs: Seq<(&Term, &Term)>) -> bool
    decreases pairs.len(),
{
    pairs.len() == 0 || (all_same(pairs.drop_last()) && pairs.last().0@ == pairs.last().1@)
}

/// The nodes of the first terms of the pairs, all together.
spec fn left_size(pairs: Seq<(&Term, &Term)>) -> nat
    decreases pairs.len(),
{
    if pairs.len() == 0 {
        0
    } else {
        left_size(pairs.drop_last()) + pairs.last().0@.size()
    }
}

proof fn lemma_pair_push(pairs: Seq<(&Term, &Term)>, pair: (&Term, &Term))
    ensures
        all_same(pairs.push(pair)) == (all_same(pairs) && pair.0@ == pair.1@),
        left_size(pairs.push(pair)) == left_size(pairs) + pair.0@.size(),
{
    assert(pairs.push(pair).drop_last() =~= pairs);
}

fn same_name(left: &Option<Name>, right: &Option<Name>) -> (same: bool)
    ensures
        same == (opt_name_view(*left) == opt_name_view(*right)),
{
    match (left, right) {
        (Some(l), Some(r)) => l == r,
        (None, None) => true,
        _ => false,
    }
}

impl PartialEq for Term {
    /// Whether the two terms have the same value. The depth of the terms costs no call stack.
    fn eq(&self, other: &Term) -> (same: bool) {
        let mut pairs: Vec<(&Term, &Term)> = Vec::new();
        proof {
            lemma_pair_push(pairs@, (self, other));
        }
        pairs.push((self, other));
        let mut same = true;
        while same && pairs.len() > 0
            invariant
                (self@ == other@) == (same && all_same(pairs@)),
            decreases left_size(pairs@) + (if same { 1nat } else { 0nat }),
        {
            let pair = pairs.pop().unwrap();
            match pair {
                (Term::Era, Term::Era) => {},
                (Term::Var { nam: left }, Term::Var { nam: right }) => {
                    same = left == right;
                },
                (Term::Num { val: left }, Term::Num { val: right }) => {
                    same = *left == *right;
                },
                (Term::Lam { nam: left, bod: left_bod }, Term::Lam { nam: right, bod: right_bod }) => {
                    if same_name(left, right) {
                        let bods = (&**left_bod, &**right_bod);
                        proof {
                            lemma_pair_push(pairs@, bods);
                        }
                        pairs.push(bods);
                    } else {
                        same = false;
                    }
                },
                (
                    Term::App { fun: left_fun, arg: left_arg },
                    Term::App { fun: right_fun, arg: right_arg },
                ) => {
                    let funs = (&**left_fun, &**right_fun);
                    let args = (&**left_arg, &**right_arg);
                    proof {
                        lemma_pair_push(pairs@, funs);
                        lemma_pair_push(pairs@.push(funs), args);
                    }
                    pairs.push(funs);
                    pairs.push(args);
                },
                (
                    Term::Use { nam: left, val: left_val, nxt: left_nxt },
                    Term::Use { nam: right, val: right_val, nxt: right_nxt },
                ) => {
                    if same_name(left, right) {
                        let vals = (&**left_val, &**right_val);
                        let nxts = (&**left_nxt, &**right_nxt);
                        proof {
                            lemma_pair_push(pairs@, vals);
                            lemma_pair_push(pairs@.push(vals), nxts);
                        }
                        pairs.push(vals);
                        pairs.push(nxts);
                    } else {
                        same = false;
                    }
                },
                _ => {
                    same = false;
                },
            }
        }
        same
    }
}

impl PartialEqSpecImpl for Term {
    open spec fn obeys_eq_spec() -> bool {
        true
    }

    open spec fn eq_spec(&self, other: &Term) -> bool {
        self@ == other@
    }
}

/// The nodes of the terms of `terms`, all together.
spec fn total_size(terms: Seq<Term>) -> nat
    decreases terms.len(),
{
    if terms.len() == 0 {
        0
    } else {
        total_size(terms.drop_last()) + terms.last()@.size()
    }
}

proof fn lemma_total_size_push(terms: Seq<Term>, term: Term)
    ensures
        total_size(terms.push(term)) == total_size(terms) + term@.size(),
{
    assert(terms.push(term).drop_last() =~= terms);
}

impl Term {
    /// Frees the term node by node. Letting a term go out of scope frees it too, but at a cost in call
    /// stack that grows with its depth.
    pub fn release(self) {
        let mut stack: Vec<Term> = Vec::new();
        proof {
            lemma_total_size_push(stack@, self);
        }
        stack.push(self);
        while stack.len() > 0
            decreases total_size(stack@),
        {
            match stack.pop() {
                Some(Term::Lam { nam, bod }) => {
                    proof {
                        lemma_total_size_push(stack@, *bod);
                    }
                    stack.push(*bod);
                },
                Some(Term::App { fun, arg }) => {
                    proof {
                        lemma_total_size_push(stack@, *fun);
                        lemma_total_size_push(stack@.push(*fun), *arg);
                    }
                    stack.push(*fun);
                    stack.push(*arg);
                },
                Some(Term::Use { nam, val, nxt }) => {
                    proof {
                        lemma_total_size_push(stack@, *val);
                        lemma_total_size_push(stack@.push(*val), *nxt);
                    }
                    stack.push(*val);
                    stack.push(*nxt);
                },
                _ => {},
            }
        }
    }
}

} // verus!
