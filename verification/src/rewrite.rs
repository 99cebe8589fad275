//! Rewriting a term from the leaves up, at a cost in call stack that does not grow with its depth.

use vstd::prelude::*;
use crate::name::{Name, opt_name_view};
use crate::term::{Term, TermView};

verus! {

/// A rewriting of terms from the leaves up. It says which scopes it goes into and what it makes of a
/// node whose children it is done with; [`rewrite`] does the rest.
pub(crate) trait Pass {
    /// Whether the pass goes into the scope of a binder named `nam`: the body of an abstraction, the
    /// continuation of a binding. It goes into everything else.
    spec fn enters(&self, nam: Option<Seq<char>>) -> bool;

    /// What the pass makes of `node`, once it is done with the children of `node` that it goes into.
    spec fn leaves(&self, node: TermView) -> TermView;

    /// Decides [`Pass::enters`].
    fn enter(&self, nam: &Option<Name>) -> (goes: bool)
        ensures
            goes == self.enters(opt_name_view(*nam)),
    ;

    /// Computes [`Pass::leaves`].
    fn leave(&self, node: Term) -> (made: Term)
        ensures
            made@ == self.leaves(node@),
    ;
}

/// What `pass` makes of `term`, by plain recursion.
pub(crate) open spec fn passed<P: Pass>(pass: &P, term: TermView) -> TermView
    decreases term,
{
    pass.leaves(
        match term {
            TermView::Lam { nam, bod } => TermView::Lam {
                nam,
                bod: if pass.enters(nam) {
                    Box::new(passed(pass, *bod))
                } else {
                    bod
                },
            },
            TermView::App { fun, arg } => TermView::App {
                fun: Box::new(passed(pass, *fun)),
                arg: Box::new(passed(pass, *arg)),
            },
            TermView::Use { nam, val, nxt } => TermView::Use {
                nam,
                val: Box::new(passed(pass, *val)),
                nxt: if pass.enters(nam) {
                    Box::new(passed(pass, *nxt))
                } else {
                    nxt
                },
            },
            _ => term,
        },
    )
}

/// What [`rewrite`] has still to do once the subterm it is working on is finished. It keeps these on
/// the heap, innermost last, so that the depth of a term never costs call stack.
enum Frame {
    /// Inside the body of an abstraction.
    LamBod { nam: Option<Name> },
    /// Inside the function of an application whose argument has not been visited.
    AppFun { arg: Term },
    /// Inside the argument of an application whose function is finished.
    AppArg { fun: Term },
    /// Inside the value of a binding whose continuation has not been visited.
    UseVal { nam: Option<Name>, nxt: Term },
    /// Inside the continuation of a binding whose value is finished.
    UseNxt { nam: Option<Name>, val: Term },
}

/// An upper bound on the steps that [`rewrite`] still spends on a frame.
spec fn frame_work(frame: Frame) -> nat {
    match frame {
        Frame::AppFun { arg } => 3 * arg@.size() + 2,
        Frame::UseVal { nxt, .. } => 3 * nxt@.size() + 2,
        _ => 1,
    }
}

/// An upper bound on the steps that [`rewrite`] still spends on its frames.
spec fn pending_work(frames: Seq<Frame>) -> nat
    decreases frames.len(),
{
    if frames.len() == 0 {
        0
    } else {
        pending_work(frames.drop_last()) + frame_work(frames.last())
    }
}

/// What `pass` makes of the whole term, given what it makes of the subterm that [`rewrite`] is working
/// on.
spec fn resumed<P: Pass>(pass: &P, frames: Seq<Frame>, done: TermView) -> TermView
    decreases frames.len(),
{
    if frames.len() == 0 {
        done
    } else {
        let rest = frames.drop_last();
        match frames.last() {
            Frame::LamBod { nam } => resumed(
                pass,
                rest,
                pass.leaves(TermView::Lam { nam: opt_name_view(nam), bod: Box::new(done) }),
            ),
            Frame::AppFun { arg } => resumed(
                pass,
                rest,
                pass.leaves(TermView::App { fun: Box::new(done), arg: Box::new(passed(pass, arg@)) }),
            ),
            Frame::AppArg { fun } => resumed(
                pass,
                rest,
                pass.leaves(TermView::App { fun: Box::new(fun@), arg: Box::new(done) }),
            ),
            Frame::UseVal { nam, nxt } => resumed(
                pass,
                rest,
                pass.leaves(
                    TermView::Use {
                        nam: opt_name_view(nam),
                        val: Box::new(done),
                        nxt: if pass.enters(opt_name_view(nam)) {
                            Box::new(passed(pass, nxt@))
                        } else {
                            Box::new(nxt@)
                        },
                    },
                ),
            ),
            Frame::UseNxt { nam, val } => resumed(
                pass,
                rest,
                pass.leaves(
                    TermView::Use { nam: opt_name_view(nam), val: Box::new(val@), nxt: Box::new(done) },
                ),
            ),
        }
    }
}

proof fn lemma_push(frames: Seq<Frame>, frame: Frame)
    ensures
        frames.push(frame).drop_last() == frames,
        frames.push(frame).last() == frame,
        pending_work(frames.push(frame)) == pending_work(frames) + frame_work(frame),
{
    assert(frames.push(frame).drop_last() =~= frames);
}

/// Makes of `term` what `pass` makes of it. The result is that of the plain recursion [`passed`]; the
/// depth of the term costs no call stack.
pub(crate) fn rewrite<P: Pass>(term: &mut Term, pass: &P)
    ensures
        final(term)@ == passed(pass, old(term)@),
{
    let ghost goal = passed(pass, term@);
    let mut cur = Term::Era;
    std::mem::swap(term, &mut cur);
    let mut stack: Vec<Frame> = Vec::new();
    let mut descending = true;
    let mut finished = false;
    while !finished
        invariant
            !finished ==> goal == resumed(
                pass,
                stack@,
                if descending {
                    passed(pass, cur@)
                } else {
                    cur@
                },
            ),
            finished ==> cur@ == goal,
        decreases
            pending_work(stack@) + (if descending {
                3 * cur@.size()
            } else {
                0
            }) + (if finished {
                0nat
            } else {
                1nat
            }),
    {
        if descending {
            match cur {
                Term::Lam { nam, bod } => {
                    if pass.enter(&nam) {
                        proof {
                            lemma_push(stack@, Frame::LamBod { nam });
                        }
                        stack.push(Frame::LamBod { nam });
                        cur = *bod;
                    } else {
                        cur = pass.leave(Term::Lam { nam, bod });
                        descending = false;
                    }
                },
                Term::App { fun, arg } => {
                    proof {
                        lemma_push(stack@, Frame::AppFun { arg: *arg });
                    }
                    stack.push(Frame::AppFun { arg: *arg });
                    cur = *fun;
                },
                Term::Use { nam, val, nxt } => {
                    proof {
                        lemma_push(stack@, Frame::UseVal { nam, nxt: *nxt });
                    }
                    stack.push(Frame::UseVal { nam, nxt: *nxt });
                    cur = *val;
                },
                leaf => {
                    cur = pass.leave(leaf);
                    descending = false;
                },
            }
        } else {
            match stack.pop() {
                None => {
                    finished = true;
                },
                Some(Frame::LamBod { nam }) => {
                    cur = pass.leave(Term::Lam { nam, bod: Box::new(cur) });
                },
                Some(Frame::AppFun { arg }) => {
                    proof {
                        lemma_push(stack@, Frame::AppArg { fun: cur });
                    }
                    stack.push(Frame::AppArg { fun: cur });
                    cur = arg;
                    descending = true;
                },
                Some(Frame::AppArg { fun }) => {
                    cur = pass.leave(Term::App { fun: Box::new(fun), arg: Box::new(cur) });
                },
                Some(Frame::UseVal { nam, nxt }) => {
                    if pass.enter(&nam) {
                        proof {
                            lemma_push(stack@, Frame::UseNxt { nam, val: cur });
                        }
                        stack.push(Frame::UseNxt { nam, val: cur });
                        cur = nxt;
                        descending = true;
                    } else {
                        cur = pass.leave(Term::Use { nam, val: Box::new(cur), nxt: Box::new(nxt) });
                    }
                },
                Some(Frame::UseNxt { nam, val }) => {
                    cur = pass.leave(Term::Use { nam, val: Box::new(val), nxt: Box::new(cur) });
                },
            }
        }
    }
    *term = cur;
}

} // verus!
