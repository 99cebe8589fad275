//! Reports on the entry point of a program, and the log that collects them.

use vstd::prelude::*;
use vstd::string::StringExecFns;
use crate::name::Name;

verus! {

/// The mathematical value of an [`EntryErr`]: the same report, with every name given by its characters.
pub enum EntryErrView {
    NotFound(Seq<char>),
    Multiple(Seq<Seq<char>>),
    MultipleRules,
    Arguments,
}

/// Why a program has no usable entry point, or more than one candidate for it.
#[derive(Debug, Clone, PartialEq, Eq)]
pub enum EntryErr {
    /// No definition has the name under which the entry point was looked for.
    NotFound(Name),
    /// Definitions exist under two or more of the names; they are listed from the highest priority down.
    Multiple(Vec<Name>),
    /// The entry point is defined by more than one rule.
    MultipleRules,
    /// The rule of the entry point takes arguments.
    Arguments,
}

/// The values of the names of `names`, in order.
pub open spec fn names_view(names: Seq<Name>) -> Seq<Seq<char>> {
    names.map_values(|n: Name| n@)
}

impl View for EntryErr {
    type V = EntryErrView;

    open spec fn view(&self) -> EntryErrView {
        match self {
            EntryErr::NotFound(name) => EntryErrView::NotFound(name@),
            EntryErr::Multiple(names) => EntryErrView::Multiple(names_view(names@)),
            EntryErr::MultipleRules => EntryErrView::MultipleRules,
            EntryErr::Arguments => EntryErrView::Arguments,
        }
    }
}

impl EntryErrView {
    /// A report of several candidates lists at least two names.
    pub open spec fn wf(self) -> bool {
        self matches EntryErrView::Multiple(names) ==> names.len() >= 2
    }

    /// The message for the user. Of more than three candidates it names the first three.
    pub open spec fn message(self) -> Seq<char> {
        match self {
            EntryErrView::NotFound(name) => "File has no '"@ + name + "' definition"@,
            EntryErrView::Multiple(names) => if names.len() == 2 {
                "File has both '"@ + names[0] + "' and '"@ + names[1] + "' definitions"@
            } else {
                "File has '"@ + names[0] + "', '"@ + names[1] + "' and '"@ + names[2]
                    + "' definitions"@
            },
            EntryErrView::MultipleRules => "Main definition can't have more than one rule"@,
            EntryErrView::Arguments => "Main definition can't have any arguments"@,
        }
    }
}

impl EntryErr {
    /// The message for the user.
    pub fn message(&self) -> (text: String)
        requires
            self@.wf(),
        ensures
            text@ == self@.message(),
    {
        match self {
            EntryErr::NotFound(name) => {
                let mut text = String::from_str("File has no '");
                text.append(name.as_str());
                text.append("' definition");
                text
            },
            EntryErr::Multiple(names) => {
                if names.len() == 2 {
                    let mut text = String::from_str("File has both '");
                    text.append(names[0].as_str());
                    text.append("' and '");
                    text.append(names[1].as_str());
                    text.append("' definitions");
                    text
                } else {
                    let mut text = String::from_str("File has '");
                    text.append(names[0].as_str());
                    text.append("', '");
                    text.append(names[1].as_str());
                    text.append("' and '");
                    text.append(names[2].as_str());
                    text.append("' definitions");
                    text
                }
            },
            EntryErr::MultipleRules => String::from_str("Main definition can't have more than one rule"),
            EntryErr::Arguments => String::from_str("Main definition can't have any arguments"),
        }
    }
}

/// The errors that the passes over a program have reported, oldest first. A pass reports and goes on;
/// whoever runs the passes reads the log and decides.
#[derive(Debug, Clone, PartialEq, Eq)]
pub struct Diagnostics {
    errs: Vec<EntryErr>,
}

/// The values of the errors of `errs`, in order.
pub open spec fn errs_view(errs: Seq<EntryErr>) -> Seq<EntryErrView> {
    errs.map_values(|e: EntryErr| e@)
}

impl View for Diagnostics {
    type V = Seq<EntryErrView>;

    closed spec fn view(&self) -> Seq<EntryErrView> {
        errs_view(self.errs@)
    }
}

impl Diagnostics {
    /// An empty log.
    pub fn new() -> (log: Diagnostics)
        ensures
            log@ == Seq::<EntryErrView>::empty(),
    {
        Diagnostics { errs: Vec::new() }
    }

    /// Appends `err` to the log.
    pub fn error(&mut self, err: EntryErr)
        ensures
            final(self)@ == old(self)@.push(err@),
    {
        self.errs.push(err);
        assert(errs_view(self.errs@) =~= errs_view(old(self).errs@).push(err@));
    }

    /// The number of errors in the log.
    pub fn len(&self) -> (n: usize)
        ensures
            n == self@.len(),
    {
        self.errs.len()
    }

    /// The error at position `i` of the log.
    pub fn get(&self, i: usize) -> (err: &EntryErr)
        requires
            i < self@.len(),
        ensures
            err@ == self@[i as int],
    {
        &self.errs[i]
    }
}

} // verus!
