//! Finding the definition at which a program starts.

use vstd::prelude::*;
use crate::book::{Book, BookView, Definition, DefinitionView, lemma_position, opt_def_view};
use crate::diagnostics::{EntryErr, EntryErrView, names_view};
use crate::name::{Name, opt_name_view};

verus! {

/// The name under which the entry point is looked for where no other is configured.
pub const ENTRY_POINT: &'static str = "main";

/// The name that programs written for the HVM1 runtime give their entry point.
pub const HVM1_ENTRY_POINT: &'static str = "Main";

/// The value of the outcome of checking a candidate.
pub open spec fn checked_view(outcome: Result<Name, EntryErr>) -> Result<Seq<char>, EntryErrView> {
    match outcome {
        Ok(name) => Ok(name@),
        Err(err) => Err(err@),
    }
}

impl DefinitionView {
    /// Whether the definition can be an entry point: its name if it can, and why not if it cannot. It
    /// cannot with more than one rule, nor with a rule that takes arguments.
    pub open spec fn entry_check(self) -> Result<Seq<char>, EntryErrView> {
        if self.rules.len() > 1 {
            Err(EntryErrView::MultipleRules)
        } else if self.rules.len() == 1 && self.rules[0].pats.len() > 0 {
            Err(EntryErrView::Arguments)
        } else {
            Ok(self.name)
        }
    }
}

impl BookView {
    /// The definition named `name`, as a sequence of one, or of none where there is no such definition.
    pub open spec fn found(self, name: Seq<char>) -> Seq<DefinitionView> {
        match self.get(name) {
            Some(def) => seq![def],
            None => seq![],
        }
    }

    /// The definitions that stand for the entry point, from the highest priority down: the one under
    /// the configured name, the one under [`ENTRY_POINT`], the one under [`HVM1_ENTRY_POINT`], each
    /// as far as it exists.
    pub open spec fn entry_candidates(self) -> Seq<DefinitionView> {
        let configured = match self.entrypoint {
            Some(name) => self.found(name),
            None => seq![],
        };
        configured + self.found(ENTRY_POINT@) + self.found(HVM1_ENTRY_POINT@)
    }

    /// The name of the entry point: that of the first candidate, where it can be one.
    pub open spec fn entry_point(self) -> Option<Seq<char>> {
        let candidates = self.entry_candidates();
        if candidates.len() == 0 {
            None
        } else {
            match candidates[0].entry_check() {
                Ok(name) => Some(name),
                Err(_) => None,
            }
        }
    }

    /// What looking for the entry point reports. Without a candidate: that the configured name, or
    /// else [`ENTRY_POINT`], is not defined. With candidates: first, where they are several, all their
    /// names; then why the first cannot be an entry point, where it cannot.
    pub open spec fn entry_errors(self) -> Seq<EntryErrView> {
        let candidates = self.entry_candidates();
        if candidates.len() == 0 {
            seq![
                EntryErrView::NotFound(
                    match self.entrypoint {
                        Some(name) => name,
                        None => ENTRY_POINT@,
                    },
                ),
            ]
        } else {
            let several = if candidates.len() > 1 {
                seq![EntryErrView::Multiple(candidates.map_values(|d: DefinitionView| d.name))]
            } else {
                seq![]
            };
            let shape = match candidates[0].entry_check() {
                Ok(_) => seq![],
                Err(err) => seq![err],
            };
            several + shape
        }
    }
}

/// Every report of looking for the entry point is well formed: one of several candidates lists two or
/// three names.
pub proof fn lemma_entry_errors_wf(book: BookView)
    ensures
        forall|k: int| 0 <= k < book.entry_errors().len() ==> (#[trigger] book.entry_errors()[k]).wf(),
        book.entry_candidates().len() <= 3,
{
}

/// Looking for the entry point never fails in silence, and what it finds is a definition of the
/// program that has at most one rule, and that rule without arguments.
pub proof fn lemma_entry_point_outcome(book: BookView)
    ensures
        book.entry_point() is None ==> book.entry_errors().len() >= 1,
        book.entry_point() matches Some(name) ==> {
            &&& book.get(name) matches Some(def)
            &&& def.rules.len() <= 1
            &&& forall|k: int| 0 <= k < def.rules.len() ==> def.rules[k].pats.len() == 0
        },
{
    lemma_position(book.defs, ENTRY_POINT@);
    lemma_position(book.defs, HVM1_ENTRY_POINT@);
    if let Some(name) = book.entrypoint {
        lemma_position(book.defs, name);
    }
}

/// The values of the borrowed definitions of `defs`, in order.
spec fn refs_view(defs: Seq<&Definition>) -> Seq<DefinitionView> {
    defs.map_values(|d: &Definition| d@)
}

impl Book {
    /// Looks for the entry point of the program. Returns its name where there is a usable one, and
    /// appends to the log of the program what [`BookView::entry_errors`] says; with several
    /// candidates the first is still used where it can be. Nothing else of the program changes.
    pub fn check_has_entrypoint(&mut self) -> (main: Option<Name>)
        ensures
            final(self)@.defs == old(self)@.defs,
            final(self)@.entrypoint == old(self)@.entrypoint,
            final(self)@.info == old(self)@.info + old(self)@.entry_errors(),
            opt_name_view(main) == old(self)@.entry_point(),
            old(self)@.wf() ==> final(self)@.wf(),
    {
        let (configured, primary, legacy) = self.get_possible_entry_points();
        let mut found: Vec<&Definition> = Vec::new();
        if let Some(def) = configured {
            found.push(def);
        }
        if let Some(def) = primary {
            found.push(def);
        }
        if let Some(def) = legacy {
            found.push(def);
        }
        assert(refs_view(found@) =~= self@.entry_candidates());
        if found.len() == 0 {
            let name = match &self.entrypoint {
                Some(name) => name.clone(),
                None => Name::new(ENTRY_POINT),
            };
            self.info.error(EntryErr::NotFound(name));
            assert(self@.info =~= old(self)@.info + old(self)@.entry_errors());
            None
        } else {
            let entry = self.validate_entry_point(found[0]);
            let mut several: Option<EntryErr> = None;
            if found.len() > 1 {
                let mut names: Vec<Name> = Vec::new();
                let mut i: usize = 0;
                while i < found.len()
                    invariant
                        i <= found.len(),
                        names.len() == i,
                        forall|k: int| 0 <= k < i ==> (#[trigger] names[k])@ == found[k]@.name,
                    decreases found.len() - i,
                {
                    names.push(found[i].name.clone());
                    i += 1;
                }
                assert(names_view(names@) =~= self@.entry_candidates().map_values(
                    |d: DefinitionView| d.name,
                ));
                several = Some(EntryErr::Multiple(names));
            }
            if let Some(err) = several {
                self.info.error(err);
            }
            match entry {
                Ok(name) => {
                    assert(self@.info =~= old(self)@.info + old(self)@.entry_errors());
                    Some(name)
                },
                Err(err) => {
                    self.info.error(err);
                    assert(self@.info =~= old(self)@.info + old(self)@.entry_errors());
                    None
                },
            }
        }
    }

    /// Whether `entry` can be the entry point: its name if it can, and why not if it cannot.
    pub fn validate_entry_point(&self, entry: &Definition) -> (outcome: Result<Name, EntryErr>)
        ensures
            checked_view(outcome) == entry@.entry_check(),
    {
        if entry.rules.len() > 1 {
            Err(EntryErr::MultipleRules)
        } else if entry.rules.len() == 1 && !entry.rules[0].pats.is_empty() {
            Err(EntryErr::Arguments)
        } else {
            Ok(entry.name.clone())
        }
    }

    /// The definitions under the three names that stand for the entry point: the configured name,
    /// [`ENTRY_POINT`] and [`HVM1_ENTRY_POINT`].
    pub fn get_possible_entry_points(&self) -> (found: (
        Option<&Definition>,
        Option<&Definition>,
        Option<&Definition>,
    ))
        ensures
            opt_def_view(found.0) == (match self@.entrypoint {
                Some(name) => self@.get(name),
                None => None,
            }),
            opt_def_view(found.1) == self@.get(ENTRY_POINT@),
            opt_def_view(found.2) == self@.get(HVM1_ENTRY_POINT@),
    {
        let configured = match &self.entrypoint {
            Some(name) => self.get(name),
            None => None,
        };
        let primary = self.get(&Name::new(ENTRY_POINT));
        let legacy = self.get(&Name::new(HVM1_ENTRY_POINT));
        (configured, primary, legacy)
    }
}

} // verus!
