use term_passes::book::{Book, Definition, Pattern, Rule};
use term_passes::diagnostics::{Diagnostics, EntryErr};
use term_passes::entrypoint::{ENTRY_POINT, HVM1_ENTRY_POINT};
use term_passes::name::Name;
use term_passes::term::Term;

fn rule(arity: usize) -> Rule {
    let mut pats = Vec::new();
    for _ in 0..arity {
        pats.push(Pattern::Var { nam: Some(Name::new("a")) });
    }
    Rule { pats, body: Term::Num { val: 0 } }
}

fn definition(name: &str, rules: Vec<Rule>) -> Definition {
    Definition { name: Name::new(name), rules }
}

fn book(entrypoint: Option<&str>, defs: Vec<Definition>) -> Book {
    Book { defs, entrypoint: entrypoint.map(Name::new), info: Diagnostics::new() }
}

fn reported(book: &Book) -> Vec<EntryErr> {
    let mut errs = Vec::new();
    for i in 0..book.info.len() {
        errs.push(book.info.get(i).clone());
    }
    errs
}

fn names(list: &[&str]) -> Vec<Name> {
    list.iter().map(|name| Name::new(name)).collect()
}

#[test]
fn default_names() {
    assert_eq!(ENTRY_POINT, "main");
    assert_eq!(HVM1_ENTRY_POINT, "Main");
}

#[test]
fn single_main_is_the_entry_point() {
    let mut book = book(None, vec![definition("helper", vec![rule(2)]), definition("main", vec![rule(0)])]);
    assert_eq!(book.check_has_entrypoint(), Some(Name::new("main")));
    assert_eq!(reported(&book), vec![]);
}

#[test]
fn single_legacy_main_is_the_entry_point() {
    let mut book = book(None, vec![definition("Main", vec![rule(0)])]);
    assert_eq!(book.check_has_entrypoint(), Some(Name::new("Main")));
    assert_eq!(reported(&book), vec![]);
}

#[test]
fn single_configured_name_is_the_entry_point() {
    let mut book = book(Some("start"), vec![definition("start", vec![rule(0)])]);
    assert_eq!(book.check_has_entrypoint(), Some(Name::new("start")));
    assert_eq!(reported(&book), vec![]);
}

#[test]
fn configured_name_that_is_not_defined_falls_back() {
    let mut book = book(Some("start"), vec![definition("main", vec![rule(0)])]);
    assert_eq!(book.check_has_entrypoint(), Some(Name::new("main")));
    assert_eq!(reported(&book), vec![]);
}

#[test]
fn missing_entry_point_is_reported_under_the_default_name() {
    let mut book = book(None, vec![definition("helper", vec![rule(0)])]);
    assert_eq!(book.check_has_entrypoint(), None);
    assert_eq!(reported(&book), vec![EntryErr::NotFound(Name::new("main"))]);
}

#[test]
fn missing_entry_point_in_an_empty_program() {
    let mut book = book(None, vec![]);
    assert_eq!(book.check_has_entrypoint(), None);
    assert_eq!(reported(&book), vec![EntryErr::NotFound(Name::new("main"))]);
}

#[test]
fn missing_entry_point_is_reported_under_the_configured_name() {
    let mut book = book(Some("start"), vec![definition("helper", vec![rule(0)])]);
    assert_eq!(book.check_has_entrypoint(), None);
    assert_eq!(reported(&book), vec![EntryErr::NotFound(Name::new("start"))]);
}

#[test]
fn main_and_legacy_main_are_reported_and_main_is_used() {
    let mut book = book(None, vec![definition("Main", vec![rule(0)]), definition("main", vec![rule(0)])]);
    assert_eq!(book.check_has_entrypoint(), Some(Name::new("main")));
    assert_eq!(reported(&book), vec![EntryErr::Multiple(names(&["main", "Main"]))]);
}

#[test]
fn configured_and_main_are_reported_and_configured_is_used() {
    let mut book = book(Some("start"), vec![definition("main", vec![rule(0)]), definition("start", vec![rule(0)])]);
    assert_eq!(book.check_has_entrypoint(), Some(Name::new("start")));
    assert_eq!(reported(&book), vec![EntryErr::Multiple(names(&["start", "main"]))]);
}

#[test]
fn configured_and_legacy_main_are_reported_and_configured_is_used() {
    let mut book = book(Some("start"), vec![definition("Main", vec![rule(0)]), definition("start", vec![rule(0)])]);
    assert_eq!(book.check_has_entrypoint(), Some(Name::new("start")));
    assert_eq!(reported(&book), vec![EntryErr::Multiple(names(&["start", "Main"]))]);
}

#[test]
fn three_candidates_are_reported_together() {
    let mut book = book(
        Some("start"),
        vec![
            definition("Main", vec![rule(0)]),
            definition("main", vec![rule(0)]),
            definition("start", vec![rule(0)]),
        ],
    );
    assert_eq!(book.check_has_entrypoint(), Some(Name::new("start")));
    assert_eq!(reported(&book), vec![EntryErr::Multiple(names(&["start", "main", "Main"]))]);
}

#[test]
fn configured_default_name_counts_twice() {
    let mut book = book(Some("main"), vec![definition("main", vec![rule(0)])]);
    assert_eq!(book.check_has_entrypoint(), Some(Name::new("main")));
    assert_eq!(reported(&book), vec![EntryErr::Multiple(names(&["main", "main"]))]);
}

#[test]
fn main_with_two_rules_is_refused() {
    let mut book = book(None, vec![definition("main", vec![rule(0), rule(0)])]);
    assert_eq!(book.check_has_entrypoint(), None);
    assert_eq!(reported(&book), vec![EntryErr::MultipleRules]);
}

#[test]
fn main_with_an_argument_is_refused() {
    let mut book = book(None, vec![definition("main", vec![rule(1)])]);
    assert_eq!(book.check_has_entrypoint(), None);
    assert_eq!(reported(&book), vec![EntryErr::Arguments]);
}

#[test]
fn two_rules_are_reported_before_arguments() {
    let mut book = book(None, vec![definition("main", vec![rule(1), rule(2)])]);
    assert_eq!(book.check_has_entrypoint(), None);
    assert_eq!(reported(&book), vec![EntryErr::MultipleRules]);
}

#[test]
fn several_candidates_with_an_unusable_first() {
    let mut book = book(None, vec![definition("main", vec![rule(3)]), definition("Main", vec![rule(0)])]);
    assert_eq!(book.check_has_entrypoint(), None);
    assert_eq!(
        reported(&book),
        vec![EntryErr::Multiple(names(&["main", "Main"])), EntryErr::Arguments]
    );
}

#[test]
fn only_the_first_candidate_is_checked() {
    let mut book = book(None, vec![definition("main", vec![rule(0)]), definition("Main", vec![rule(1), rule(1)])]);
    assert_eq!(book.check_has_entrypoint(), Some(Name::new("main")));
    assert_eq!(reported(&book), vec![EntryErr::Multiple(names(&["main", "Main"]))]);
}

#[test]
fn definition_without_rules_is_accepted() {
    let mut book = book(None, vec![definition("main", vec![])]);
    assert_eq!(book.check_has_entrypoint(), Some(Name::new("main")));
    assert_eq!(reported(&book), vec![]);
}

#[test]
fn earlier_reports_stay_in_the_log() {
    let mut book = book(None, vec![]);
    book.info.error(EntryErr::Arguments);
    assert_eq!(book.check_has_entrypoint(), None);
    assert_eq!(book.check_has_entrypoint(), None);
    assert_eq!(
        reported(&book),
        vec![
            EntryErr::Arguments,
            EntryErr::NotFound(Name::new("main")),
            EntryErr::NotFound(Name::new("main")),
        ]
    );
}

#[test]
fn checking_leaves_the_program_as_it_is() {
    let defs = vec![definition("main", vec![rule(1)]), definition("Main", vec![rule(0)])];
    let mut book = book(Some("start"), defs.clone());
    book.check_has_entrypoint();
    assert_eq!(book.defs, defs);
    assert_eq!(book.entrypoint, Some(Name::new("start")));
}

#[test]
fn validate_entry_point_checks_the_shape() {
    let book = book(None, vec![]);
    assert_eq!(book.validate_entry_point(&definition("f", vec![rule(0)])), Ok(Name::new("f")));
    assert_eq!(book.validate_entry_point(&definition("f", vec![])), Ok(Name::new("f")));
    assert_eq!(book.validate_entry_point(&definition("f", vec![rule(1)])), Err(EntryErr::Arguments));
    assert_eq!(
        book.validate_entry_point(&definition("f", vec![rule(0), rule(0)])),
        Err(EntryErr::MultipleRules)
    );
}

#[test]
fn possible_entry_points_are_looked_up_by_name() {
    let start = definition("start", vec![rule(0)]);
    let main = definition("main", vec![rule(1)]);
    let legacy = definition("Main", vec![rule(2)]);
    let other = definition("other", vec![rule(3)]);

    let all = book(Some("start"), vec![other.clone(), legacy.clone(), main.clone(), start.clone()]);
    assert_eq!(all.get_possible_entry_points(), (Some(&start), Some(&main), Some(&legacy)));

    let unconfigured = book(None, vec![start.clone(), main.clone()]);
    assert_eq!(unconfigured.get_possible_entry_points(), (None, Some(&main), None));

    let absent = book(Some("start"), vec![other.clone()]);
    assert_eq!(absent.get_possible_entry_points(), (None, None, None));
}

#[test]
fn get_finds_a_definition_by_its_name() {
    let main = definition("main", vec![rule(1)]);
    let other = definition("other", vec![rule(3)]);
    let book = book(None, vec![other.clone(), main.clone()]);
    assert_eq!(book.get(&Name::new("main")), Some(&main));
    assert_eq!(book.get(&Name::new("other")), Some(&other));
    assert_eq!(book.get(&Name::new("Main")), None);
}

#[test]
fn messages() {
    assert_eq!(EntryErr::NotFound(Name::new("main")).message(), "File has no 'main' definition");
    assert_eq!(
        EntryErr::Multiple(names(&["main", "Main"])).message(),
        "File has both 'main' and 'Main' definitions"
    );
    assert_eq!(
        EntryErr::Multiple(names(&["start", "main", "Main"])).message(),
        "File has 'start', 'main' and 'Main' definitions"
    );
    assert_eq!(EntryErr::MultipleRules.message(), "Main definition can't have more than one rule");
    assert_eq!(EntryErr::Arguments.message(), "Main definition can't have any arguments");
}

#[test]
fn message_of_more_than_three_names_gives_the_first_three() {
    assert_eq!(
        EntryErr::Multiple(names(&["a", "b", "c", "d"])).message(),
        "File has 'a', 'b' and 'c' definitions"
    );
}

#[test]
fn book_desugars_every_rule_body() {
    let named = |name: &str, val: Term, nxt: Term| Term::Use {
        nam: Some(Name::new(name)),
        val: Box::new(val),
        nxt: Box::new(nxt),
    };
    let var = |name: &str| Term::Var { nam: Name::new(name) };
    let num = |val: u64| Term::Num { val };
    let pats = vec![Pattern::Num { val: 0 }, Pattern::Var { nam: None }];
    let mut book = book(
        Some("start"),
        vec![
            Definition {
                name: Name::new("f"),
                rules: vec![
                    Rule { pats: pats.clone(), body: named("x", num(1), var("x")) },
                    Rule { pats: vec![], body: var("y") },
                ],
            },
            Definition { name: Name::new("g"), rules: vec![] },
            Definition {
                name: Name::new("h"),
                rules: vec![Rule { pats: vec![], body: named("x", num(2), named("y", var("x"), var("y"))) }],
            },
        ],
    );
    book.info.error(EntryErr::MultipleRules);
    book.desugar_use();
    assert_eq!(
        book.defs,
        vec![
            Definition {
                name: Name::new("f"),
                rules: vec![Rule { pats: pats.clone(), body: num(1) }, Rule { pats: vec![], body: var("y") }],
            },
            Definition { name: Name::new("g"), rules: vec![] },
            Definition { name: Name::new("h"), rules: vec![Rule { pats: vec![], body: num(2) }] },
        ]
    );
    assert_eq!(book.entrypoint, Some(Name::new("start")));
    assert_eq!(reported(&book), vec![EntryErr::MultipleRules]);
}

#[test]
fn new_book_is_empty() {
    let book = Book::new(Some(Name::new("start")));
    assert_eq!(book.defs, vec![]);
    assert_eq!(book.entrypoint, Some(Name::new("start")));
    assert_eq!(book.info.len(), 0);
    assert_eq!(Book::new(None).entrypoint, None);
}

#[test]
fn insert_adds_a_definition_or_replaces_the_one_of_its_name() {
    let mut book = Book::new(None);
    assert_eq!(book.insert(definition("f", vec![rule(1)])), None);
    assert_eq!(book.insert(definition("main", vec![rule(1)])), None);
    assert_eq!(book.insert(definition("g", vec![])), None);
    assert_eq!(book.insert(definition("main", vec![rule(0)])), Some(definition("main", vec![rule(1)])));
    assert_eq!(
        book.defs,
        vec![definition("f", vec![rule(1)]), definition("main", vec![rule(0)]), definition("g", vec![])]
    );
    assert_eq!(book.get(&Name::new("main")), Some(&definition("main", vec![rule(0)])));
    assert_eq!(book.check_has_entrypoint(), Some(Name::new("main")));
    assert_eq!(reported(&book), vec![]);
}

#[test]
fn log_keeps_reports_in_order() {
    let mut log = Diagnostics::new();
    assert_eq!(log.len(), 0);
    log.error(EntryErr::MultipleRules);
    log.error(EntryErr::NotFound(Name::new("main")));
    assert_eq!(log.len(), 2);
    assert_eq!(log.get(0), &EntryErr::MultipleRules);
    assert_eq!(log.get(1), &EntryErr::NotFound(Name::new("main")));
}

#[test]
fn definition_desugars_every_rule_body() {
    let mut def = Definition {
        name: Name::new("f"),
        rules: vec![
            Rule {
                pats: vec![Pattern::Var { nam: Some(Name::new("x")) }],
                body: Term::Use {
                    nam: Some(Name::new("y")),
                    val: Box::new(Term::Var { nam: Name::new("x") }),
                    nxt: Box::new(Term::Var { nam: Name::new("y") }),
                },
            },
            Rule { pats: vec![Pattern::Num { val: 3 }], body: Term::Era },
        ],
    };
    def.desugar_use();
    assert_eq!(
        def,
        Definition {
            name: Name::new("f"),
            rules: vec![
                Rule {
                    pats: vec![Pattern::Var { nam: Some(Name::new("x")) }],
                    body: Term::Var { nam: Name::new("x") },
                },
                Rule { pats: vec![Pattern::Num { val: 3 }], body: Term::Era },
            ],
        }
    );
}
