use term_passes::name::Name;

#[test]
fn names_compare_by_their_characters() {
    assert_eq!(Name::new("main"), Name::new("main"));
    assert_ne!(Name::new("main"), Name::new("Main"));
    assert_eq!(Name::new("main").as_str(), "main");
    assert_eq!(Name::new("main").clone(), Name::new("main"));
}
