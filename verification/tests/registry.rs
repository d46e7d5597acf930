use template_spec::registry::contains_name;
use template_spec::{
    AttributeSpec, Format, Predicate, Priority, Registry, RegistryError, TemplateSpec,
};

fn spec(names: &[&str], format: Format) -> TemplateSpec {
    TemplateSpec {
        default_name: names[0].to_string(),
        names: names.iter().map(|name| name.to_string()).collect(),
        format,
        description: String::new(),
        attributes: Vec::<AttributeSpec>::new(),
    }
}

fn three() -> Vec<TemplateSpec> {
    vec![
        spec(&["formula", "formel", "math"], Format::Inline),
        spec(&["proof", "beweis"], Format::Block),
        spec(&["navigation"], Format::Meta),
    ]
}

#[test]
fn every_name_finds_its_specification() {
    let registry = Registry::new(three()).unwrap();
    for expected in three() {
        for name in &expected.names {
            assert_eq!(registry.spec_of(name), Some(&expected));
        }
    }
}

#[test]
fn names_are_matched_exactly() {
    let registry = Registry::new(three()).unwrap();
    assert_eq!(registry.spec_of("Formula"), None);
    assert_eq!(registry.spec_of(" formula"), None);
    assert_eq!(registry.spec_of("formula "), None);
    assert_eq!(registry.spec_of("form"), None);
    assert_eq!(registry.spec_of(""), None);
    assert_eq!(registry.spec_of("unknown"), None);
}

#[test]
fn an_empty_registry_finds_nothing() {
    let registry = Registry::new(Vec::new()).unwrap();
    assert_eq!(registry.spec_of("formula"), None);
    assert!(registry.specs().is_empty());
}

#[test]
fn a_registry_keeps_its_specifications() {
    let registry = Registry::new(three()).unwrap();
    assert_eq!(registry.specs(), &three());
}

#[test]
fn a_shared_name_is_refused() {
    let mut specs = three();
    specs.push(spec(&["theorem", "beweis"], Format::Block));
    assert_eq!(Registry::new(specs).err(), Some(RegistryError::DuplicateName(1, 3)));
}

#[test]
fn the_first_shared_name_is_reported() {
    let specs = vec![
        spec(&["a"], Format::Inline),
        spec(&["b"], Format::Inline),
        spec(&["c", "b", "a"], Format::Inline),
        spec(&["d", "a"], Format::Inline),
    ];
    assert_eq!(Registry::new(specs).err(), Some(RegistryError::DuplicateName(0, 2)));
}

#[test]
fn a_shared_preferred_name_is_refused() {
    let specs = vec![spec(&["a"], Format::Inline), spec(&["a"], Format::Block)];
    assert_eq!(Registry::new(specs).err(), Some(RegistryError::DuplicateName(0, 1)));
}

#[test]
fn a_name_listed_twice_by_one_specification_is_accepted() {
    let specs = vec![spec(&["a", "a"], Format::Inline), spec(&["b"], Format::Block)];
    let registry = Registry::new(specs).unwrap();
    assert_eq!(registry.spec_of("a").map(|found| found.format), Some(Format::Inline));
}

#[test]
fn a_preferred_name_that_is_not_listed_is_refused() {
    let mut specs = three();
    specs[1].default_name = "lemma".to_string();
    assert_eq!(Registry::new(specs).err(), Some(RegistryError::DefaultNameNotListed(1)));
}

#[test]
fn a_missing_preferred_name_is_reported_before_a_shared_name() {
    let mut specs = vec![
        spec(&["a"], Format::Inline),
        spec(&["a"], Format::Inline),
        spec(&["c"], Format::Inline),
        spec(&["d"], Format::Inline),
    ];
    specs[2].default_name = "x".to_string();
    specs[3].default_name = "y".to_string();
    assert_eq!(Registry::new(specs).err(), Some(RegistryError::DefaultNameNotListed(2)));
}

#[test]
fn checks_are_found_by_their_names() {
    let all = [
        (Predicate::IsMathTag, "is_math_tag"),
        (Predicate::IsPlainText, "is_plain_text"),
        (Predicate::IsNegativeSwitch, "is_negative_switch"),
        (Predicate::IsNavigationSpec, "is_navigation_spec"),
        (Predicate::IsInlineOnly, "is_inline_only"),
        (Predicate::BlockOrInline, "block_or_inline"),
        (Predicate::EverythingIsAllowed, "everything_is_allowed"),
    ];
    for (predicate, name) in all {
        assert_eq!(predicate.predicate_name(), name);
        assert_eq!(Predicate::by_name(name), Some(predicate));
    }
}

#[test]
fn unknown_names_of_checks_are_not_resolved() {
    assert_eq!(Predicate::by_name("is_math"), None);
    assert_eq!(Predicate::by_name("Is_Math_Tag"), None);
    assert_eq!(Predicate::by_name(" is_math_tag"), None);
    assert_eq!(Predicate::by_name(""), None);
}

#[test]
fn names_of_formats_and_priorities() {
    assert_eq!(Format::Inline.get_name(), "Inline");
    assert_eq!(Format::Block.get_name(), "Block");
    assert_eq!(Format::Meta.get_name(), "Meta");
    assert_eq!(Format::Inline.get_small_name(), "inline");
    assert_eq!(Format::Block.get_small_name(), "block");
    assert_eq!(Format::Meta.get_small_name(), "meta");
    assert_eq!(Priority::Required.get_name(), "Required");
    assert_eq!(Priority::Optional.get_name(), "Optional");
    assert_eq!(Priority::Obsolete.get_name(), "Obsolete");
    assert_eq!(Priority::Required.get_small_name(), "required");
    assert_eq!(Priority::Optional.get_small_name(), "optional");
    assert_eq!(Priority::Obsolete.get_small_name(), "obsolete");
}

#[test]
fn a_list_of_names_is_searched_exactly() {
    let names = vec!["one".to_string(), "two".to_string()];
    assert!(contains_name(&names, "one"));
    assert!(contains_name(&names, "two"));
    assert!(!contains_name(&names, "One"));
    assert!(!contains_name(&names, "tw"));
    assert!(!contains_name(&Vec::new(), "one"));
}

#[test]
fn preferred_names_are_handed_out() {
    let template = spec(&["formula", "formel"], Format::Inline);
    assert_eq!(template.default_name(), "formula");
    let attribute = AttributeSpec {
        default_name: "1".to_string(),
        names: vec!["1".to_string()],
        priority: Priority::Optional,
        predicate: Predicate::IsPlainText,
        description: String::new(),
    };
    assert_eq!(attribute.default_name(), "1");
    assert_eq!(attribute.predicate_name(), "is_plain_text");
}
