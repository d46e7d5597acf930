use template_spec::{
    find_arg, get_template_spec, validate, validate_tree, AttributeSpec, Element, Format,
    Formatted, MarkupType, Paragraph, Position, Predicate, Priority, Registry, Span, Template,
    TemplateArgument, TemplateSpec, Text,
};

fn span() -> Span {
    let origin = Position { offset: 0, line: 0, col: 0 };
    Span { start: origin, end: origin }
}

fn text(content: &str) -> Element {
    Element::Text(Text { position: span(), text: content.to_string() })
}

fn math(content: &str) -> Element {
    Element::Formatted(Formatted {
        position: span(),
        markup: MarkupType::Math,
        content: vec![text(content)],
    })
}

fn paragraph(content: Vec<Element>) -> Element {
    Element::Paragraph(Paragraph { position: span(), content })
}

fn argument(name: &str, value: Vec<Element>) -> Element {
    Element::TemplateArgument(TemplateArgument {
        position: span(),
        name: name.to_string(),
        value,
    })
}

fn template(name: &str, content: Vec<Element>) -> Template {
    Template { position: span(), name: vec![text(name)], content }
}

fn attribute(names: &[&str], priority: Priority, predicate: Predicate) -> AttributeSpec {
    AttributeSpec {
        default_name: names[0].to_string(),
        names: names.iter().map(|name| name.to_string()).collect(),
        priority,
        predicate,
        description: String::new(),
    }
}

fn spec(names: &[&str], format: Format, attributes: Vec<AttributeSpec>) -> TemplateSpec {
    TemplateSpec {
        default_name: names[0].to_string(),
        names: names.iter().map(|name| name.to_string()).collect(),
        format,
        description: String::new(),
        attributes,
    }
}

fn registry() -> Registry {
    Registry::new(vec![
        spec(
            &["formula", "formel"],
            Format::Inline,
            vec![attribute(&["1", "content"], Priority::Required, Predicate::IsMathTag)],
        ),
        spec(
            &["exercise"],
            Format::Block,
            vec![
                attribute(&["title"], Priority::Optional, Predicate::IsPlainText),
                attribute(&["task"], Priority::Required, Predicate::BlockOrInline),
                attribute(&["hint"], Priority::Obsolete, Predicate::IsInlineOnly),
                attribute(&["solution"], Priority::Required, Predicate::EverythingIsAllowed),
                attribute(&["numbered"], Priority::Optional, Predicate::IsNegativeSwitch),
            ],
        ),
        spec(
            &["navigation"],
            Format::Meta,
            vec![attribute(&["1"], Priority::Required, Predicate::IsNavigationSpec)],
        ),
    ])
    .unwrap()
}

#[test]
fn a_missing_required_attribute_is_reported() {
    let registry = registry();
    let invocation = template("formula", vec![]);
    let error = validate(&registry, &invocation).unwrap_err();
    assert_eq!(error.cause, "\"formula\" is missing the required attribute \"1\"!");
    assert_eq!(error.tree, None);
}

#[test]
fn an_argument_under_another_name_does_not_stand_in() {
    let registry = registry();
    let invocation = template("formula", vec![argument("2", vec![math("x")])]);
    let error = validate(&registry, &invocation).unwrap_err();
    assert_eq!(error.cause, "\"formula\" is missing the required attribute \"1\"!");
    let invocation = template("formula", vec![argument("Content", vec![math("x")])]);
    assert!(validate(&registry, &invocation).is_err());
}

#[test]
fn the_failure_of_a_check_is_handed_on_unchanged() {
    let registry = registry();
    let invocation = template("formula", vec![argument("1", vec![text("x")])]);
    let error = validate(&registry, &invocation).unwrap_err();
    assert_eq!(error.cause, "This is not math-formatted text!");
    assert_eq!(error.tree, Some(&text("x")));
    let invocation = template("formula", vec![argument("1", vec![])]);
    let error = validate(&registry, &invocation).unwrap_err();
    assert_eq!(error.cause, "There is none or more than one element in this math tag!");
    assert_eq!(error.tree, None);
}

#[test]
fn a_template_that_meets_its_specification_passes() {
    let registry = registry();
    let invocation = template("formula", vec![argument("1", vec![math("x")])]);
    assert_eq!(validate(&registry, &invocation), Ok(()));
    let invocation = template("formel", vec![argument("content", vec![math("x")])]);
    assert_eq!(validate(&registry, &invocation), Ok(()));
}

#[test]
fn attributes_that_are_not_required_may_be_absent() {
    let registry = registry();
    let invocation = template(
        "exercise",
        vec![argument("task", vec![text("do it")]), argument("solution", vec![])],
    );
    assert_eq!(validate(&registry, &invocation), Ok(()));
}

#[test]
fn attributes_that_are_not_required_are_checked_when_present() {
    let registry = registry();
    let invocation = template(
        "exercise",
        vec![
            argument("task", vec![text("do it")]),
            argument("solution", vec![]),
            argument("numbered", vec![text("ja")]),
        ],
    );
    let error = validate(&registry, &invocation).unwrap_err();
    assert_eq!(error.cause, "The content of this argument is only allowed to be \"nein\".");
    let invocation = template(
        "exercise",
        vec![
            argument("task", vec![text("do it")]),
            argument("solution", vec![]),
            argument("numbered", vec![text(" nein\n")]),
        ],
    );
    assert_eq!(validate(&registry, &invocation), Ok(()));
}

#[test]
fn the_first_failure_in_the_order_of_declaration_wins() {
    let registry = registry();
    let invocation = template(
        "exercise",
        vec![
            argument("numbered", vec![text("ja")]),
            argument("title", vec![math("x")]),
        ],
    );
    let error = validate(&registry, &invocation).unwrap_err();
    assert_eq!(error.cause, "Formatted markup is not allowed in plain text!");
    let invocation = template("exercise", vec![argument("numbered", vec![text("ja")])]);
    let error = validate(&registry, &invocation).unwrap_err();
    assert_eq!(error.cause, "\"exercise\" is missing the required attribute \"task\"!");
}

#[test]
fn checks_of_attributes_look_up_nested_templates() {
    let registry = registry();
    let nested = Element::Template(template("navigation", vec![argument("1", vec![text("x")])]));
    let invocation = template(
        "exercise",
        vec![argument("task", vec![paragraph(vec![nested])]), argument("solution", vec![])],
    );
    let error = validate(&registry, &invocation).unwrap_err();
    assert_eq!(error.cause, "\"navigation\" is not a block or inline template!");
}

#[test]
fn a_template_without_specification_is_reported() {
    let registry = registry();
    let invocation = template("Formula", vec![argument("1", vec![math("x")])]);
    let error = validate(&registry, &invocation).unwrap_err();
    assert_eq!(error.cause, "\"Formula\" has no specification!");
    assert_eq!(error.tree, None);
}

#[test]
fn navigation_is_checked_through_its_specification() {
    let registry = registry();
    let invocation = template("navigation", vec![argument("1", vec![text("oben")])]);
    assert_eq!(validate(&registry, &invocation), Ok(()));
    let invocation = template("navigation", vec![argument("1", vec![text("Oben")])]);
    assert!(validate(&registry, &invocation).is_err());
}

#[test]
fn validating_twice_says_the_same() {
    let registry = registry();
    let good = template("formula", vec![argument("1", vec![math("x")])]);
    assert_eq!(validate(&registry, &good), validate(&registry, &good));
    let bad = template("formula", vec![argument("1", vec![text("x")])]);
    assert_eq!(validate(&registry, &bad), validate(&registry, &bad));
    let missing = template("formula", vec![]);
    assert_eq!(validate(&registry, &missing), validate(&registry, &missing));
    let unknown = template("unknown", vec![]);
    assert_eq!(validate(&registry, &unknown), validate(&registry, &unknown));
}

#[test]
fn the_first_argument_of_a_name_is_found() {
    let content = vec![
        text("between"),
        argument("a", vec![text("first")]),
        argument("b", vec![]),
        argument("a", vec![text("second")]),
    ];
    let names = vec!["x".to_string(), "a".to_string()];
    let found = find_arg(&content, &names).unwrap();
    assert_eq!(found.value, vec![text("first")]);
    let names = vec!["b".to_string(), "a".to_string()];
    assert_eq!(find_arg(&content, &names).unwrap().name, "a");
    let names = vec!["c".to_string()];
    assert_eq!(find_arg(&content, &names), None);
    assert_eq!(find_arg(&content, &Vec::new()), None);
}

#[test]
fn the_specification_of_a_template_is_found_by_the_text_of_its_name() {
    let registry = registry();
    let invocation = Template {
        position: span(),
        name: vec![text("for"), paragraph(vec![text("mula")])],
        content: vec![],
    };
    let found = get_template_spec(&registry, &invocation).unwrap();
    assert_eq!(found.default_name, "formula");
    let invocation = template("formula ", vec![]);
    let error = get_template_spec(&registry, &invocation).unwrap_err();
    assert_eq!(error.cause, "\"formula \" has no specification!");
    assert_eq!(error.tree, None);
}

#[test]
fn every_template_of_a_tree_is_validated() {
    let registry = registry();
    let good = Element::Template(template("formula", vec![argument("1", vec![math("x")])]));
    let tree = vec![paragraph(vec![text("a"), good])];
    assert_eq!(validate_tree(&registry, &tree), Ok(()));
    let bad = Element::Template(template("formula", vec![]));
    let outer = Element::Template(template(
        "exercise",
        vec![argument("task", vec![paragraph(vec![bad])]), argument("solution", vec![])],
    ));
    let tree = vec![text("a"), paragraph(vec![outer])];
    let error = validate_tree(&registry, &tree).unwrap_err();
    assert_eq!(error.cause, "\"formula\" is missing the required attribute \"1\"!");
    assert_eq!(validate_tree(&registry, &[]), Ok(()));
}

fn bold(content: &str) -> Element {
    Element::Formatted(Formatted {
        position: span(),
        markup: MarkupType::Bold,
        content: vec![text(content)],
    })
}

fn template_named(name: Vec<Element>, content: Vec<Element>) -> Template {
    Template { position: span(), name, content }
}

#[test]
fn a_name_in_markup_resolves_to_no_specification() {
    let registry = registry();
    let invocation = template_named(vec![bold("formula")], vec![]);
    let error = get_template_spec(&registry, &invocation).unwrap_err();
    assert_eq!(error.cause, "\"formula\" has no specification!");
    assert_eq!(error.tree, None);
    let invocation = template_named(vec![text("for"), bold("mula")], vec![]);
    let error = get_template_spec(&registry, &invocation).unwrap_err();
    assert_eq!(error.cause, "\"formula\" has no specification!");
    let invocation = template_named(vec![paragraph(vec![paragraph(vec![bold("formula")])])], vec![]);
    let error = get_template_spec(&registry, &invocation).unwrap_err();
    assert_eq!(error.cause, "\"formula\" has no specification!");
    assert_eq!(error.tree, None);
}

#[test]
fn a_name_with_other_content_resolves_to_no_specification() {
    let registry = registry();
    let note = Element::TemplateArgument(TemplateArgument {
        position: span(),
        name: String::new(),
        value: vec![],
    });
    let invocation = template_named(vec![text("formula"), note], vec![]);
    let error = get_template_spec(&registry, &invocation).unwrap_err();
    assert_eq!(error.cause, "\"formula\" has no specification!");
    assert_eq!(error.tree, None);
}

#[test]
fn a_template_with_a_name_in_markup_is_not_validated() {
    let registry = registry();
    let invocation = template_named(vec![bold("formula")], vec![argument("1", vec![math("x")])]);
    let error = validate(&registry, &invocation).unwrap_err();
    assert_eq!(error.cause, "\"formula\" has no specification!");
    assert_eq!(error.tree, None);
    let plain = template("formula", vec![argument("1", vec![math("x")])]);
    assert_eq!(validate(&registry, &plain), Ok(()));
    let tree = vec![paragraph(vec![Element::Template(template_named(
        vec![bold("formula")],
        vec![argument("1", vec![math("x")])],
    ))])];
    let error = validate_tree(&registry, &tree).unwrap_err();
    assert_eq!(error.cause, "\"formula\" has no specification!");
}
