use template_spec::html;
use template_spec::markdown;
use template_spec::strings::{indent, join, others, repeat};
use template_spec::text::{content_bounds, trim};
use template_spec::{AttributeSpec, Format, Predicate, Priority, Registry, TemplateSpec};

fn formula() -> TemplateSpec {
    TemplateSpec {
        default_name: "formula".to_string(),
        names: vec!["formula".to_string(), "formel".to_string()],
        format: Format::Inline,
        description: "A formula.".to_string(),
        attributes: vec![
            AttributeSpec {
                default_name: "1".to_string(),
                names: vec!["1".to_string(), "formel".to_string(), "content".to_string()],
                priority: Priority::Required,
                predicate: Predicate::IsMathTag,
                description: "the *math*\nsecond line".to_string(),
            },
            AttributeSpec {
                default_name: "label".to_string(),
                names: vec!["label".to_string()],
                priority: Priority::Optional,
                predicate: Predicate::IsPlainText,
                description: String::new(),
            },
        ],
    }
}

#[test]
fn generate_definition_doc() {
    let name = ":Mathe f√ºr Nicht-Freaks: Vorlage:Gruppenaufgabe";
    let mut exercise = formula();
    exercise.default_name = name.to_string();
    exercise.names = vec![name.to_string()];
    let registry = Registry::new(vec![exercise]).unwrap();
    let spec = registry.spec_of(name).expect("Could not find template spec!");
    let document = markdown::template_description(spec, 1);
    assert!(!document.is_empty(), "could not format markdown");
    println!("{}", &document);
}

#[test]
fn markdown_of_a_specification() {
    let expected = "## Documentation for `formula` [inline]\n\n\
                    Other names: *formula, formel*\n\n\
                    A formula.\n\n\
                    ### Template Attributes:\n\n  \
                    - `1` *(formel, content)* [**required**][**is_math_tag**]: \n\n    \
                    the *math*\n    second line\n\n  \
                    - `label` [**optional**][**is_plain_text**]: \n\n    \n\n";
    assert_eq!(markdown::template_description(&formula(), 1), expected);
}

#[test]
fn markdown_headings_follow_the_depth() {
    let mut spec = formula();
    spec.attributes.clear();
    spec.format = Format::Meta;
    let expected = "# Documentation for `formula` [meta]\n\n\
                    Other names: *formula, formel*\n\n\
                    A formula.\n\n\
                    ## Template Attributes:\n\n";
    assert_eq!(markdown::template_description(&spec, 0), expected);
    let deep = markdown::template_description(&spec, 3);
    assert!(deep.starts_with("#### Documentation"));
    assert!(deep.ends_with("\n\n##### Template Attributes:\n\n"));
}

#[test]
fn html_of_a_specification() {
    let expected = "<div class=\"template-doc\"><div class=\"template-title\">\
                    Documentation for formula<span class=\"template-format\">Inline</span></div>\
                    <span class=\"template-aka\">Also known as formula, formel</span><br>\
                    <div class=\"template-description\"><p>A formula.</p>\n</div>\
                    <div class=\"template-attributes\">Attributes:<ul>\
                    <li><div class=\"attribute-doc\"><div class=\"attribute-title\">1\
                    <span class=\"attribute-priority\">Required</span></div>\
                    <span class=\"attribute-aka\">Also known as 1, formel, content</span><br>\
                    <span class=\"attribute-predicate\">is_math_tag</span> must be fulfilled!<br>\
                    <div class=\"attribute-description\"><p>the <em>math</em>\nsecond line</p>\n\
                    </div></li>\
                    <li><div class=\"attribute-doc\"><div class=\"attribute-title\">label\
                    <span class=\"attribute-priority\">Optional</span></div>\
                    <span class=\"attribute-aka\">Also known as label</span><br>\
                    <span class=\"attribute-predicate\">is_plain_text</span> must be fulfilled!<br>\
                    <div class=\"attribute-description\"></div></li>\
                    </ul></div></div>";
    assert_eq!(html::template_description(&formula()), expected);
}

#[test]
fn html_around_given_descriptions() {
    let spec = formula();
    let item = html::attribute_description(&spec.attributes[1], "<p>x</p>");
    assert_eq!(
        item,
        "<li><div class=\"attribute-doc\"><div class=\"attribute-title\">label\
         <span class=\"attribute-priority\">Optional</span></div>\
         <span class=\"attribute-aka\">Also known as label</span><br>\
         <span class=\"attribute-predicate\">is_plain_text</span> must be fulfilled!<br>\
         <div class=\"attribute-description\"><p>x</p></div></li>"
    );
    let document = html::template_document(&spec, "<p>d</p>", "<li>i</li>");
    assert_eq!(
        document,
        "<div class=\"template-doc\"><div class=\"template-title\">\
         Documentation for formula<span class=\"template-format\">Inline</span></div>\
         <span class=\"template-aka\">Also known as formula, formel</span><br>\
         <div class=\"template-description\"><p>d</p></div>\
         <div class=\"template-attributes\">Attributes:<ul><li>i</li></ul></div></div>"
    );
}

#[test]
fn pieces_are_repeated() {
    assert_eq!(repeat("#", 0), "");
    assert_eq!(repeat("#", 3), "###");
    assert_eq!(repeat("ab", 2), "abab");
}

#[test]
fn names_are_joined() {
    let names = vec!["a".to_string(), "b".to_string(), "c".to_string()];
    assert_eq!(join(&names, ", "), "a, b, c");
    assert_eq!(join(&names[..1].to_vec(), ", "), "a");
    assert_eq!(join(&Vec::new(), ", "), "");
    assert_eq!(join(&vec![String::new(), String::new()], "-"), "-");
}

#[test]
fn other_names_leave_out_the_given_one() {
    let names = vec!["a".to_string(), "b".to_string(), "a".to_string(), "c".to_string()];
    assert_eq!(others(&names, "a"), vec!["b".to_string(), "c".to_string()]);
    assert_eq!(others(&names, "x"), names);
    assert_eq!(others(&Vec::new(), "a"), Vec::<String>::new());
}

#[test]
fn lines_are_indented() {
    assert_eq!(indent(""), "    ");
    assert_eq!(indent("a"), "    a");
    assert_eq!(indent("a\nb"), "    a\n    b");
    assert_eq!(indent("a\n"), "    a\n    ");
    assert_eq!(indent("\n\nü"), "    \n    \n    ü");
}

#[test]
fn white_space_is_cut_off_both_ends() {
    assert_eq!(trim(""), "");
    assert_eq!(trim("   "), "");
    assert_eq!(trim("a"), "a");
    assert_eq!(trim("  a b \t\n"), "a b");
    assert_eq!(trim("\u{2003}ü ä\u{3000}"), "ü ä");
    assert_eq!(trim("a  "), "a");
    assert_eq!(trim("  a"), "a");
}

#[test]
fn bounds_of_what_is_not_white() {
    assert_eq!(content_bounds(&[]), (0, 0));
    assert_eq!(content_bounds(&[true, true]), (0, 0));
    assert_eq!(content_bounds(&[false]), (0, 1));
    assert_eq!(content_bounds(&[true, false, true, false, true, true]), (1, 4));
    assert_eq!(content_bounds(&[false, true, true]), (0, 1));
    assert_eq!(content_bounds(&[true, true, false]), (2, 3));
}

#[test]
fn white_space_is_what_the_unicode_property_says() {
    let listed = |c: char| {
        matches!(
            c as u32,
            0x09..=0x0D
                | 0x20
                | 0x85
                | 0xA0
                | 0x1680
                | 0x2000..=0x200A
                | 0x2028
                | 0x2029
                | 0x202F
                | 0x205F
                | 0x3000
        )
    };
    let mut white = 0;
    for code in 0..=0x10FFFF_u32 {
        if let Some(c) = char::from_u32(code) {
            let alone = c.to_string();
            assert_eq!(trim(&alone).is_empty(), listed(c), "U+{:04X}", code);
            if listed(c) {
                white += 1;
            }
        }
    }
    assert_eq!(white, 25);
}
