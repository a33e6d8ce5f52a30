use cornetto::fields::{
    Annotation, AnnotationEntry, CornettoField, CornettoKind, DefaultValue, ParseError,
    SourceField,
};

fn term(name: &str) -> AnnotationEntry {
    AnnotationEntry::Term(Some(name.to_string()))
}

fn number(text: &str) -> AnnotationEntry {
    AnnotationEntry::Literal(DefaultValue { text: text.to_string(), textual: false })
}

fn quoted(text: &str) -> AnnotationEntry {
    AnnotationEntry::Literal(DefaultValue { text: text.to_string(), textual: true })
}

fn field(name: &str, ty: &str, annotations: Vec<Annotation>) -> SourceField {
    SourceField { name: name.to_string(), ty: ty.to_string(), annotations }
}

fn one_group(name: &str, ty: &str, entries: Vec<AnnotationEntry>) -> SourceField {
    field(name, ty, vec![Annotation::Group(entries)])
}

#[test]
fn mutable_field_with_number() {
    let source = one_group("price", "u64", vec![term("mut"), number("200")]);
    let parsed = CornettoField::from_source(&source).unwrap();
    assert_eq!(
        parsed,
        CornettoField {
            ident: "price".to_string(),
            value: DefaultValue { text: "200".to_string(), textual: false },
            kind: CornettoKind::Testmutable,
            ty: "u64".to_string(),
        }
    );
}

#[test]
fn constant_field_with_text() {
    let source = one_group("label", "String", vec![term("const"), quoted("\"shop\"")]);
    let parsed = CornettoField::from_source(&source).unwrap();
    assert_eq!(parsed.kind, CornettoKind::Constant);
    assert_eq!(parsed.ident, "label");
    assert_eq!(parsed.ty, "String");
    assert_eq!(parsed.value, DefaultValue { text: "\"shop\"".to_string(), textual: true });
}

#[test]
fn order_of_term_and_literal_does_not_matter() {
    let first = one_group("price", "u64", vec![term("mut"), number("200")]);
    let second = one_group("price", "u64", vec![number("200"), term("mut")]);
    assert_eq!(CornettoField::from_source(&first), CornettoField::from_source(&second));
    assert!(CornettoField::from_source(&second).is_ok());
}

#[test]
fn groups_of_one_field_count_together() {
    let source = field(
        "price",
        "u64",
        vec![Annotation::Group(vec![number("200")]), Annotation::Group(vec![term("const")])],
    );
    let parsed = CornettoField::from_source(&source).unwrap();
    assert_eq!(parsed.kind, CornettoKind::Constant);
    assert_eq!(parsed.value.text, "200");
}

#[test]
fn empty_groups_change_nothing() {
    let source = field(
        "price",
        "u64",
        vec![
            Annotation::Group(vec![]),
            Annotation::Group(vec![term("mut"), number("1")]),
            Annotation::Group(vec![]),
        ],
    );
    assert!(CornettoField::from_source(&source).is_ok());
}

#[test]
fn annotation_that_is_no_group_fails() {
    let source = field("price", "u64", vec![Annotation::Other]);
    assert_eq!(CornettoField::from_source(&source), Err(ParseError::NotAGroup));
}

#[test]
fn annotation_that_is_no_group_fails_after_a_complete_group() {
    let source = field(
        "price",
        "u64",
        vec![Annotation::Group(vec![term("mut"), number("1")]), Annotation::Other],
    );
    assert_eq!(CornettoField::from_source(&source), Err(ParseError::NotAGroup));
}

#[test]
fn unknown_term_fails() {
    let source = one_group("price", "u64", vec![term("static"), number("200")]);
    assert_eq!(
        CornettoField::from_source(&source),
        Err(ParseError::UnexpectedTerm(Some("static".to_string())))
    );
}

#[test]
fn term_that_is_a_longer_path_fails() {
    let source = one_group("price", "u64", vec![AnnotationEntry::Term(None), number("200")]);
    assert_eq!(CornettoField::from_source(&source), Err(ParseError::UnexpectedTerm(None)));
}

#[test]
fn terms_are_case_sensitive() {
    let source = one_group("price", "u64", vec![term("Mut"), number("200")]);
    assert_eq!(
        CornettoField::from_source(&source),
        Err(ParseError::UnexpectedTerm(Some("Mut".to_string())))
    );
}

#[test]
fn two_mutability_terms_fail() {
    let source = one_group("price", "u64", vec![term("mut"), term("const"), number("200")]);
    assert_eq!(CornettoField::from_source(&source), Err(ParseError::DuplicateKind));
}

#[test]
fn the_same_term_twice_fails() {
    let source = one_group("price", "u64", vec![term("mut"), number("200"), term("mut")]);
    assert_eq!(CornettoField::from_source(&source), Err(ParseError::DuplicateKind));
}

#[test]
fn second_term_is_refused_before_its_name_is_read() {
    let source = one_group("price", "u64", vec![term("mut"), term("static"), number("200")]);
    assert_eq!(CornettoField::from_source(&source), Err(ParseError::DuplicateKind));
}

#[test]
fn two_terms_in_two_groups_fail() {
    let source = field(
        "price",
        "u64",
        vec![
            Annotation::Group(vec![term("mut"), number("200")]),
            Annotation::Group(vec![term("const")]),
        ],
    );
    assert_eq!(CornettoField::from_source(&source), Err(ParseError::DuplicateKind));
}

#[test]
fn two_literals_fail() {
    let source = one_group("price", "u64", vec![term("mut"), number("200"), number("300")]);
    assert_eq!(CornettoField::from_source(&source), Err(ParseError::DuplicateValue));
}

#[test]
fn two_literals_of_different_kinds_fail() {
    let source = one_group("price", "u64", vec![number("200"), quoted("\"x\""), term("mut")]);
    assert_eq!(CornettoField::from_source(&source), Err(ParseError::DuplicateValue));
}

#[test]
fn missing_term_fails() {
    let source = one_group("price", "u64", vec![number("200")]);
    assert_eq!(CornettoField::from_source(&source), Err(ParseError::MissingKind));
}

#[test]
fn missing_literal_fails() {
    let source = one_group("price", "u64", vec![term("mut")]);
    assert_eq!(CornettoField::from_source(&source), Err(ParseError::MissingValue));
}

#[test]
fn field_without_annotations_misses_its_term_first() {
    let source = field("price", "u64", vec![]);
    assert_eq!(CornettoField::from_source(&source), Err(ParseError::MissingKind));
}

#[test]
fn first_refused_entry_decides() {
    let source = one_group(
        "price",
        "u64",
        vec![number("1"), number("2"), term("mut"), term("const")],
    );
    assert_eq!(CornettoField::from_source(&source), Err(ParseError::DuplicateValue));
}

#[test]
fn list_keeps_declaration_order() {
    let fields = vec![
        one_group("price", "u64", vec![term("mut"), number("200")]),
        one_group("const_price", "u64", vec![term("const"), number("150")]),
        one_group("strin", "String", vec![term("mut"), quoted("\"youhouhou\"")]),
    ];
    let parsed = CornettoField::parse(&fields).unwrap();
    assert_eq!(parsed.len(), 3);
    assert_eq!(parsed[0].ident, "price");
    assert_eq!(parsed[1].ident, "const_price");
    assert_eq!(parsed[2].ident, "strin");
    assert_eq!(parsed[0].kind, CornettoKind::Testmutable);
    assert_eq!(parsed[1].kind, CornettoKind::Constant);
    assert_eq!(parsed[2].kind, CornettoKind::Testmutable);
    assert_eq!(parsed[1].value.text, "150");
    assert!(parsed[2].value.textual);
}

#[test]
fn list_agrees_with_single_fields() {
    let fields = vec![
        one_group("a", "u8", vec![term("mut"), number("1")]),
        one_group("b", "bool", vec![number("true"), term("const")]),
    ];
    let parsed = CornettoField::parse(&fields).unwrap();
    for i in 0..fields.len() {
        assert_eq!(parsed[i], CornettoField::from_source(&fields[i]).unwrap());
    }
}

#[test]
fn empty_list_has_no_descriptors() {
    assert_eq!(CornettoField::parse(&vec![]), Ok(vec![]));
}

#[test]
fn first_failing_field_decides() {
    let fields = vec![
        one_group("a", "u8", vec![term("mut"), number("1")]),
        one_group("b", "u8", vec![term("mut")]),
        one_group("c", "u8", vec![number("1")]),
    ];
    assert_eq!(CornettoField::parse(&fields), Err(ParseError::MissingValue));
}

#[test]
fn one_bad_field_fails_the_list() {
    let good = one_group("a", "u8", vec![term("mut"), number("1")]);
    let no_term = one_group("b", "u8", vec![number("1")]);
    let two_terms = one_group("b", "u8", vec![term("mut"), term("mut"), number("1")]);
    let no_literal = one_group("b", "u8", vec![term("const")]);
    let two_literals = one_group("b", "u8", vec![term("const"), number("1"), number("1")]);
    for bad in [no_term, two_terms, no_literal, two_literals] {
        assert!(CornettoField::parse(&vec![good.clone(), bad.clone()]).is_err());
        assert!(CornettoField::parse(&vec![bad, good.clone()]).is_err());
    }
}

#[test]
fn messages_name_the_cause() {
    assert_eq!(ParseError::NotAGroup.message(), "Cannot parse other than a grouped list");
    assert_eq!(
        ParseError::UnreadableLiteral.message(),
        "Cannot read a literal of the annotation"
    );
    assert_eq!(
        ParseError::UnexpectedTerm(Some("static".to_string())).message(),
        "Unexpected term static"
    );
    assert_eq!(
        ParseError::UnexpectedTerm(None).message(),
        "Unexpected term that is not an identifier"
    );
    assert_eq!(ParseError::DuplicateKind.message(), "Duplication of field terms const, mut");
    assert_eq!(ParseError::DuplicateValue.message(), "Duplication of field default value");
    assert_eq!(ParseError::MissingKind.message(), "Field needs to be const or mut");
    assert_eq!(ParseError::MissingValue.message(), "Field needs a default literal value");
}

#[test]
fn duplicate_keeps_text_and_kind() {
    let value = DefaultValue { text: "\"shop\"".to_string(), textual: true };
    assert_eq!(value.duplicate(), value);
}

#[test]
fn annotation_with_an_unreadable_literal_fails() {
    let source = field("price", "u64", vec![Annotation::Unreadable]);
    assert_eq!(CornettoField::from_source(&source), Err(ParseError::UnreadableLiteral));
}

#[test]
fn unreadable_literal_fails_after_a_complete_group() {
    let source = field(
        "price",
        "u64",
        vec![Annotation::Group(vec![term("mut"), number("1")]), Annotation::Unreadable],
    );
    assert_eq!(CornettoField::from_source(&source), Err(ParseError::UnreadableLiteral));
}

#[test]
fn first_bad_annotation_decides_the_cause() {
    let first = field("price", "u64", vec![Annotation::Other, Annotation::Unreadable]);
    assert_eq!(CornettoField::from_source(&first), Err(ParseError::NotAGroup));
    let second = field("price", "u64", vec![Annotation::Unreadable, Annotation::Other]);
    assert_eq!(CornettoField::from_source(&second), Err(ParseError::UnreadableLiteral));
}
