use trace4rs::template::{Place, Placeholder, Segment, Template, TemplateError};

fn lit(text: &str) -> Segment {
    Segment::Literal(text.to_string())
}

fn segments(text: &str) -> Vec<Segment> {
    match Template::new(text) {
        Ok(t) => t.segments,
        Err(e) => panic!("{:?}", e),
    }
}

fn fault(text: &str) -> TemplateError {
    match Template::new(text) {
        Ok(t) => panic!("{:?}", t),
        Err(e) => e,
    }
}

fn source(segments: &[Segment]) -> String {
    let mut back = String::new();
    for s in segments {
        match s {
            Segment::Literal(l) => back.push_str(l),
            Segment::Field(Placeholder::Timestamp) => back.push_str("{T}"),
            Segment::Field(Placeholder::Target) => back.push_str("{t}"),
            Segment::Field(Placeholder::Message) => back.push_str("{m}"),
            Segment::Field(Placeholder::Fields) => back.push_str("{f}"),
            Segment::Field(Placeholder::Level) => back.push_str("{l}"),
        }
    }
    back
}

#[test]
fn empty_template_has_no_segments() {
    assert_eq!(segments(""), vec![]);
}

#[test]
fn text_without_fields_is_one_literal() {
    assert_eq!(
        segments("just text, [no] (fields)\n"),
        vec![lit("just text, [no] (fields)\n")]
    );
    assert_eq!(segments("a \\ b"), vec![lit("a \\ b")]);
    assert_eq!(segments("\\"), vec![lit("\\")]);
}

#[test]
fn each_placeholder_has_its_name() {
    assert_eq!(segments("{T}"), vec![Segment::Field(Placeholder::Timestamp)]);
    assert_eq!(segments("{t}"), vec![Segment::Field(Placeholder::Target)]);
    assert_eq!(segments("{m}"), vec![Segment::Field(Placeholder::Message)]);
    assert_eq!(segments("{f}"), vec![Segment::Field(Placeholder::Fields)]);
    assert_eq!(segments("{l}"), vec![Segment::Field(Placeholder::Level)]);
}

#[test]
fn text_and_fields_alternate() {
    assert_eq!(
        segments("{T} [{l}] {t}: {m}{f}!"),
        vec![
            Segment::Field(Placeholder::Timestamp),
            lit(" ["),
            Segment::Field(Placeholder::Level),
            lit("] "),
            Segment::Field(Placeholder::Target),
            lit(": "),
            Segment::Field(Placeholder::Message),
            Segment::Field(Placeholder::Fields),
            lit("!"),
        ]
    );
}

#[test]
fn text_may_hold_any_character() {
    assert_eq!(
        segments("\u{e9}t\u{e9} {m} \u{1f600}"),
        vec![lit("\u{e9}t\u{e9} "), Segment::Field(Placeholder::Message), lit(" \u{1f600}")]
    );
}

#[test]
fn bracket_behind_a_backslash_is_text() {
    assert_eq!(segments("\\{m\\}"), vec![lit("\\{m\\}")]);
    assert_eq!(segments("a\\}b"), vec![lit("a\\}b")]);
    assert_eq!(
        segments("\\{{m}\\}"),
        vec![lit("\\{"), Segment::Field(Placeholder::Message), lit("\\}")]
    );
    assert_eq!(segments("\\\\{m"), vec![lit("\\\\{m")]);
}

#[test]
fn backslash_counts_for_the_next_character_only() {
    assert_eq!(
        fault("\\{m}"),
        TemplateError::IllegalCharacter('}', Place::OutsideField)
    );
    assert_eq!(
        fault("\\\\{m}"),
        TemplateError::IllegalCharacter('}', Place::OutsideField)
    );
    assert_eq!(segments("\\a{m}"), vec![lit("\\a"), Segment::Field(Placeholder::Message)]);
}

#[test]
fn field_that_is_never_closed_is_text() {
    assert_eq!(segments("{"), vec![lit("{")]);
    assert_eq!(segments("{m"), vec![lit("{m")]);
    assert_eq!(segments("{unknown"), vec![lit("{unknown")]);
    assert_eq!(
        segments("a{m}b{t"),
        vec![lit("a"), Segment::Field(Placeholder::Message), lit("b{t")]
    );
}

#[test]
fn unknown_field_is_refused() {
    assert_eq!(fault("{x}"), TemplateError::UnknownField("x".to_string()));
    assert_eq!(fault("{m} {message}"), TemplateError::UnknownField("message".to_string()));
    assert_eq!(fault("{ m}"), TemplateError::UnknownField(" m".to_string()));
    assert_eq!(fault("{M}"), TemplateError::UnknownField("M".to_string()));
    assert_eq!(fault("{tt}"), TemplateError::UnknownField("tt".to_string()));
    assert_eq!(fault("{\u{e9}}"), TemplateError::UnknownField("\u{e9}".to_string()));
}

#[test]
fn empty_field_is_refused() {
    assert_eq!(fault("{}"), TemplateError::EmptyField);
    assert_eq!(fault("{m}{}"), TemplateError::EmptyField);
}

#[test]
fn closing_bracket_alone_is_refused() {
    assert_eq!(fault("}"), TemplateError::IllegalCharacter('}', Place::OutsideField));
    assert_eq!(fault("ab}"), TemplateError::IllegalCharacter('}', Place::OutsideField));
    assert_eq!(fault("{m}}"), TemplateError::IllegalCharacter('}', Place::OutsideField));
}

#[test]
fn bracket_or_backslash_inside_a_field_is_refused() {
    assert_eq!(fault("{{m}}"), TemplateError::IllegalCharacter('{', Place::InsideField));
    assert_eq!(fault("a{m{t}"), TemplateError::IllegalCharacter('{', Place::InsideField));
    assert_eq!(fault("{m\\}"), TemplateError::IllegalCharacter('\\', Place::InsideField));
    assert_eq!(fault("{\\m}"), TemplateError::IllegalCharacter('\\', Place::InsideField));
    assert_eq!(fault("{m\\"), TemplateError::IllegalCharacter('\\', Place::InsideField));
}

#[test]
fn first_fault_is_the_one_that_counts() {
    assert_eq!(fault("{x} }"), TemplateError::UnknownField("x".to_string()));
    assert_eq!(fault("} {x}"), TemplateError::IllegalCharacter('}', Place::OutsideField));
    assert_eq!(fault("{m} {y} {}"), TemplateError::UnknownField("y".to_string()));
    assert_eq!(fault("{} {y}"), TemplateError::EmptyField);
}

#[test]
fn template_knows_its_placeholders() {
    let t = Template::new("{l} {m}").unwrap();
    assert!(t.has(Placeholder::Level));
    assert!(t.has(Placeholder::Message));
    assert!(!t.has(Placeholder::Timestamp));
    assert!(!t.has(Placeholder::Target));
    assert!(!t.has(Placeholder::Fields));
    assert_eq!(t.clone(), t);
    assert!(!Template::new("\\{T}").is_ok());
    assert!(!Template::new("{T").unwrap().has(Placeholder::Timestamp));
}

#[test]
fn segments_write_the_template_back() {
    for text in [
        "",
        "{T} [{l}] {t}: {m} ({f})\n",
        "\\{not a field\\} {m}",
        "tail {m} {t",
        "\\\\{",
        "{m}{m}{m}",
    ] {
        assert_eq!(source(&segments(text)), text);
    }
}
