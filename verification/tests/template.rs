use ssm_helper::errors::SSMError;
use ssm_helper::template::parse_template;
use ssm_helper::template::extract_parameters;
use ssm_helper::template::render;
use ssm_helper::template::TemplateElement;

fn names_of(v: &[TemplateElement]) -> Vec<String> {
    v.iter()
        .filter_map(|e| match e {
            TemplateElement::Placeholder(n) => Some(n.clone()),
            _ => None,
        })
        .collect()
}

fn bindings(pairs: &[(&str, &str)]) -> Vec<(String, String)> {
    pairs.iter().map(|(k, v)| (k.to_string(), v.to_string())).collect()
}

#[test]
fn parse_plain_text_is_one_literal() {
    let t = parse_template("no placeholders here").unwrap();
    assert_eq!(t, vec![TemplateElement::Literal("no placeholders here".to_string())]);
}

#[test]
fn parse_empty_template() {
    let t = parse_template("").unwrap();
    assert_eq!(t.len(), 0);
}

#[test]
fn parse_recognizes_placeholder() {
    let t = parse_template("a {{ssm \"/x\"}} b").unwrap();
    assert_eq!(
        t,
        vec![
            TemplateElement::Literal("a ".to_string()),
            TemplateElement::Placeholder("/x".to_string()),
            TemplateElement::Literal(" b".to_string()),
        ]
    );
}

#[test]
fn parse_passes_other_expressions_through() {
    let t = parse_template("x{{other expr}}y").unwrap();
    assert_eq!(
        t,
        vec![
            TemplateElement::Literal("x".to_string()),
            TemplateElement::Passthrough("{{other expr}}".to_string()),
            TemplateElement::Literal("y".to_string()),
        ]
    );
}

#[test]
fn parse_expression_with_extra_argument_is_passthrough() {
    let t = parse_template("{{ssm \"a\" \"b\"}}").unwrap();
    assert_eq!(t, vec![TemplateElement::Passthrough("{{ssm \"a\" \"b\"}}".to_string())]);
}

#[test]
fn parse_unclosed_expression_is_unavailable() {
    let r = parse_template("before {{ssm \"a\" and nothing more");
    assert_eq!(r, Err(SSMError::TemplateUnavailable));
    assert_eq!(
        r.unwrap_err().message(),
        "Template Unavailable".to_string()
    );
}

#[test]
fn parse_empty_expression_is_passthrough() {
    let t = parse_template("{{}}").unwrap();
    assert_eq!(t, vec![TemplateElement::Passthrough("{{}}".to_string())]);
}

#[test]
fn parse_empty_quoted_name_is_a_placeholder() {
    let t = parse_template("{{ssm \"\"}}").unwrap();
    assert_eq!(t, vec![TemplateElement::Placeholder("".to_string())]);
}

#[test]
fn render_without_placeholders_needs_no_bindings() {
    let t = parse_template("static config").unwrap();
    let out = render(&t, &bindings(&[])).unwrap();
    assert_eq!(out, "static config".to_string());
}

#[test]
fn extract_dedups_in_first_occurrence_order() {
    let t = parse_template("x{{ssm \"a\"}}y{{ssm \"a\"}}z{{ssm \"b\"}}").unwrap();
    let names = extract_parameters(&t);
    assert_eq!(names, vec!["a".to_string(), "b".to_string()]);
}

#[test]
fn extract_twice_yields_the_same_names() {
    let t = parse_template("{{ssm \"q\"}}-{{ssm \"p\"}}-{{ssm \"q\"}}").unwrap();
    let first = extract_parameters(&t);
    let second = extract_parameters(&t);
    assert_eq!(first, second);
    assert_eq!(first, vec!["q".to_string(), "p".to_string()]);
}

#[test]
fn extract_ignores_unrecognized_expressions() {
    let t = parse_template("{{ssm}} {{ssm \"a\"}} {{lookup \"b\"}}").unwrap();
    let names = extract_parameters(&t);
    assert_eq!(names, vec!["a".to_string()]);
}

#[test]
fn render_replaces_single_placeholder() {
    let t = parse_template("pre {{ssm \"/x\"}} post").unwrap();
    let out = render(&t, &bindings(&[("/x", "42")])).unwrap();
    assert_eq!(out, "pre 42 post".to_string());
}

#[test]
fn render_fails_on_missing_name() {
    let t = parse_template("{{ssm \"gone\"}}").unwrap();
    let r = render(&t, &bindings(&[("present", "1")]));
    assert_eq!(r, Err(SSMError::InvalidParameters(vec!["gone".to_string()])));
}

#[test]
fn render_emits_nothing_when_any_name_is_missing() {
    let t = parse_template("head {{ssm \"there\"}} mid {{ssm \"missing\"}} tail").unwrap();
    assert!(!extract_parameters(&t).is_empty());
    let r = render(&t, &bindings(&[("there", "v")]));
    assert!(r.is_err());
}

#[test]
fn render_keeps_passthrough_expressions_verbatim() {
    let t = parse_template("a{{not ssm}}b{{ssm \"k\"}}c").unwrap();
    let out = render(&t, &bindings(&[("k", "V")])).unwrap();
    assert_eq!(out, "a{{not ssm}}bVc".to_string());
}

#[test]
fn render_uses_earliest_binding_for_a_name() {
    let t = parse_template("{{ssm \"k\"}}").unwrap();
    let out = render(&t, &bindings(&[("k", "first"), ("k", "second")])).unwrap();
    assert_eq!(out, "first".to_string());
}

#[test]
fn placeholder_names_may_hold_spaces_and_slashes() {
    let t = parse_template("{{ssm \"/app/env var\"}}").unwrap();
    assert_eq!(names_of(&t), vec!["/app/env var".to_string()]);
}
