use kdlhtml::bindings::{declare_env_text, parse_binding};
use kdlhtml::error::EvalError;
use kdlhtml::interp::interpolate;
use kdlhtml::output::depfile_text;
use kdlhtml::strmap::StrMap;

fn scope_of(pairs: &[(&str, &str)]) -> StrMap {
    let mut s = StrMap::new();
    for (k, v) in pairs {
        s.set(k.to_string(), v.to_string());
    }
    s
}

#[test]
fn interpolate_bound_name_returns_value() {
    let s = scope_of(&[("name", "value")]);
    assert_eq!(interpolate(&s, "${name}").unwrap(), "value");
}

#[test]
fn interpolate_unbound_name_fails() {
    let s = scope_of(&[("name", "value")]);
    match interpolate(&s, "${other}") {
        Err(EvalError::UnboundVariable(n)) => assert_eq!(n, "other"),
        _ => panic!("expected an unbound-variable error"),
    }
}

#[test]
fn interpolate_no_marker_is_identity() {
    let s = scope_of(&[("name", "value")]);
    assert_eq!(interpolate(&s, "plain text, no marker").unwrap(), "plain text, no marker");
    assert_eq!(interpolate(&s, "").unwrap(), "");
    assert_eq!(interpolate(&s, "a $ b } c {").unwrap(), "a $ b } c {");
}

#[test]
fn interpolate_unterminated_marker_fails() {
    let s = scope_of(&[("x", "1")]);
    assert!(matches!(interpolate(&s, "oops ${x"), Err(EvalError::UnterminatedInterpolation)));
    assert!(matches!(interpolate(&s, "${a${x}"), Err(EvalError::UnterminatedInterpolation)));
}

#[test]
fn interpolate_many_markers_left_to_right() {
    let s = scope_of(&[("a", "1"), ("b", "2")]);
    assert_eq!(interpolate(&s, "${a}-${b}-${a}").unwrap(), "1-2-1");
}

#[test]
fn interpolate_is_not_recursive() {
    let s = scope_of(&[("a", "${b}"), ("b", "2")]);
    assert_eq!(interpolate(&s, "${a}").unwrap(), "${b}");
}

#[test]
fn scope_later_binding_shadows() {
    let mut s = scope_of(&[("x", "1")]);
    s.set("x".to_string(), "2".to_string());
    assert_eq!(s.get("x").unwrap(), "2");
    assert!(s.get("y").is_none());
}

#[test]
fn scope_fork_is_independent() {
    let mut s = scope_of(&[("x", "1")]);
    let mut f = s.fork();
    f.set("x".to_string(), "2".to_string());
    f.set("y".to_string(), "3".to_string());
    assert_eq!(s.get("x").unwrap(), "1");
    assert!(s.get("y").is_none());
    s.set("z".to_string(), "4".to_string());
    assert!(f.get("z").is_none());
}

#[test]
fn binding_plain_value() {
    let (k, v) = parse_binding("a=b").unwrap();
    assert_eq!(k, "a");
    assert_eq!(v, "b");
}

#[test]
fn binding_quoted_value_unescapes() {
    let (k, v) = parse_binding("a=\"x \\\" y\"").unwrap();
    assert_eq!(k, "a");
    assert_eq!(v, "x \" y");
}

#[test]
fn binding_lone_quote_is_kept_verbatim() {
    let (_, v) = parse_binding("a=\"").unwrap();
    assert_eq!(v, "\"");
    let (_, v2) = parse_binding("a=\"\"").unwrap();
    assert_eq!(v2, "");
}

#[test]
fn binding_without_equals_is_rejected() {
    assert!(parse_binding("nope").is_none());
}

#[test]
fn env_text_declares_each_line() {
    let mut s = StrMap::new();
    assert!(declare_env_text(&mut s, "a=1\nb=2\n"));
    assert_eq!(s.get("a").unwrap(), "1");
    assert_eq!(s.get("b").unwrap(), "2");
}

#[test]
fn env_text_bad_line_is_rejected() {
    let mut s = StrMap::new();
    assert!(!declare_env_text(&mut s, "a=1\nbroken\n"));
}

#[test]
fn depfile_lists_every_path() {
    let deps = vec!["in.kdl".to_string(), "a.kdl".to_string(), "a.kdl".to_string()];
    assert_eq!(depfile_text(&deps), "stdout: \\\n\tin.kdl \\\n\ta.kdl \\\n\ta.kdl \\\n");
}
