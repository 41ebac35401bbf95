use kdlhtml::error::EvalError;
use kdlhtml::eval::{evaluate, Ctx, DocEntry, DocMap, Env, Halt};
use kdlhtml::node::{Entry, Node, Value};
use kdlhtml::parse::parse_document;
use kdlhtml::strmap::StrMap;

fn leaf(name: &str) -> Node {
    Node { name: name.to_string(), entries: Vec::new(), children: None }
}

fn text_line(t: &str) -> Node {
    Node {
        name: "-".to_string(),
        entries: vec![Entry { name: None, value: Value::Str(t.to_string()) }],
        children: None,
    }
}

fn let_node(pairs: &[(&str, &str)]) -> Node {
    let entries = pairs
        .iter()
        .map(|(k, v)| Entry { name: Some(k.to_string()), value: Value::Str(v.to_string()) })
        .collect();
    Node { name: "let".to_string(), entries, children: None }
}

fn pull_node(path: &str) -> Node {
    Node {
        name: format!("@inclu{}", "de"),
        entries: vec![Entry { name: None, value: Value::Str(path.to_string()) }],
        children: None,
    }
}

fn empty_env() -> Env {
    Env { fs: StrMap::new(), cmds: StrMap::new(), docs: DocMap::new() }
}

fn run_with(nodes: Vec<Node>, env: &Env) -> Result<(String, Vec<String>), Halt> {
    let mut ctx = Ctx { scope: StrMap::new(), wdir: ".".to_string() };
    let mut out = String::new();
    let mut deps: Vec<String> = Vec::new();
    match evaluate(&nodes, 0, &mut ctx, &mut out, &mut deps, env, 1000) {
        Ok(()) => Ok((out, deps)),
        Err(h) => Err(h),
    }
}

fn run(nodes: Vec<Node>) -> Result<(String, Vec<String>), Halt> {
    run_with(nodes, &empty_env())
}

#[test]
fn text_lines_at_root_have_no_indent() {
    let (out, deps) = run(vec![text_line("a"), text_line("b")]).unwrap();
    assert_eq!(out, "a\nb\n");
    assert!(deps.is_empty());
}

#[test]
fn text_line_without_argument_fails() {
    let r = run(vec![leaf("-")]);
    assert!(matches!(r, Err(Halt::Failed(EvalError::MissingArgument))));
}

#[test]
fn let_declares_and_later_let_overwrites() {
    let nodes = vec![
        let_node(&[("a", "1")]),
        text_line("${a}"),
        let_node(&[("a", "3")]),
        text_line("${a}"),
    ];
    let (out, _) = run(nodes).unwrap();
    assert_eq!(out, "1\n3\n");
}

#[test]
fn let_declares_two_entries() {
    let nodes = vec![let_node(&[("a", "1"), ("b", "2")]), text_line("${a}${b}")];
    let (out, _) = run(nodes).unwrap();
    assert_eq!(out, "12\n");
}

#[test]
fn let_stringifies_non_string_values() {
    let entries = vec![Entry { name: Some("n".to_string()), value: Value::Lit("42".to_string()) }];
    let nodes = vec![
        Node { name: "let".to_string(), entries, children: None },
        text_line("${n}"),
    ];
    let (out, _) = run(nodes).unwrap();
    assert_eq!(out, "42\n");
}

#[test]
fn void_element_self_closes_and_ordinary_element_does_not() {
    let (out, _) = run(vec![leaf("img")]).unwrap();
    assert_eq!(out, "<img />\n");
    let (out2, _) = run(vec![leaf("section")]).unwrap();
    assert_eq!(out2, "<section></section>\n");
}

#[test]
fn element_attributes_are_interpolated() {
    let nodes = vec![
        let_node(&[("x", "1")]),
        Node {
            name: "div".to_string(),
            entries: vec![Entry {
                name: Some("x".to_string()),
                value: Value::Str("${x}".to_string()),
            }],
            children: Some(vec![text_line("hi")]),
        },
    ];
    let (out, _) = run(nodes).unwrap();
    assert_eq!(out, "<div x=\"1\">\n\thi\n</div>\n");
}

#[test]
fn element_with_text_argument_closes_inline() {
    let nodes = vec![
        let_node(&[("w", "!")]),
        Node {
            name: "span".to_string(),
            entries: vec![Entry { name: None, value: Value::Str("hi ${w}".to_string()) }],
            children: None,
        },
    ];
    let (out, _) = run(nodes).unwrap();
    assert_eq!(out, "<span>hi !</span>\n");
}

#[test]
fn doctype_at_root_renders() {
    let nodes = vec![Node {
        name: "!doctype".to_string(),
        entries: vec![Entry { name: None, value: Value::Str("html".to_string()) }],
        children: None,
    }];
    let (out, _) = run(nodes).unwrap();
    assert_eq!(out, "<!DOCTYPE html>\n");
}

#[test]
fn doctype_nested_fails() {
    let doctype = Node {
        name: "!doctype".to_string(),
        entries: vec![Entry { name: None, value: Value::Str("html".to_string()) }],
        children: None,
    };
    let nodes = vec![Node {
        name: "div".to_string(),
        entries: Vec::new(),
        children: Some(vec![doctype]),
    }];
    assert!(matches!(run(nodes), Err(Halt::Failed(EvalError::MisplacedDoctype))));
}

#[test]
fn end_to_end_parse_and_render() {
    let src = "let x=\"1\"\ndiv x=\"${x}\" {\n- \"hi\"\n}\n";
    let nodes = parse_document(src).unwrap();
    let (out, _) = run(nodes).unwrap();
    assert_eq!(out, "<div x=\"1\">\n\thi\n</div>\n");
}

#[test]
fn parse_failure_reports_parse_error() {
    assert!(matches!(parse_document("div {"), Err(EvalError::ParseError(_))));
}

#[test]
fn markdown_argument_is_converted() {
    let nodes = vec![Node {
        name: "markdown".to_string(),
        entries: vec![Entry { name: None, value: Value::Str("# hi".to_string()) }],
        children: None,
    }];
    let (out, _) = run(nodes).unwrap();
    assert_eq!(out, "<h1>hi</h1>\n");
}

#[test]
fn markdown_children_compose_the_source() {
    let nodes = vec![Node {
        name: "markdown".to_string(),
        entries: Vec::new(),
        children: Some(vec![leaf("# one"), leaf("two")]),
    }];
    let (out, _) = run(nodes).unwrap();
    assert_eq!(out, "<h1>one</h1>\n<p>two</p>\n");
}

#[test]
fn markdown_is_interpolated_before_conversion() {
    let nodes = vec![
        let_node(&[("t", "title")]),
        Node {
            name: "markdown".to_string(),
            entries: vec![Entry { name: None, value: Value::Str("# ${t}".to_string()) }],
            children: None,
        },
    ];
    let (out, _) = run(nodes).unwrap();
    assert_eq!(out, "<h1>title</h1>\n");
}

#[test]
fn shell_without_snapshot_requests_the_command() {
    let nodes = vec![Node {
        name: "@sh".to_string(),
        entries: vec![Entry { name: None, value: Value::Str("echo hi".to_string()) }],
        children: None,
    }];
    match run(nodes) {
        Err(Halt::NeedCmd(c)) => assert_eq!(c, "echo hi"),
        _ => panic!("expected a command request"),
    }
}

#[test]
fn shell_output_is_indented_per_line() {
    let mut env = empty_env();
    env.cmds.set("echo hi".to_string(), "hi\nthere\n".to_string());
    let sh = Node {
        name: "@sh".to_string(),
        entries: vec![Entry { name: None, value: Value::Str("echo hi".to_string()) }],
        children: None,
    };
    let nodes = vec![Node {
        name: "pre".to_string(),
        entries: Vec::new(),
        children: Some(vec![sh]),
    }];
    let (out, _) = run_with(nodes, &env).unwrap();
    assert_eq!(out, "<pre>\n\thi\n\tthere\n</pre>\n");
}

#[test]
fn pulled_html_file_is_spliced_verbatim() {
    let mut env = empty_env();
    env.fs.set("./frag.html".to_string(), "<p>a</p>\n<p>b</p>\n".to_string());
    let (out, deps) = run_with(vec![pull_node("frag.html")], &env).unwrap();
    assert_eq!(out, "<p>a</p>\n<p>b</p>\n");
    assert_eq!(deps, vec!["./frag.html".to_string()]);
}

#[test]
fn pulled_markdown_file_is_converted() {
    let mut env = empty_env();
    env.fs.set("./doc.md".to_string(), "# Title".to_string());
    let (out, _) = run_with(vec![pull_node("doc.md")], &env).unwrap();
    assert_eq!(out, "<h1>Title</h1>\n");
}

#[test]
fn missing_file_is_requested_and_recorded() {
    match run(vec![pull_node("frag.html")]) {
        Err(Halt::NeedFile(p)) => assert_eq!(p, "./frag.html"),
        _ => panic!("expected a file request"),
    }
}

#[test]
fn unsupported_and_missing_extensions_fail() {
    let mut env = empty_env();
    env.fs.set("./notes.txt".to_string(), "x".to_string());
    env.fs.set("./bare".to_string(), "x".to_string());
    match run_with(vec![pull_node("notes.txt")], &env) {
        Err(Halt::Failed(EvalError::UnsupportedExtension(e))) => assert_eq!(e, "txt"),
        _ => panic!("expected an unsupported-extension error"),
    }
    assert!(matches!(
        run_with(vec![pull_node("bare")], &env),
        Err(Halt::Failed(EvalError::MissingExtension))
    ));
}

#[test]
fn pulled_document_cannot_see_later_bindings() {
    let mut env = empty_env();
    let sub = "- \"${z}\"";
    env.fs.set("./a.kdl".to_string(), sub.to_string());
    env.docs.set("./a.kdl".to_string(), DocEntry::Parsed(parse_document(sub).unwrap()));
    let nodes = vec![pull_node("a.kdl"), let_node(&[("z", "1")])];
    match run_with(nodes, &env) {
        Err(Halt::Failed(EvalError::UnboundVariable(n))) => assert_eq!(n, "z"),
        _ => panic!("expected an unbound-variable error"),
    }
}

#[test]
fn pulled_document_cannot_leak_its_bindings() {
    let mut env = empty_env();
    let sub = "let y=\"inner\"";
    env.fs.set("./a.kdl".to_string(), sub.to_string());
    env.docs.set("./a.kdl".to_string(), DocEntry::Parsed(parse_document(sub).unwrap()));
    let nodes = vec![pull_node("a.kdl"), text_line("${y}")];
    match run_with(nodes, &env) {
        Err(Halt::Failed(EvalError::UnboundVariable(n))) => assert_eq!(n, "y"),
        _ => panic!("expected an unbound-variable error"),
    }
}

#[test]
fn pull_snapshots_scope_and_named_entries_override() {
    let mut env = empty_env();
    let sub = "- \"${x} ${p}\"";
    env.fs.set("./a.kdl".to_string(), sub.to_string());
    env.docs.set("./a.kdl".to_string(), DocEntry::Parsed(parse_document(sub).unwrap()));
    let mut pull = pull_node("a.kdl");
    pull.entries.push(Entry { name: Some("p".to_string()), value: Value::Str("over".to_string()) });
    let nodes = vec![let_node(&[("x", "1"), ("p", "orig")]), pull, text_line("${p}")];
    let (out, _) = run_with(nodes, &env).unwrap();
    assert_eq!(out, "1 over\norig\n");
}

#[test]
fn pull_keeps_depth_and_tracks_chain_in_order() {
    let mut env = empty_env();
    let a = format!("@inclu{} \"b.html\"", "de");
    env.fs.set("./a.kdl".to_string(), a.clone());
    env.fs.set("./b.html".to_string(), "b".to_string());
    env.docs.set("./a.kdl".to_string(), DocEntry::Parsed(parse_document(&a).unwrap()));
    let nodes = vec![Node {
        name: "div".to_string(),
        entries: Vec::new(),
        children: Some(vec![pull_node("a.kdl")]),
    }];
    let (out, deps) = run_with(nodes, &env).unwrap();
    assert_eq!(out, "<div>\n\tb\n</div>\n");
    assert_eq!(deps, vec!["./a.kdl".to_string(), "./b.html".to_string()]);
}

#[test]
fn pull_of_bad_document_reports_the_parse_error() {
    let mut env = empty_env();
    env.fs.set("./a.kdl".to_string(), "div {".to_string());
    env.docs.set("./a.kdl".to_string(), DocEntry::Bad("unclosed block".to_string()));
    match run_with(vec![pull_node("a.kdl")], &env) {
        Err(Halt::Failed(EvalError::ParseError(m))) => assert_eq!(m, "unclosed block"),
        _ => panic!("expected a parse error"),
    }
}

#[test]
fn pull_cycle_exhausts_the_nesting_budget() {
    let mut env = empty_env();
    let a = format!("@inclu{} \"a.kdl\"", "de");
    env.fs.set("./a.kdl".to_string(), a.clone());
    env.docs.set("./a.kdl".to_string(), DocEntry::Parsed(parse_document(&a).unwrap()));
    assert!(matches!(
        run_with(vec![pull_node("a.kdl")], &env),
        Err(Halt::Failed(EvalError::RecursionLimit))
    ));
}

#[test]
fn fetched_kdl_without_parsed_document_requests_it() {
    let mut env = empty_env();
    env.fs.set("./a.kdl".to_string(), "- \"x\"".to_string());
    match run_with(vec![pull_node("a.kdl")], &env) {
        Err(Halt::NeedDoc(p)) => assert_eq!(p, "./a.kdl"),
        _ => panic!("expected a document request"),
    }
}

#[test]
fn unbound_variable_in_text_names_the_variable() {
    match run(vec![text_line("${missing}")]) {
        Err(Halt::Failed(EvalError::UnboundVariable(n))) => assert_eq!(n, "missing"),
        _ => panic!("expected an unbound-variable error"),
    }
}
