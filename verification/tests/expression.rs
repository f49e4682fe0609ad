use sline_transpiler::{to_chars, transform_expression, Diagnostic, Level, Options};

fn rewrite(tag: &str, alias: Option<&str>, allow_parent: bool) -> (String, Vec<Diagnostic>) {
    let mut diagnostics = Vec::new();
    let text = transform_expression(
        &to_chars(tag),
        alias,
        &Options { allow_parent },
        &mut diagnostics,
    );
    (text, diagnostics)
}

fn warning(message: &str) -> Diagnostic {
    Diagnostic { level: Level::Warning, message: message.to_string() }
}

fn error(message: &str) -> Diagnostic {
    Diagnostic { level: Level::Error, message: message.to_string() }
}

#[test]
fn expression_plain_path_is_unchanged() {
    assert_eq!(rewrite("user.name", None, false), ("user.name".to_string(), vec![]));
    assert_eq!(rewrite("user.name", Some("x"), false), ("user.name".to_string(), vec![]));
}

#[test]
fn expression_is_trimmed() {
    assert_eq!(rewrite("  user.name \n", None, false), ("user.name".to_string(), vec![]));
}

#[test]
fn expression_this_becomes_alias() {
    assert_eq!(rewrite("this", Some("row"), false), ("row".to_string(), vec![]));
}

#[test]
fn expression_this_dot_becomes_alias_dot() {
    assert_eq!(rewrite("this.name", Some("row"), false), ("row.name".to_string(), vec![]));
}

#[test]
fn expression_dot_slash_becomes_alias_dot() {
    assert_eq!(rewrite("./name", Some("row"), false), ("row.name".to_string(), vec![]));
}

#[test]
fn expression_this_without_alias_warns() {
    assert_eq!(
        rewrite("this", None, false),
        ("this".to_string(), vec![warning("Found {{this}} without an each context")])
    );
}

#[test]
fn expression_this_dot_without_alias_drops_prefix() {
    assert_eq!(rewrite("this.name", None, false), ("name".to_string(), vec![]));
}

#[test]
fn expression_dot_slash_without_alias_drops_prefix() {
    assert_eq!(rewrite("./name", None, false), ("name".to_string(), vec![]));
}

#[test]
fn expression_thistle_is_not_this() {
    assert_eq!(rewrite("thistle", Some("row"), false), ("thistle".to_string(), vec![]));
    assert_eq!(rewrite("thistle", None, false), ("thistle".to_string(), vec![]));
}

#[test]
fn expression_parent_rejected_returns_tag_as_given() {
    assert_eq!(
        rewrite(" ../foo ", Some("row"), false),
        (
            " ../foo ".to_string(),
            vec![error("Parent scope access (../) is not supported in Sline")]
        )
    );
}

#[test]
fn expression_parent_stripped_counts_segments() {
    assert_eq!(
        rewrite("../foo", None, true),
        ("foo".to_string(), vec![warning("Stripped 1 parent scope segments (../)")])
    );
    assert_eq!(
        rewrite("../../../a.b", None, true),
        ("a.b".to_string(), vec![warning("Stripped 3 parent scope segments (../)")])
    );
}

#[test]
fn expression_parent_count_is_written_in_decimal() {
    let tag = format!("{}x", "../".repeat(120));
    assert_eq!(
        rewrite(&tag, None, true),
        ("x".to_string(), vec![warning("Stripped 120 parent scope segments (../)")])
    );
}

#[test]
fn expression_parent_stripped_then_resolved() {
    assert_eq!(
        rewrite("../this.name", Some("row"), true),
        ("row.name".to_string(), vec![warning("Stripped 1 parent scope segments (../)")])
    );
    assert_eq!(
        rewrite(".././name", None, true),
        ("name".to_string(), vec![warning("Stripped 1 parent scope segments (../)")])
    );
}

#[test]
fn expression_parent_stripped_then_bare_this_warns_twice() {
    assert_eq!(
        rewrite("../this", None, true),
        (
            "this".to_string(),
            vec![
                warning("Stripped 1 parent scope segments (../)"),
                warning("Found {{this}} without an each context"),
            ]
        )
    );
}

#[test]
fn expression_parent_inside_path_is_not_leading() {
    assert_eq!(rewrite("a/../b", None, false), ("a/../b".to_string(), vec![]));
}

#[test]
fn expression_appends_to_earlier_diagnostics() {
    let mut diagnostics = vec![error("earlier")];
    let text = transform_expression(
        &to_chars("this"),
        None,
        &Options { allow_parent: false },
        &mut diagnostics,
    );
    assert_eq!(text, "this");
    assert_eq!(
        diagnostics,
        vec![error("earlier"), warning("Found {{this}} without an each context")]
    );
}

#[test]
fn expression_empty_is_empty() {
    assert_eq!(rewrite("", None, false), (String::new(), vec![]));
    assert_eq!(rewrite("   ", Some("x"), false), (String::new(), vec![]));
}
