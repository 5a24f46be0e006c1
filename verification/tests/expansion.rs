//! Variables in commands, values and paths.

use kubelet::expand::{
    bounded_env_vars, expand_env_vars, expand_k8s_vars, expand_subpath_expr, expand_value,
    leaves_upwards, settles_within,
};
use kubelet::shell::{needs_shell_quoting, shell_join};

fn pairs(list: &[(&str, &str)]) -> Vec<(String, String)> {
    list.iter().map(|p| (p.0.to_string(), p.1.to_string())).collect()
}

fn texts(list: &[&str]) -> Vec<String> {
    list.iter().map(|s| s.to_string()).collect()
}

#[test]
fn test_expand_subpath_expr_basic() {
    let env = pairs(&[("POD_NAME", "my-pod"), ("NAMESPACE", "default")]);
    let result = expand_subpath_expr("$(POD_NAME)", &env);
    assert_eq!(result.unwrap(), "my-pod");
}

#[test]
fn test_expand_subpath_expr_multiple_vars() {
    let env = pairs(&[("POD_NAME", "my-pod"), ("NAMESPACE", "default")]);
    let result = expand_subpath_expr("$(NAMESPACE)/$(POD_NAME)", &env);
    assert_eq!(result.unwrap(), "default/my-pod");
}

#[test]
fn test_expand_subpath_expr_rejects_backticks_in_expr() {
    let env = pairs(&[("POD_NAME", "my-pod")]);
    let result = expand_subpath_expr("$(POD_NAME)`echo hack`", &env);
    assert!(result.is_err());
    assert!(result.unwrap_err().contains("backtick"));
}

#[test]
fn test_expand_subpath_expr_rejects_absolute_path() {
    let env = pairs(&[("DIR", "/etc")]);
    let result = expand_subpath_expr("$(DIR)/passwd", &env);
    assert!(result.is_err());
    assert!(result.unwrap_err().contains("absolute path"));
}

#[test]
fn test_expand_subpath_expr_rejects_dotdot_component() {
    let env = pairs(&[("DIR", "foo")]);
    let result = expand_subpath_expr("$(DIR)/../secret", &env);
    assert!(result.is_err());
    assert!(result.unwrap_err().contains(".."));
}

#[test]
fn test_expand_subpath_expr_allows_dots_in_name() {
    let env = pairs(&[("POD_NAME", "foo..bar")]);
    let result = expand_subpath_expr("$(POD_NAME)", &env);
    assert_eq!(result.unwrap(), "foo..bar");
    assert!(!leaves_upwards("foo..bar"));
    assert!(leaves_upwards("foo/../bar"));
}

#[test]
fn test_expand_subpath_expr_backtick_checked_before_expansion() {
    let env = pairs(&[("POD_NAME", "/tmp")]);
    let result = expand_subpath_expr("`$(POD_NAME)`", &env);
    assert!(result.is_err());
    assert!(result.unwrap_err().contains("backtick"));
}

#[test]
fn test_expand_k8s_vars_preserves_shell_substitutions() {
    let env = pairs(&[("MY_VAR", "hello"), ("PORT", "8080")]);
    let expand = |items: &[&str]| expand_k8s_vars(&texts(items), &env);
    assert_eq!(expand(&["echo $(MY_VAR)"]), vec!["echo hello"]);
    assert_eq!(expand(&["test $(id -u) -eq 65534"]), vec!["test $(id -u) -eq 65534"]);
    assert_eq!(expand(&["$(MY_VAR):$(PORT) $(unknown)"]), vec!["hello:8080 $(unknown)"]);
    assert_eq!(expand(&["plain text"]), vec!["plain text"]);
    assert_eq!(
        expand(&["check=$$(dig +notcp)"]),
        vec!["check=$(dig +notcp)"],
        "$$ should be unescaped to $ for shell command substitution"
    );
    assert_eq!(expand(&["$$A $$B $$(cmd)"]), vec!["$A $B $(cmd)"]);
    assert_eq!(
        expand(&["$$(echo $(MY_VAR))"]),
        vec!["$(echo hello)"],
        "$$ unescaped then $(MY_VAR) expanded"
    );
    assert_eq!(expand(&["$$$$$$(BIG_MONEY)"]), vec!["$$$(BIG_MONEY)"]);
    assert_eq!(
        expand(&[r#"for i in 1 2 3; do check="$$(dig +notcp)" && test -n "$$check"; done"#]),
        vec![r#"for i in 1 2 3; do check="$(dig +notcp)" && test -n "$check"; done"#],
        "DNS probe command $$ escaping must produce valid shell syntax"
    );
}

#[test]
fn values_take_in_earlier_ones() {
    let env = pairs(&[("A", "1"), ("B", "2")]);
    assert!(settles_within("$(A)-$(B)", &env, false, 100));
    assert_eq!(expand_value("$(A)-$(B)", &env), "1-2");
    assert_eq!(expand_value("<$(C)>", &env), "<>");
    assert!(!settles_within("$(L)", &pairs(&[("L", "x$(L)")]), false, 1000));
}

#[test]
fn braced_names_are_replaced() {
    let env = pairs(&[("HOME", "/root"), ("USER", "me")]);
    assert_eq!(expand_env_vars("${HOME}/${USER}", &env), "/root/me");
    assert_eq!(expand_env_vars("plain", &env), "plain");
    assert_eq!(expand_env_vars("$HOME/$USER-$NOBODY$", &env), "/root/me-$");
}

#[test]
fn texts_are_expanded_by_characters() {
    let env = pairs(&[("A", "\u{e9}"), ("\u{e9}", "acute"), ("\u{e9}a", "both"), ("L", "${L}")]);
    assert_eq!(expand_env_vars("\u{e9}", &env), "\u{e9}");
    assert_eq!(expand_env_vars("$A!", &env), "\u{e9}!");
    assert_eq!(expand_env_vars("$\u{e9}", &env), "acute");
    assert_eq!(expand_env_vars("$\u{e9}a", &env), "both");
    assert_eq!(expand_env_vars("$\u{2014}", &env), "$\u{2014}");
    assert_eq!(expand_env_vars("${A}", &env), "\u{e9}");
    assert_eq!(bounded_env_vars("${A}", &env, 10).as_deref(), Some("\u{e9}"));
    assert_eq!(bounded_env_vars("${L}", &env, 10), None);
}

#[test]
fn an_unknown_name_in_a_path_is_an_error() {
    assert_eq!(
        expand_subpath_expr("$(NOPE)", &vec![]).unwrap_err(),
        "variable NOPE not found"
    );
}

#[test]
fn commands_are_quoted_for_the_shell() {
    assert!(!needs_shell_quoting("plain"));
    assert!(needs_shell_quoting("two words"));
    assert_eq!(shell_join(&texts(&["echo", "two words", "it's"])), "echo 'two words' 'it'\\''s'");
    assert_eq!(shell_join(&texts(&["a", "", "b;c", "$HOME \"x\""])), "a '' 'b;c' \"$HOME \\\"x\\\"\"");
}
