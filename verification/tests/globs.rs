use editorconfig_parser::EditorConfigProperty::{Unspecified, Value};
use editorconfig_parser::EditorConfig;

fn glob_hits(pattern: &str, path: &str) -> bool {
    let text = format!("[{}]\nindent_size = 3", pattern);
    let editor_config = EditorConfig::parse(&text);
    editor_config.resolve(path).indent_size == Value(3)
}

#[test]
fn star_matches_file_at_top_level() {
    assert!(glob_hits("*", "file.ts"));
}

#[test]
fn double_star_matches_across_directories() {
    assert!(glob_hits("**", "dir/sub/file.ts"));
}

#[test]
fn snapshots_pattern_matches_at_any_depth() {
    assert!(glob_hits("**/__snapshots__/**", "dir/__snapshots__/file"));
    assert!(glob_hits("**/__snapshots__/**", "a/b/__snapshots__/c"));
    assert!(!glob_hits("**/__snapshots__/**", "dir/file"));
}

#[test]
fn alternation_matches_each_listed_extension() {
    for path in ["a.ts", "a.tsx", "a.js", "a.jsx", "a.mts", "a.cts"] {
        assert!(glob_hits("*.{ts,tsx,js,jsx,mts,cts}", path), "{}", path);
    }
    assert!(!glob_hits("*.{ts,tsx,js,jsx,mts,cts}", "a.rb"));
    assert!(!glob_hits("*.{ts,tsx,js,jsx,mts,cts}", "a.tsxx"));
    assert!(!glob_hits("*.{ts,tsx,js,jsx,mts,cts}", "a_ts"));
}

#[test]
fn question_mark_matches_one_character() {
    assert!(glob_hits("?", "a"));
    assert!(!glob_hits("?", "ab"));
}

#[test]
fn character_class_and_negation() {
    assert!(glob_hits("[ab].rs", "a.rs"));
    assert!(glob_hits("[ab].rs", "b.rs"));
    assert!(!glob_hits("[ab].rs", "c.rs"));
    assert!(glob_hits("[!ab].rs", "c.rs"));
    assert!(!glob_hits("[!ab].rs", "a.rs"));
}

#[test]
fn pattern_with_separator_is_anchored() {
    assert!(glob_hits("src/*.ts", "src/a.ts"));
    assert!(!glob_hits("src/*.ts", "other/a.ts"));
}

#[test]
fn unclosed_class_leaves_section_inert() {
    let editor_config = EditorConfig::parse("[a[]\nindent_size = 3");
    assert_eq!(editor_config.sections().len(), 1);
    assert_eq!(editor_config.sections()[0].name, "a[");
    // The name does not compile as a glob, so the section matches nothing.
    assert_eq!(editor_config.resolve("a[").indent_size, Unspecified);
    assert_eq!(editor_config.resolve("a").indent_size, Unspecified);
}

#[test]
fn oversized_section_name_is_inert() {
    // A name longer than the compiled-pattern bound never matches; in
    // particular it can never reach globset's regex size limit.
    let long = "a".repeat(5000);
    let text = format!("[{}]\nindent_size = 3\n[*]\nmax_line_length = 80", long);
    let editor_config = EditorConfig::parse(&text);
    assert_eq!(editor_config.sections().len(), 2);
    assert_eq!(editor_config.resolve(&long).indent_size, Unspecified);
    assert_eq!(
        editor_config.resolve(&long).max_line_length,
        Value(editorconfig_parser::MaxLineLength::Number(80))
    );
}

#[test]
fn long_section_name_within_bound_matches() {
    let long = "a".repeat(4000);
    let text = format!("[{}]\nindent_size = 3", long);
    let editor_config = EditorConfig::parse(&text);
    assert_eq!(editor_config.resolve(&long).indent_size, Value(3));
}
