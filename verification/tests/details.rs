use editorconfig_parser::EditorConfigProperty::{Unset, Unspecified, Value};
use editorconfig_parser::{
    Charset, EditorConfig, EditorConfigProperty, EndOfLine, IndentStyle, MaxLineLength,
};

#[test]
fn bool_tokens() {
    assert_eq!(EditorConfigProperty::<bool>::parse("true"), Value(true));
    assert_eq!(EditorConfigProperty::<bool>::parse("TRUE"), Value(true));
    assert_eq!(EditorConfigProperty::<bool>::parse("False"), Value(false));
    assert_eq!(EditorConfigProperty::<bool>::parse("unset"), Unset);
    assert_eq!(EditorConfigProperty::<bool>::parse("yes"), Unspecified);
    assert_eq!(EditorConfigProperty::<bool>::parse(""), Unspecified);
}

#[test]
fn number_tokens() {
    assert_eq!(EditorConfigProperty::<usize>::parse("2"), Value(2));
    assert_eq!(EditorConfigProperty::<usize>::parse("+8"), Value(8));
    assert_eq!(EditorConfigProperty::<usize>::parse("007"), Value(7));
    assert_eq!(EditorConfigProperty::<usize>::parse("UNSET"), Unset);
    assert_eq!(EditorConfigProperty::<usize>::parse("-2"), Unspecified);
    assert_eq!(EditorConfigProperty::<usize>::parse("2.5"), Unspecified);
    assert_eq!(EditorConfigProperty::<usize>::parse("+"), Unspecified);
    assert_eq!(
        EditorConfigProperty::<usize>::parse("99999999999999999999999999"),
        Unspecified
    );
}

#[test]
fn indent_style_tokens() {
    assert_eq!(IndentStyle::parse("tab"), Value(IndentStyle::Tab));
    assert_eq!(IndentStyle::parse("Space"), Value(IndentStyle::Space));
    assert_eq!(IndentStyle::parse("unset"), Unset);
    assert_eq!(IndentStyle::parse("spaces"), Unspecified);
}

#[test]
fn end_of_line_tokens() {
    assert_eq!(EditorConfigProperty::<EndOfLine>::parse("lf"), Value(EndOfLine::Lf));
    assert_eq!(EditorConfigProperty::<EndOfLine>::parse("CR"), Value(EndOfLine::Cr));
    assert_eq!(EditorConfigProperty::<EndOfLine>::parse("CrLf"), Value(EndOfLine::Crlf));
    assert_eq!(EditorConfigProperty::<EndOfLine>::parse("unset"), Unset);
    assert_eq!(EditorConfigProperty::<EndOfLine>::parse("nel"), Unspecified);
}

#[test]
fn charset_tokens() {
    assert_eq!(EditorConfigProperty::<Charset>::parse("utf-8"), Value(Charset::Utf8));
    assert_eq!(EditorConfigProperty::<Charset>::parse("UTF-8-BOM"), Value(Charset::Utf8bom));
    assert_eq!(EditorConfigProperty::<Charset>::parse("latin1"), Value(Charset::Latin1));
    assert_eq!(EditorConfigProperty::<Charset>::parse("utf-16be"), Value(Charset::Utf16be));
    assert_eq!(EditorConfigProperty::<Charset>::parse("utf-16le"), Value(Charset::Utf16le));
    assert_eq!(EditorConfigProperty::<Charset>::parse("unset"), Unset);
    assert_eq!(EditorConfigProperty::<Charset>::parse("utf8"), Unspecified);
}

#[test]
fn max_line_length_tokens() {
    assert_eq!(
        EditorConfigProperty::<MaxLineLength>::parse("off"),
        Value(MaxLineLength::Off)
    );
    assert_eq!(
        EditorConfigProperty::<MaxLineLength>::parse("80"),
        Value(MaxLineLength::Number(80))
    );
    assert_eq!(EditorConfigProperty::<MaxLineLength>::parse("bogus"), Unspecified);
    assert_eq!(EditorConfigProperty::<MaxLineLength>::parse("unset"), Unset);
}

#[test]
fn root_key_is_case_sensitive_value_is_not() {
    assert!(!EditorConfig::parse("ROOT = true").root());
    assert!(EditorConfig::parse("root = TRUE").root());
    assert!(EditorConfig::parse("root=true").root());
}

#[test]
fn root_only_in_preamble() {
    let editor_config = EditorConfig::parse("[*]\nroot = true");
    assert!(!editor_config.root());
}

#[test]
fn malformed_header_still_closes_preamble() {
    // A line starting with `[` but missing `]` opens no section, yet the
    // preamble is over: a later `root` declaration is ignored.
    let editor_config = EditorConfig::parse("[foo\nroot = true");
    assert!(editor_config.sections().is_empty());
    assert!(!editor_config.root());
}

#[test]
fn empty_brackets_open_a_nameless_section() {
    let editor_config = EditorConfig::parse("[]\nindent_size = 3");
    assert_eq!(editor_config.sections().len(), 1);
    assert_eq!(editor_config.sections()[0].name, "");
    assert_eq!(editor_config.sections()[0].properties.indent_size, Value(3));
}

#[test]
fn section_name_keeps_inner_whitespace() {
    let editor_config = EditorConfig::parse("[ * ]");
    assert_eq!(editor_config.sections()[0].name, " * ");
}

#[test]
fn duplicate_key_in_section_last_wins() {
    let editor_config = EditorConfig::parse("[*]\nindent_size = 2\nindent_size = 4");
    assert_eq!(editor_config.sections()[0].properties.indent_size, Value(4));
}

#[test]
fn value_split_at_first_equals() {
    let editor_config = EditorConfig::parse("[*]\nindent_size = 2 = 4");
    assert_eq!(editor_config.sections()[0].properties.indent_size, Unspecified);
}

#[test]
fn unknown_keys_are_ignored() {
    let editor_config = EditorConfig::parse("[*]\nindent = 2\nIndent_Size = 4");
    assert_eq!(editor_config.sections()[0].properties.indent_size, Unspecified);
}

#[test]
fn crlf_line_endings() {
    let editor_config = EditorConfig::parse("root = true\r\n[*]\r\nindent_size = 2\r\n");
    assert!(editor_config.root());
    assert_eq!(editor_config.sections().len(), 1);
    assert_eq!(editor_config.resolve("x").indent_size, Value(2));
}

#[test]
fn key_value_before_any_section_is_ignored() {
    let editor_config = EditorConfig::parse("indent_size = 2\n[*]");
    assert_eq!(editor_config.sections()[0].properties.indent_size, Unspecified);
}

#[test]
fn override_ordering() {
    let editor_config = EditorConfig::parse("[*]\nindent_size = 2\n[*.foo]\nindent_size = 4");
    assert_eq!(editor_config.resolve("a.foo").indent_size, Value(4));
    assert_eq!(editor_config.resolve("a.bar").indent_size, Value(2));
}

#[test]
fn later_unset_clears_only_its_key() {
    let editor_config = EditorConfig::parse(
        "[*]\nindent_size = 2\nmax_line_length = 80\n[*.foo]\nindent_size = unset",
    );
    let properties = editor_config.resolve("a.foo");
    assert_eq!(properties.indent_size, Unspecified);
    assert_eq!(properties.max_line_length, Value(MaxLineLength::Number(80)));
}

#[test]
fn tab_width_and_trim_trailing_whitespace() {
    let editor_config = EditorConfig::parse(
        "[*]\ntab_width = 3\ntrim_trailing_whitespace = false\ninsert_final_newline = true",
    );
    let properties = editor_config.resolve("x");
    assert_eq!(properties.tab_width, Value(3));
    assert_eq!(properties.trim_trailing_whitespace, Value(false));
    assert_eq!(properties.insert_final_newline, Value(true));
}

#[test]
fn resolve_is_idempotent_and_read_only() {
    let editor_config = EditorConfig::parse("root = true\n[*]\nindent_size = 2");
    let first = editor_config.resolve("a.ts");
    let second = editor_config.resolve("a.ts");
    assert_eq!(first, second);
    assert!(editor_config.root());
    assert_eq!(editor_config.sections().len(), 1);
}

#[test]
fn base_directory_boundary_is_a_separator() {
    let editor_config = EditorConfig::parse("[x/*.ts]\nindent_size = 8").with_cwd("/proj");
    assert_eq!(editor_config.resolve("/proj/x/a.ts").indent_size, Value(8));
    // "/proj" is a string prefix of "/projx" but not a path prefix.
    assert_eq!(editor_config.resolve("/projx/a.ts").indent_size, Unspecified);
}

#[test]
fn base_directory_same_result_as_relative() {
    let editor_config = EditorConfig::parse("[*.ts]\nindent_size = 4").with_cwd("/project");
    let under = editor_config.resolve("/project/file.ts");
    let relative = editor_config.resolve("file.ts");
    assert_eq!(under, relative);
    assert_eq!(under.indent_size, Value(4));
    // A path outside the base is matched as given.
    assert_eq!(editor_config.resolve("/other/file.ts").indent_size, Value(4));
}

#[test]
fn with_cwd_keeps_root_and_sections() {
    let editor_config = EditorConfig::parse("root = true\n[*]\nindent_size = 2");
    assert_eq!(editor_config.cwd(), None);
    let with_base = editor_config.with_cwd("/base");
    assert_eq!(with_base.cwd(), Some("/base"));
    assert!(with_base.root());
    assert_eq!(with_base.sections().len(), 1);
}

#[test]
fn unicode_whitespace_is_trimmed() {
    // U+00A0 (no-break space) is whitespace to `str::trim`, so a preamble
    // line padded with it still declares root, and values still decode.
    let editor_config = EditorConfig::parse("\u{00A0}root = true\u{2028}\n[*]\nindent_size = \u{2000}2\u{00A0}");
    assert!(editor_config.root());
    assert_eq!(editor_config.resolve("x").indent_size, Value(2));
}

#[test]
fn base_directory_trailing_separator_is_tolerated() {
    let editor_config = EditorConfig::parse("[x/*.ts]\nindent_size = 8").with_cwd("/proj/");
    assert_eq!(editor_config.cwd(), Some("/proj/"));
    assert_eq!(editor_config.resolve("/proj/x/a.ts").indent_size, Value(8));
}

#[test]
fn doubled_separator_after_base_is_dropped() {
    let editor_config = EditorConfig::parse("[x/*.ts]\nindent_size = 8").with_cwd("/proj");
    assert_eq!(editor_config.resolve("/proj//x/a.ts").indent_size, Value(8));
}
