//! The line parser: a fold over the lines of the source text.  Each line is
//! trimmed and then either ignored, toggles the root flag, opens a section,
//! or stores a key/value pair into the most recently opened section.

use vstd::prelude::*;

use crate::config::{DocModel, EditorConfig, EditorConfigSection, SectionModel};
use crate::decode::{
    decode_bool, decode_charset, decode_end_of_line, decode_indent_style, decode_max_line_length,
    decode_number,
};
use crate::props::{empty_props, Charset, EditorConfigProperties, EditorConfigProperty, EndOfLine,
    IndentStyle, MaxLineLength};
use crate::text::{
    find_char, ieq, str_eq_ci, str_equal, trim_back, trim_front, trim_end_str, trim_start_str,
    trim_str, trimmed,
};

verus! {

/// The parser's accumulator: the root flag, whether the preamble (the text
/// before any section header) is still open, and the sections so far.
#[verifier::ext_equal]
pub ghost struct ParseState {
    pub root: bool,
    pub preamble: bool,
    pub sections: Seq<SectionModel>,
}

/// The state before any line has been read.
pub open spec fn start_state() -> ParseState {
    ParseState { root: false, preamble: true, sections: Seq::empty() }
}

/// The models of a vector of sections.
pub open spec fn sections_model(v: Seq<EditorConfigSection>) -> Seq<SectionModel> {
    v.map_values(|s: EditorConfigSection| s@)
}

/// The index of the first `=` in `s`, or `s.len()` if there is none.
pub open spec fn eq_pos(s: Seq<char>) -> int
    decreases s.len(),
{
    if s.len() == 0 {
        0
    } else if s[0] == '=' {
        0
    } else {
        1 + eq_pos(s.drop_first())
    }
}

proof fn lemma_eq_pos_characterized(s: Seq<char>, i: int)
    requires
        0 <= i <= s.len(),
        forall|k: int| 0 <= k < i ==> s[k] != '=',
        i < s.len() ==> s[i] == '=',
    ensures
        eq_pos(s) == i,
    decreases s.len(),
{
    if s.len() > 0 && s[0] != '=' {
        lemma_eq_pos_characterized(s.drop_first(), i - 1);
    }
}

/// Storing one recognized key into a property set: the eight known key
/// names select a slot and a decoder; an unknown key changes nothing.
/// A later occurrence of a key in the same section overwrites the earlier.
pub open spec fn known_key_update(
    props: EditorConfigProperties,
    key: Seq<char>,
    value: Seq<char>,
) -> EditorConfigProperties {
    if key == "indent_style"@ {
        EditorConfigProperties { indent_style: decode_indent_style(value), ..props }
    } else if key == "indent_size"@ {
        EditorConfigProperties { indent_size: decode_number(value), ..props }
    } else if key == "tab_width"@ {
        EditorConfigProperties { tab_width: decode_number(value), ..props }
    } else if key == "end_of_line"@ {
        EditorConfigProperties { end_of_line: decode_end_of_line(value), ..props }
    } else if key == "charset"@ {
        EditorConfigProperties { charset: decode_charset(value), ..props }
    } else if key == "trim_trailing_whitespace"@ {
        EditorConfigProperties { trim_trailing_whitespace: decode_bool(value), ..props }
    } else if key == "insert_final_newline"@ {
        EditorConfigProperties { insert_final_newline: decode_bool(value), ..props }
    } else if key == "max_line_length"@ {
        EditorConfigProperties { max_line_length: decode_max_line_length(value), ..props }
    } else {
        props
    }
}

/// What one raw line does to the parser state.
///
/// The line is trimmed first.  Blank lines and comments (`;` or `#`) are
/// ignored.  A line starting with `[` closes the preamble even when it is
/// malformed; only with a closing `]` does it append a section, whose name
/// is the text between the brackets, untrimmed.  Any other line with an `=`
/// is split at the first one, the key trimmed on its trailing side and the
/// value on its leading side: in the preamble the exact key `root` with the
/// (case-insensitive) value `true` sets the root flag, and once a section
/// exists the pair is stored into the most recent one.
pub open spec fn line_step(st: ParseState, raw: Seq<char>) -> ParseState {
    let t = trimmed(raw);
    if t.len() == 0 {
        st
    } else if t[0] == ';' || t[0] == '#' {
        st
    } else if t[0] == '[' {
        ParseState {
            root: st.root,
            preamble: false,
            sections: if t.len() >= 2 && t.last() == ']' {
                st.sections.push(
                    SectionModel { name: t.subrange(1, t.len() - 1), properties: empty_props() },
                )
            } else {
                st.sections
            },
        }
    } else if eq_pos(t) < t.len() {
        let k = eq_pos(t);
        let key = trim_back(t.take(k));
        let value = trim_front(t.skip(k + 1));
        let st1 = if st.preamble && key == "root"@ && ieq(value, "true"@) {
            ParseState { root: true, ..st }
        } else {
            st
        };
        if st1.sections.len() > 0 {
            let last = st1.sections.last();
            ParseState {
                sections: st1.sections.update(
                    st1.sections.len() - 1,
                    SectionModel {
                        name: last.name,
                        properties: known_key_update(last.properties, key, value),
                    },
                ),
                ..st1
            }
        } else {
            st1
        }
    } else {
        st
    }
}

/// The segments of `s` between its line feeds: always at least one, possibly
/// empty, segment.
pub open spec fn split_lines(s: Seq<char>) -> Seq<Seq<char>>
    decreases s.len(),
{
    if s.len() == 0 {
        seq![Seq::<char>::empty()]
    } else {
        let rest = split_lines(s.drop_last());
        if s.last() == '\n' {
            rest.push(Seq::empty())
        } else {
            rest.update(rest.len() - 1, rest.last().push(s.last()))
        }
    }
}

pub proof fn lemma_split_lines_nonempty(s: Seq<char>)
    ensures
        split_lines(s).len() > 0,
    decreases s.len(),
{
    if s.len() > 0 {
        lemma_split_lines_nonempty(s.drop_last());
    }
}

/// The parser state after a sequence of lines.
pub open spec fn lines_fold(ls: Seq<Seq<char>>) -> ParseState
    decreases ls.len(),
{
    if ls.len() == 0 {
        start_state()
    } else {
        line_step(lines_fold(ls.drop_last()), ls.last())
    }
}

/// The document a source text parses to: the fold of `line_step` over its
/// lines, and no base directory.
pub open spec fn parse_model(text: Seq<char>) -> DocModel {
    let st = lines_fold(split_lines(text));
    DocModel { root: st.root, sections: st.sections, cwd: None }
}

/// Store a key/value pair into a property set, decoding the value when the
/// key is one of the eight known names.
fn update_props(props: EditorConfigProperties, key: &str, value: &str) -> (r:
    EditorConfigProperties)
    ensures
        r == known_key_update(props, key@, value@),
{
    if str_equal(key, "indent_style") {
        EditorConfigProperties { indent_style: IndentStyle::parse(value), ..props }
    } else if str_equal(key, "indent_size") {
        EditorConfigProperties { indent_size: EditorConfigProperty::<usize>::parse(value), ..props }
    } else if str_equal(key, "tab_width") {
        EditorConfigProperties { tab_width: EditorConfigProperty::<usize>::parse(value), ..props }
    } else if str_equal(key, "end_of_line") {
        EditorConfigProperties {
            end_of_line: EditorConfigProperty::<EndOfLine>::parse(value),
            ..props
        }
    } else if str_equal(key, "charset") {
        EditorConfigProperties {
            charset: EditorConfigProperty::<Charset>::parse(value),
            ..props
        }
    } else if str_equal(key, "trim_trailing_whitespace") {
        EditorConfigProperties {
            trim_trailing_whitespace: EditorConfigProperty::<bool>::parse(value),
            ..props
        }
    } else if str_equal(key, "insert_final_newline") {
        EditorConfigProperties {
            insert_final_newline: EditorConfigProperty::<bool>::parse(value),
            ..props
        }
    } else if str_equal(key, "max_line_length") {
        EditorConfigProperties {
            max_line_length: EditorConfigProperty::<MaxLineLength>::parse(value),
            ..props
        }
    } else {
        props
    }
}

/// Apply one raw line to the parser's exec state.
fn apply_line(root: &mut bool, preamble: &mut bool, sections: &mut Vec<EditorConfigSection>,
    line: &str)
    ensures
        ({
            let st = line_step(
                ParseState {
                    root: *old(root),
                    preamble: *old(preamble),
                    sections: sections_model(old(sections)@),
                },
                line@,
            );
            &&& *final(root) == st.root
            &&& *final(preamble) == st.preamble
            &&& sections_model(final(sections)@) == st.sections
        }),
{
    let t = trim_str(line);
    let tn = t.unicode_len();
    if tn == 0 {
        return ;
    }
    let c0 = t.get_char(0);
    if c0 == ';' || c0 == '#' {
        return ;
    }
    if c0 == '[' {
        *preamble = false;
        if tn >= 2 && t.get_char(tn - 1) == ']' {
            let name = t.substring_char(1, tn - 1);
            sections.push(
                EditorConfigSection {
                    name: String::from_str(name),
                    properties: EditorConfigProperties::default(),
                },
            );
            proof {
                assert(sections_model(sections@) =~= sections_model(old(sections)@).push(
                    SectionModel { name: t@.subrange(1, tn - 1), properties: empty_props() },
                ));
            }
        }
        return ;
    }
    match find_char(t, '=') {
        None => {
            proof {
                lemma_eq_pos_characterized(t@, t@.len() as int);
            }
        },
        Some(k) => {
            proof {
                lemma_eq_pos_characterized(t@, k as int);
            }
            let key = trim_end_str(t.substring_char(0, k));
            let value = trim_start_str(t.substring_char(k + 1, tn));
            proof {
                assert(t@.subrange(0, k as int) =~= t@.take(k as int));
                assert(t@.subrange(k + 1, tn as int) =~= t@.skip(k + 1));
            }
            if *preamble && str_equal(key, "root") && str_eq_ci(value, "true") {
                *root = true;
            }
            let m = sections.len();
            if m > 0 {
                let p = sections[m - 1].properties;
                let q = update_props(p, key, value);
                let sec = &mut sections[m - 1];
                sec.properties = q;
                proof {
                    assert(sections_model(sections@) =~= sections_model(old(sections)@).update(
                        m - 1,
                        SectionModel { name: old(sections)@[m - 1].name@, properties: q },
                    ));
                }
            }
        },
    }
}

impl EditorConfig {
    /// Parse one EditorConfig-format text into a document.  Parsing never
    /// fails: unrecognized lines, keys and values are ignored or degrade to
    /// `Unspecified`, and a malformed section name leaves its section inert.
    pub fn parse(source_text: &str) -> (r: Self)
        ensures
            r@ == parse_model(source_text@),
    {
        let n = source_text.unicode_len();
        let mut root: bool = false;
        let mut preamble: bool = true;
        let mut sections: Vec<EditorConfigSection> = Vec::new();
        let mut i: usize = 0;
        let mut line_start: usize = 0;
        proof {
            assert(source_text@.take(0) =~= Seq::<char>::empty());
            assert(sections_model(sections@) =~= Seq::<SectionModel>::empty());
        }
        while i < n
            invariant
                line_start <= i <= n,
                n == source_text@.len(),
                split_lines(source_text@.take(i as int)).last() == source_text@.subrange(
                    line_start as int,
                    i as int,
                ),
                ({
                    let st = lines_fold(split_lines(source_text@.take(i as int)).drop_last());
                    &&& root == st.root
                    &&& preamble == st.preamble
                    &&& sections_model(sections@) == st.sections
                }),
            decreases n - i,
        {
            let ghost pre = split_lines(source_text@.take(i as int));
            proof {
                lemma_split_lines_nonempty(source_text@.take(i as int));
                assert(source_text@.take(i + 1).drop_last() =~= source_text@.take(i as int));
                assert(source_text@.take(i + 1).last() == source_text@[i as int]);
            }
            let c = source_text.get_char(i);
            if c == '\n' {
                let line = source_text.substring_char(line_start, i);
                apply_line(&mut root, &mut preamble, &mut sections, line);
                proof {
                    assert(split_lines(source_text@.take(i + 1)) =~= pre.push(
                        Seq::<char>::empty(),
                    ));
                    assert(pre.push(Seq::<char>::empty()).drop_last() =~= pre);
                    assert(source_text@.subrange(i + 1, i + 1) =~= Seq::<char>::empty());
                }
                line_start = i + 1;
            } else {
                proof {
                    let ext = pre.update(pre.len() - 1, pre.last().push(source_text@[i as int]));
                    assert(split_lines(source_text@.take(i + 1)) =~= ext);
                    assert(ext.drop_last() =~= pre.drop_last());
                    assert(source_text@.subrange(line_start as int, i + 1) =~= source_text@
                        .subrange(line_start as int, i as int).push(source_text@[i as int]));
                }
            }
            i += 1;
        }
        let line = source_text.substring_char(line_start, n);
        apply_line(&mut root, &mut preamble, &mut sections, line);
        proof {
            lemma_split_lines_nonempty(source_text@);
            assert(source_text@.take(n as int) =~= source_text@);
        }
        EditorConfig { root, sections, cwd: None }
    }
}

} // verus!
