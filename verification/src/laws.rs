//! Laws of the cascade and of the parser, stated over the models the
//! contracts use and proved once and for all.

use vstd::prelude::*;

use crate::config::{DocModel, SectionModel};
use crate::parse::{line_step, lines_fold, start_state, ParseState};
use crate::props::{empty_props, override_props, override_slot, EditorConfigProperties,
    EditorConfigProperty};
use crate::resolve::{drop_leading_slashes, drop_trailing_slashes, normalized_query, resolve_model,
    section_matches, sections_fold, under_base};
use crate::text::trimmed;

verus! {

/// A slot projection that commutes with the cascade: picking the slot of a
/// combined property set combines the picked slots, and the empty property
/// set holds nothing in the slot.  Each of the eight field projections is
/// such a function.
pub open spec fn slot_homomorphic<T>(
    slot: spec_fn(EditorConfigProperties) -> EditorConfigProperty<T>,
) -> bool {
    &&& (forall|a: EditorConfigProperties, b: EditorConfigProperties| #[trigger] slot(
        override_props(a, b),
    ) == override_slot(slot(a), slot(b)))
    &&& slot(empty_props()) == EditorConfigProperty::<T>::Unspecified
}

/// Each of the eight slot projections commutes with the cascade.
pub proof fn lemma_slots_homomorphic()
    ensures
        slot_homomorphic(|p: EditorConfigProperties| p.indent_style),
        slot_homomorphic(|p: EditorConfigProperties| p.indent_size),
        slot_homomorphic(|p: EditorConfigProperties| p.tab_width),
        slot_homomorphic(|p: EditorConfigProperties| p.end_of_line),
        slot_homomorphic(|p: EditorConfigProperties| p.charset),
        slot_homomorphic(|p: EditorConfigProperties| p.trim_trailing_whitespace),
        slot_homomorphic(|p: EditorConfigProperties| p.insert_final_newline),
        slot_homomorphic(|p: EditorConfigProperties| p.max_line_length),
{
}

/// Override ordering, per slot: when the section at `i` matches the path
/// and sets the slot to a value, and no later matching section mentions the
/// slot, the cascade answers that value — whatever any earlier section said.
pub proof fn lemma_later_value_wins<T>(
    ss: Seq<SectionModel>,
    path: Seq<char>,
    slot: spec_fn(EditorConfigProperties) -> EditorConfigProperty<T>,
    i: int,
    v: T,
)
    requires
        slot_homomorphic(slot),
        0 <= i < ss.len(),
        section_matches(ss[i], path),
        slot(ss[i].properties) == EditorConfigProperty::Value(v),
        forall|j: int|
            i < j < ss.len() && section_matches(#[trigger] ss[j], path) ==> slot(
                ss[j].properties,
            ) is Unspecified,
    ensures
        slot(sections_fold(ss, path)) == EditorConfigProperty::<T>::Value(v),
    decreases ss.len(),
{
    if i == ss.len() - 1 {
    } else {
        lemma_later_value_wins(ss.drop_last(), path, slot, i, v);
    }
}

/// Explicit clear, per slot: when the section at `i` matches the path and
/// sets the slot to `unset`, and no later matching section mentions the
/// slot, the cascade answers `Unspecified` — whatever any earlier section
/// said.
pub proof fn lemma_later_clear_wins<T>(
    ss: Seq<SectionModel>,
    path: Seq<char>,
    slot: spec_fn(EditorConfigProperties) -> EditorConfigProperty<T>,
    i: int,
)
    requires
        slot_homomorphic(slot),
        0 <= i < ss.len(),
        section_matches(ss[i], path),
        slot(ss[i].properties) is Unset,
        forall|j: int|
            i < j < ss.len() && section_matches(#[trigger] ss[j], path) ==> slot(
                ss[j].properties,
            ) is Unspecified,
    ensures
        slot(sections_fold(ss, path)) is Unspecified,
    decreases ss.len(),
{
    if i == ss.len() - 1 {
    } else {
        lemma_later_clear_wins(ss.drop_last(), path, slot, i);
    }
}

/// Override ordering, at the document level: the resolved slot is the value
/// set by the last matching section that mentions it.
pub proof fn lemma_value_override<T>(
    doc: DocModel,
    path: Seq<char>,
    slot: spec_fn(EditorConfigProperties) -> EditorConfigProperty<T>,
    i: int,
    v: T,
)
    requires
        slot_homomorphic(slot),
        0 <= i < doc.sections.len(),
        section_matches(doc.sections[i], normalized_query(doc.cwd, path)),
        slot(doc.sections[i].properties) == EditorConfigProperty::Value(v),
        forall|j: int|
            i < j < doc.sections.len() && section_matches(
                #[trigger] doc.sections[j],
                normalized_query(doc.cwd, path),
            ) ==> slot(doc.sections[j].properties) is Unspecified,
    ensures
        slot(resolve_model(doc, path)) == EditorConfigProperty::<T>::Value(v),
{
    lemma_later_value_wins(doc.sections, normalized_query(doc.cwd, path), slot, i, v);
}

/// Explicit clear, at the document level: the resolved slot is
/// `Unspecified` when the last matching section that mentions it clears it.
pub proof fn lemma_explicit_clear<T>(
    doc: DocModel,
    path: Seq<char>,
    slot: spec_fn(EditorConfigProperties) -> EditorConfigProperty<T>,
    i: int,
)
    requires
        slot_homomorphic(slot),
        0 <= i < doc.sections.len(),
        section_matches(doc.sections[i], normalized_query(doc.cwd, path)),
        slot(doc.sections[i].properties) is Unset,
        forall|j: int|
            i < j < doc.sections.len() && section_matches(
                #[trigger] doc.sections[j],
                normalized_query(doc.cwd, path),
            ) ==> slot(doc.sections[j].properties) is Unspecified,
    ensures
        slot(resolve_model(doc, path)) is Unspecified,
{
    lemma_later_clear_wins(doc.sections, normalized_query(doc.cwd, path), slot, i);
}

/// Whether a raw line says nothing: blank, or a comment, once trimmed.
pub open spec fn inert_line(raw: Seq<char>) -> bool {
    let t = trimmed(raw);
    t.len() == 0 || t[0] == ';' || t[0] == '#'
}

/// A text of nothing but blank and comment lines parses to the empty
/// document: no sections, and the root flag off.
pub proof fn lemma_inert_lines_parse_to_nothing(ls: Seq<Seq<char>>)
    requires
        forall|k: int| 0 <= k < ls.len() ==> inert_line(#[trigger] ls[k]),
    ensures
        lines_fold(ls) == start_state(),
    decreases ls.len(),
{
    if ls.len() > 0 {
        lemma_inert_lines_parse_to_nothing(ls.drop_last());
    }
}

/// Whether a raw line is a well-formed section header once trimmed.
pub open spec fn header_line(raw: Seq<char>) -> bool {
    let t = trimmed(raw);
    t.len() >= 2 && t[0] == '[' && t.last() == ']'
}

/// The name a well-formed header declares: the text between the brackets.
pub open spec fn header_name(raw: Seq<char>) -> Seq<char> {
    trimmed(raw).subrange(1, trimmed(raw).len() - 1)
}

/// Every well-formed header line appends exactly one fresh section — even
/// when its name repeats an earlier one, sections are never merged.
pub proof fn lemma_header_opens_section(st: ParseState, raw: Seq<char>)
    requires
        header_line(raw),
    ensures
        line_step(st, raw).sections == st.sections.push(
            SectionModel { name: header_name(raw), properties: empty_props() },
        ),
{
}

/// Appending a well-formed header line to a document's lines appends
/// exactly one fresh section to its parse.
pub proof fn lemma_header_appends(ls: Seq<Seq<char>>, raw: Seq<char>)
    requires
        header_line(raw),
    ensures
        lines_fold(ls.push(raw)).sections == lines_fold(ls).sections.push(
            SectionModel { name: header_name(raw), properties: empty_props() },
        ),
{
    assert(ls.push(raw).drop_last() =~= ls);
    lemma_header_opens_section(lines_fold(ls), raw);
}

/// The section list is append-only: no line removes a section or renames
/// one, and only the most recently opened section's properties can change.
pub proof fn lemma_sections_append_only(st: ParseState, raw: Seq<char>)
    ensures
        line_step(st, raw).sections.len() >= st.sections.len(),
        forall|k: int|
            0 <= k < st.sections.len() ==> #[trigger] line_step(st, raw).sections[k].name
                == st.sections[k].name,
        forall|k: int|
            0 <= k < st.sections.len() - 1 ==> #[trigger] line_step(st, raw).sections[k]
                == st.sections[k],
{
}

/// Base-directory normalization: a query for a path written under the base
/// directory resolves exactly as the same path written relative to the
/// configuration root.  The base is taken without a trailing separator and
/// the relative path without a leading one, as both are normally written.
pub proof fn lemma_base_relative_query(doc: DocModel, base: Seq<char>, rel: Seq<char>)
    requires
        doc.cwd == Some(base),
        base.len() > 0,
        base.last() != '/',
        rel.len() == 0 || rel[0] != '/',
    ensures
        normalized_query(doc.cwd, base.push('/') + rel) == rel,
        resolve_model(doc, base.push('/') + rel) == sections_fold(doc.sections, rel),
{
    let path = base.push('/') + rel;
    assert(drop_trailing_slashes(base) == base);
    assert(path.take(base.len() as int) =~= base);
    assert(path[base.len() as int] == '/');
    assert(under_base(base, path));
    assert(path.skip(base.len() as int) =~= seq!['/'] + rel);
    assert((seq!['/'] + rel).drop_first() =~= rel);
    assert(drop_leading_slashes(seq!['/'] + rel) == drop_leading_slashes(rel));
    assert(drop_leading_slashes(rel) == rel);
}

} // verus!
