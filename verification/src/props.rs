//! The tri-state property model: every known key of a section holds either
//! nothing, an explicit clearing, or a typed value.

use vstd::prelude::*;

verus! {

/// One property slot.  `Unspecified` means the key was absent or its value
/// unrecognized (say nothing, inherit); `Unset` means the value token was the
/// literal `unset` (actively erase); `Value` carries a parsed value.
#[derive(Debug, Clone, Copy, Eq, PartialEq)]
pub enum EditorConfigProperty<T> {
    Unspecified,
    Unset,
    Value(T),
}

#[derive(Debug, Clone, Copy, Eq, PartialEq)]
pub enum IndentStyle {
    Tab,
    Space,
}

#[derive(Debug, Clone, Copy, Eq, PartialEq)]
pub enum EndOfLine {
    Lf,
    Cr,
    Crlf,
}

#[derive(Debug, Clone, Copy, Eq, PartialEq)]
pub enum Charset {
    Latin1,
    Utf8,
    Utf8bom,
    Utf16be,
    Utf16le,
}

#[derive(Debug, Clone, Copy, Eq, PartialEq)]
pub enum MaxLineLength {
    /// A numeric line length limit
    Number(usize),
    /// Line length limit is disabled
    Off,
}

/// The fixed set of eight property slots a section may fill and a
/// resolution query answers with.
#[derive(Debug, Clone, Copy, Eq, PartialEq)]
pub struct EditorConfigProperties {
    pub indent_style: EditorConfigProperty<IndentStyle>,
    pub indent_size: EditorConfigProperty<usize>,
    pub tab_width: EditorConfigProperty<usize>,
    pub end_of_line: EditorConfigProperty<EndOfLine>,
    pub charset: EditorConfigProperty<Charset>,
    pub trim_trailing_whitespace: EditorConfigProperty<bool>,
    pub insert_final_newline: EditorConfigProperty<bool>,
    pub max_line_length: EditorConfigProperty<MaxLineLength>,
}

/// The cascade rule for one slot: a later `Value` replaces whatever was
/// there, a later `Unset` erases it back to `Unspecified`, and a later
/// `Unspecified` says nothing and leaves the earlier state alone.
pub open spec fn override_slot<T>(
    earlier: EditorConfigProperty<T>,
    later: EditorConfigProperty<T>,
) -> EditorConfigProperty<T> {
    match later {
        EditorConfigProperty::Value(v) => EditorConfigProperty::Value(v),
        EditorConfigProperty::Unset => EditorConfigProperty::Unspecified,
        EditorConfigProperty::Unspecified => earlier,
    }
}

/// A property set with every slot `Unspecified`: the starting accumulator of
/// a resolution, and the state of a freshly opened section.
pub open spec fn empty_props() -> EditorConfigProperties {
    EditorConfigProperties {
        indent_style: EditorConfigProperty::Unspecified,
        indent_size: EditorConfigProperty::Unspecified,
        tab_width: EditorConfigProperty::Unspecified,
        end_of_line: EditorConfigProperty::Unspecified,
        charset: EditorConfigProperty::Unspecified,
        trim_trailing_whitespace: EditorConfigProperty::Unspecified,
        insert_final_newline: EditorConfigProperty::Unspecified,
        max_line_length: EditorConfigProperty::Unspecified,
    }
}

/// The cascade rule applied slot by slot, independently per key.
pub open spec fn override_props(
    earlier: EditorConfigProperties,
    later: EditorConfigProperties,
) -> EditorConfigProperties {
    EditorConfigProperties {
        indent_style: override_slot(earlier.indent_style, later.indent_style),
        indent_size: override_slot(earlier.indent_size, later.indent_size),
        tab_width: override_slot(earlier.tab_width, later.tab_width),
        end_of_line: override_slot(earlier.end_of_line, later.end_of_line),
        charset: override_slot(earlier.charset, later.charset),
        trim_trailing_whitespace: override_slot(
            earlier.trim_trailing_whitespace,
            later.trim_trailing_whitespace,
        ),
        insert_final_newline: override_slot(
            earlier.insert_final_newline,
            later.insert_final_newline,
        ),
        max_line_length: override_slot(earlier.max_line_length, later.max_line_length),
    }
}

impl<T: Copy> EditorConfigProperty<T> {
    /// Overwrite this slot with a later section's slot, per the cascade rule.
    pub fn override_with(&mut self, other: &Self)
        ensures
            *final(self) == override_slot(*old(self), *other),
    {
        match other {
            EditorConfigProperty::Value(value) => {
                *self = EditorConfigProperty::Value(*value);
            },
            EditorConfigProperty::Unset => {
                *self = EditorConfigProperty::Unspecified;
            },
            EditorConfigProperty::Unspecified => {},
        }
    }
}

impl<T> Default for EditorConfigProperty<T> {
    fn default() -> (r: Self)
        ensures
            r == EditorConfigProperty::<T>::Unspecified,
    {
        EditorConfigProperty::Unspecified
    }
}

impl EditorConfigProperties {
    /// Overwrite every slot with a later section's slot, per the cascade rule.
    pub fn override_with(&mut self, other: &Self)
        ensures
            *final(self) == override_props(*old(self), *other),
    {
        self.indent_style.override_with(&other.indent_style);
        self.indent_size.override_with(&other.indent_size);
        self.tab_width.override_with(&other.tab_width);
        self.end_of_line.override_with(&other.end_of_line);
        self.charset.override_with(&other.charset);
        self.trim_trailing_whitespace.override_with(&other.trim_trailing_whitespace);
        self.insert_final_newline.override_with(&other.insert_final_newline);
        self.max_line_length.override_with(&other.max_line_length);
    }
}

impl Default for EditorConfigProperties {
    fn default() -> (r: Self)
        ensures
            r == empty_props(),
    {
        EditorConfigProperties {
            indent_style: EditorConfigProperty::Unspecified,
            indent_size: EditorConfigProperty::Unspecified,
            tab_width: EditorConfigProperty::Unspecified,
            end_of_line: EditorConfigProperty::Unspecified,
            charset: EditorConfigProperty::Unspecified,
            trim_trailing_whitespace: EditorConfigProperty::Unspecified,
            insert_final_newline: EditorConfigProperty::Unspecified,
            max_line_length: EditorConfigProperty::Unspecified,
        }
    }
}

} // verus!
