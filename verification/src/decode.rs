//! Decoding a raw value token into a tri-state property.  Tokens are
//! compared case-insensitively; anything unrecognized degrades to
//! `Unspecified`, never to an error.

use vstd::prelude::*;

use crate::props::{
    Charset, EditorConfigProperty, EndOfLine, IndentStyle, MaxLineLength,
};
use crate::text::{ieq, str_eq_ci, usize_token, parse_usize};

verus! {

/// What a token means for a boolean key.
pub open spec fn decode_bool(v: Seq<char>) -> EditorConfigProperty<bool> {
    if ieq(v, "true"@) {
        EditorConfigProperty::Value(true)
    } else if ieq(v, "false"@) {
        EditorConfigProperty::Value(false)
    } else if ieq(v, "unset"@) {
        EditorConfigProperty::Unset
    } else {
        EditorConfigProperty::Unspecified
    }
}

/// What a token means for an unsigned integer key.
pub open spec fn decode_number(v: Seq<char>) -> EditorConfigProperty<usize> {
    if ieq(v, "unset"@) {
        EditorConfigProperty::Unset
    } else {
        match usize_token(v) {
            Some(n) => EditorConfigProperty::Value(n),
            None => EditorConfigProperty::Unspecified,
        }
    }
}

/// What a token means for the indentation style key.
pub open spec fn decode_indent_style(v: Seq<char>) -> EditorConfigProperty<IndentStyle> {
    if ieq(v, "tab"@) {
        EditorConfigProperty::Value(IndentStyle::Tab)
    } else if ieq(v, "space"@) {
        EditorConfigProperty::Value(IndentStyle::Space)
    } else if ieq(v, "unset"@) {
        EditorConfigProperty::Unset
    } else {
        EditorConfigProperty::Unspecified
    }
}

/// What a token means for the line ending key.
pub open spec fn decode_end_of_line(v: Seq<char>) -> EditorConfigProperty<EndOfLine> {
    if ieq(v, "lf"@) {
        EditorConfigProperty::Value(EndOfLine::Lf)
    } else if ieq(v, "cr"@) {
        EditorConfigProperty::Value(EndOfLine::Cr)
    } else if ieq(v, "crlf"@) {
        EditorConfigProperty::Value(EndOfLine::Crlf)
    } else if ieq(v, "unset"@) {
        EditorConfigProperty::Unset
    } else {
        EditorConfigProperty::Unspecified
    }
}

/// What a token means for the character set key.
pub open spec fn decode_charset(v: Seq<char>) -> EditorConfigProperty<Charset> {
    if ieq(v, "utf-8"@) {
        EditorConfigProperty::Value(Charset::Utf8)
    } else if ieq(v, "latin1"@) {
        EditorConfigProperty::Value(Charset::Latin1)
    } else if ieq(v, "utf-16be"@) {
        EditorConfigProperty::Value(Charset::Utf16be)
    } else if ieq(v, "utf-16le"@) {
        EditorConfigProperty::Value(Charset::Utf16le)
    } else if ieq(v, "utf-8-bom"@) {
        EditorConfigProperty::Value(Charset::Utf8bom)
    } else if ieq(v, "unset"@) {
        EditorConfigProperty::Unset
    } else {
        EditorConfigProperty::Unspecified
    }
}

/// What a token means for the line length key: `off` disables the limit, a
/// number bounds it.
pub open spec fn decode_max_line_length(v: Seq<char>) -> EditorConfigProperty<MaxLineLength> {
    if ieq(v, "off"@) {
        EditorConfigProperty::Value(MaxLineLength::Off)
    } else if ieq(v, "unset"@) {
        EditorConfigProperty::Unset
    } else {
        match usize_token(v) {
            Some(n) => EditorConfigProperty::Value(MaxLineLength::Number(n)),
            None => EditorConfigProperty::Unspecified,
        }
    }
}

impl EditorConfigProperty<usize> {
    /// Decode a raw value token for an unsigned integer key.
    pub fn parse(s: &str) -> (r: Self)
        ensures
            r == decode_number(s@),
    {
        if str_eq_ci(s, "unset") {
            EditorConfigProperty::Unset
        } else {
            match parse_usize(s) {
                Some(n) => EditorConfigProperty::Value(n),
                None => EditorConfigProperty::Unspecified,
            }
        }
    }
}

impl EditorConfigProperty<bool> {
    /// Decode a raw value token for a boolean key.
    pub fn parse(s: &str) -> (r: Self)
        ensures
            r == decode_bool(s@),
    {
        if str_eq_ci(s, "true") {
            EditorConfigProperty::Value(true)
        } else if str_eq_ci(s, "false") {
            EditorConfigProperty::Value(false)
        } else if str_eq_ci(s, "unset") {
            EditorConfigProperty::Unset
        } else {
            EditorConfigProperty::Unspecified
        }
    }
}

impl IndentStyle {
    /// Decode a raw value token for the indentation style key.
    pub fn parse(s: &str) -> (r: EditorConfigProperty<Self>)
        ensures
            r == decode_indent_style(s@),
    {
        if str_eq_ci(s, "tab") {
            EditorConfigProperty::Value(IndentStyle::Tab)
        } else if str_eq_ci(s, "space") {
            EditorConfigProperty::Value(IndentStyle::Space)
        } else if str_eq_ci(s, "unset") {
            EditorConfigProperty::Unset
        } else {
            EditorConfigProperty::Unspecified
        }
    }
}

impl EditorConfigProperty<EndOfLine> {
    /// Decode a raw value token for the line ending key.
    pub fn parse(s: &str) -> (r: Self)
        ensures
            r == decode_end_of_line(s@),
    {
        if str_eq_ci(s, "lf") {
            EditorConfigProperty::Value(EndOfLine::Lf)
        } else if str_eq_ci(s, "cr") {
            EditorConfigProperty::Value(EndOfLine::Cr)
        } else if str_eq_ci(s, "crlf") {
            EditorConfigProperty::Value(EndOfLine::Crlf)
        } else if str_eq_ci(s, "unset") {
            EditorConfigProperty::Unset
        } else {
            EditorConfigProperty::Unspecified
        }
    }
}

impl EditorConfigProperty<Charset> {
    /// Decode a raw value token for the character set key.
    pub fn parse(s: &str) -> (r: Self)
        ensures
            r == decode_charset(s@),
    {
        if str_eq_ci(s, "utf-8") {
            EditorConfigProperty::Value(Charset::Utf8)
        } else if str_eq_ci(s, "latin1") {
            EditorConfigProperty::Value(Charset::Latin1)
        } else if str_eq_ci(s, "utf-16be") {
            EditorConfigProperty::Value(Charset::Utf16be)
        } else if str_eq_ci(s, "utf-16le") {
            EditorConfigProperty::Value(Charset::Utf16le)
        } else if str_eq_ci(s, "utf-8-bom") {
            EditorConfigProperty::Value(Charset::Utf8bom)
        } else if str_eq_ci(s, "unset") {
            EditorConfigProperty::Unset
        } else {
            EditorConfigProperty::Unspecified
        }
    }
}

impl EditorConfigProperty<MaxLineLength> {
    /// Decode a raw value token for the line length key.
    pub fn parse(s: &str) -> (r: Self)
        ensures
            r == decode_max_line_length(s@),
    {
        if str_eq_ci(s, "off") {
            EditorConfigProperty::Value(MaxLineLength::Off)
        } else if str_eq_ci(s, "unset") {
            EditorConfigProperty::Unset
        } else {
            match parse_usize(s) {
                Some(n) => EditorConfigProperty::Value(MaxLineLength::Number(n)),
                None => EditorConfigProperty::Unspecified,
            }
        }
    }
}

} // verus!
