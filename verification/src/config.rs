//! The parsed document: a root flag, an ordered sequence of sections, and
//! an optional base directory for resolving absolute paths.

use vstd::prelude::*;

use crate::props::EditorConfigProperties;

verus! {

/// One section of a document: the name string between `[` and `]`, which is
/// a glob pattern, and the properties declared under it.  Matching is
/// delegated to `globset` at query time; a name that does not compile as a
/// glob, or is longer than `globpat::MAX_GLOB_LEN`, matches nothing,
/// leaving the section inert.
#[derive(Debug, Clone)]
pub struct EditorConfigSection {
    /// Section Name: the string between the beginning `[` and the ending `]`.
    pub name: String,
    pub properties: EditorConfigProperties,
}

/// The mathematical content of a section: its name text and its properties.
pub ghost struct SectionModel {
    pub name: Seq<char>,
    pub properties: EditorConfigProperties,
}

impl View for EditorConfigSection {
    type V = SectionModel;

    open spec fn view(&self) -> SectionModel {
        SectionModel { name: self.name@, properties: self.properties }
    }
}

/// The mathematical content of a document.
pub ghost struct DocModel {
    pub root: bool,
    pub sections: Seq<SectionModel>,
    pub cwd: Option<Seq<char>>,
}

/// A parsed document.  Immutable once constructed: attaching a base
/// directory yields a new value, and resolution only reads.
#[derive(Debug, Clone)]
pub struct EditorConfig {
    /// Set to true to tell the core not to check any higher directory for
    /// EditorConfig settings for the current filename.
    pub root: bool,
    pub sections: Vec<EditorConfigSection>,
    /// The base directory for resolving absolute paths.
    pub cwd: Option<String>,
}

impl View for EditorConfig {
    type V = DocModel;

    open spec fn view(&self) -> DocModel {
        DocModel {
            root: self.root,
            sections: self.sections@.map_values(|s: EditorConfigSection| s@),
            cwd: match self.cwd {
                Some(c) => Some(c@),
                None => None,
            },
        }
    }
}

impl EditorConfig {
    /// Whether the document stops an outward search for further
    /// configuration files.
    pub fn root(&self) -> (r: bool)
        ensures
            r == self@.root,
    {
        self.root
    }

    /// The sections of the document, in file order.
    pub fn sections(&self) -> (r: &[EditorConfigSection])
        ensures
            r@.map_values(|s: EditorConfigSection| s@) == self@.sections,
            r@.len() == self@.sections.len(),
    {
        self.sections.as_slice()
    }

    /// The configured base directory, if any.
    pub fn cwd(&self) -> (r: Option<&str>)
        ensures
            match r {
                Some(c) => self@.cwd == Some(c@),
                None => self@.cwd is None,
            },
    {
        match &self.cwd {
            Some(c) => Some(c.as_str()),
            None => None,
        }
    }

    /// Sets the current working directory for resolving absolute paths,
    /// returning a new document value with the same root flag and sections.
    pub fn with_cwd(self, cwd: &str) -> (r: Self)
        ensures
            r@.root == self@.root,
            r@.sections == self@.sections,
            r@.cwd == Some(cwd@),
    {
        EditorConfig { cwd: Some(String::from_str(cwd)), ..self }
    }
}

} // verus!
