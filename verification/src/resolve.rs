//! The resolution engine: normalize the queried path against the base
//! directory, then fold every section whose pattern matches, in file order,
//! into one effective property set.

use vstd::prelude::*;

use crate::config::{DocModel, EditorConfig, EditorConfigSection, SectionModel};
use crate::globpat::{glob_is_match, glob_match, glob_ok, MAX_GLOB_LEN};
use crate::props::{empty_props, override_props, EditorConfigProperties};

verus! {

/// `s` with every trailing `/` removed.
pub open spec fn drop_trailing_slashes(s: Seq<char>) -> Seq<char>
    decreases s.len(),
{
    if s.len() > 0 && s.last() == '/' {
        drop_trailing_slashes(s.drop_last())
    } else {
        s
    }
}

/// `s` with every leading `/` removed.
pub open spec fn drop_leading_slashes(s: Seq<char>) -> Seq<char>
    decreases s.len(),
{
    if s.len() > 0 && s[0] == '/' {
        drop_leading_slashes(s.drop_first())
    } else {
        s
    }
}

/// Whether `path` lies under the base directory `base` (given with its
/// trailing separators already removed): it extends `base` at a `/`
/// boundary, or equals it.  Apart from that boundary, the comparison is
/// exact on the `/`-separated text.  An empty base holds no path.
pub open spec fn under_base(base: Seq<char>, path: Seq<char>) -> bool {
    &&& base.len() > 0
    &&& path.len() >= base.len()
    &&& path.take(base.len() as int) == base
    &&& (path.len() == base.len() || path[base.len() as int] == '/')
}

/// `path` with the base directory and the separators following it removed.
pub open spec fn strip_base(base: Seq<char>, path: Seq<char>) -> Seq<char> {
    drop_leading_slashes(path.skip(base.len() as int))
}

/// The path a query is matched against: when a base directory is configured
/// (trailing separators ignored) and the queried path lies under it, the
/// base prefix is stripped, leaving the path relative to the configuration
/// root; any other path is used unchanged.
pub open spec fn normalized_query(cwd: Option<Seq<char>>, path: Seq<char>) -> Seq<char> {
    match cwd {
        Some(base) => if under_base(drop_trailing_slashes(base), path) {
            strip_base(drop_trailing_slashes(base), path)
        } else {
            path
        },
        None => path,
    }
}

/// Whether a section applies to a (normalized) query path: its name is
/// short enough to compile, compiles as a glob, and the glob matches the
/// path.
pub open spec fn section_matches(s: SectionModel, path: Seq<char>) -> bool {
    s.name.len() <= MAX_GLOB_LEN && glob_ok(s.name) && glob_match(s.name, path)
}

/// The fold of the cascade over a sequence of sections: each matching
/// section's property set overrides the accumulator slot by slot.
pub open spec fn sections_fold(ss: Seq<SectionModel>, path: Seq<char>) -> EditorConfigProperties
    decreases ss.len(),
{
    if ss.len() == 0 {
        empty_props()
    } else {
        let prev = sections_fold(ss.drop_last(), path);
        if section_matches(ss.last(), path) {
            override_props(prev, ss.last().properties)
        } else {
            prev
        }
    }
}

/// The effective property set a document yields for a queried path.
pub open spec fn resolve_model(doc: DocModel, path: Seq<char>) -> EditorConfigProperties {
    sections_fold(doc.sections, normalized_query(doc.cwd, path))
}

fn len_without_trailing_slashes(s: &str) -> (j: usize)
    ensures
        j <= s@.len(),
        forall|k: int| j <= k < s@.len() ==> s@[k] == '/',
        j > 0 ==> s@[j - 1] != '/',
{
    let n = s.unicode_len();
    let mut j: usize = n;
    while j > 0
        invariant
            j <= n,
            n == s@.len(),
            forall|k: int| j <= k < n ==> s@[k] == '/',
        decreases j,
    {
        if s.get_char(j - 1) != '/' {
            return j;
        }
        j -= 1;
    }
    j
}

proof fn lemma_drop_trailing_take(s: Seq<char>, j: int)
    requires
        0 <= j <= s.len(),
        forall|k: int| j <= k < s.len() ==> s[k] == '/',
        j > 0 ==> s[j - 1] != '/',
    ensures
        drop_trailing_slashes(s) == s.take(j),
    decreases s.len(),
{
    if j == s.len() {
        assert(s.take(j) =~= s);
    } else {
        lemma_drop_trailing_take(s.drop_last(), j);
        assert(s.drop_last().take(j) =~= s.take(j));
    }
}

fn skip_leading_slashes(s: &str, from: usize) -> (j: usize)
    requires
        from <= s@.len(),
    ensures
        from <= j <= s@.len(),
        forall|k: int| from <= k < j ==> s@[k] == '/',
        j < s@.len() ==> s@[j as int] != '/',
{
    let n = s.unicode_len();
    let mut j: usize = from;
    while j < n
        invariant
            from <= j <= n,
            n == s@.len(),
            forall|k: int| from <= k < j ==> s@[k] == '/',
        decreases n - j,
    {
        if s.get_char(j) != '/' {
            return j;
        }
        j += 1;
    }
    j
}

proof fn lemma_drop_leading_skip(s: Seq<char>, from: int, j: int)
    requires
        0 <= from <= j <= s.len(),
        forall|k: int| from <= k < j ==> s[k] == '/',
        j < s.len() ==> s[j] != '/',
    ensures
        drop_leading_slashes(s.skip(from)) == s.skip(j),
    decreases j - from,
{
    if from == j {
    } else {
        assert(s.skip(from)[0] == '/');
        assert(s.skip(from).drop_first() =~= s.skip(from + 1));
        lemma_drop_leading_skip(s, from + 1, j);
    }
}

#[verifier::loop_isolation(false)]
fn query_path<'a>(cwd: &Option<String>, path: &'a str) -> (r: &'a str)
    ensures
        r@ == normalized_query(
            match *cwd {
                Some(ref c) => Some(c@),
                None => None,
            },
            path@,
        ),
{
    let base_full = match cwd {
        Some(c) => c.as_str(),
        None => {
            return path;
        },
    };
    let bn = len_without_trailing_slashes(base_full);
    proof {
        lemma_drop_trailing_take(base_full@, bn as int);
    }
    let ghost base = base_full@.take(bn as int);
    let pn = path.unicode_len();
    if bn == 0 || pn < bn {
        return path;
    }
    let mut i: usize = 0;
    while i < bn
        invariant
            i <= bn,
            bn <= pn == path@.len(),
            forall|k: int| 0 <= k < i ==> path@[k] == base[k],
        decreases bn - i,
    {
        if path.get_char(i) != base_full.get_char(i) {
            proof {
                assert(path@.take(bn as int)[i as int] != base[i as int]);
                assert(path@.take(bn as int) != base);
            }
            return path;
        }
        i += 1;
    }
    proof {
        assert(path@.take(bn as int) =~= base);
    }
    if pn > bn && path.get_char(bn) != '/' {
        return path;
    }
    let j = skip_leading_slashes(path, bn);
    proof {
        lemma_drop_leading_skip(path@, bn as int, j as int);
    }
    let r = path.substring_char(j, pn);
    proof {
        assert(r@ =~= path@.skip(j as int));
    }
    r
}

impl EditorConfig {
    /// Resolve a given path and return the effective properties: the
    /// cascade of every matching section, in file order.  If a base
    /// directory is set, paths under it are first made relative to it.
    /// Resolution only reads the document; its result is a function of the
    /// document and the path alone.
    pub fn resolve(&self, path: &str) -> (r: EditorConfigProperties)
        ensures
            r == resolve_model(self@, path@),
    {
        let q = query_path(&self.cwd, path);
        let mut properties = EditorConfigProperties::default();
        let m = self.sections.len();
        let mut i: usize = 0;
        proof {
            assert(self@.sections.take(0) =~= Seq::<SectionModel>::empty());
        }
        while i < m
            invariant
                i <= m,
                m == self.sections@.len(),
                self@.sections == self.sections@.map_values(|s: EditorConfigSection| s@),
                self@.sections.len() == m,
                q@ == normalized_query(self@.cwd, path@),
                properties == sections_fold(self@.sections.take(i as int), q@),
            decreases m - i,
        {
            proof {
                assert(self@.sections.take(i + 1).drop_last() =~= self@.sections.take(i as int));
                assert(self@.sections.take(i + 1).last() == self@.sections[i as int]);
            }
            let sec = &self.sections[i];
            let name = sec.name.as_str();
            if name.unicode_len() <= MAX_GLOB_LEN && glob_is_match(name, q) {
                properties.override_with(&sec.properties);
            }
            i += 1;
        }
        proof {
            assert(self@.sections.take(m as int) =~= self@.sections);
        }
        properties
    }
}

} // verus!
