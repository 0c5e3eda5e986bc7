//! Workspace persistence: named graph definitions kept as files.
//!
//! A workspace is a named graph definition with optional metadata, kept
//! as one file per workspace under the store's root directory. Reading
//! and writing those files is I/O and lives at the boundary; this module
//! holds the store's naming and listing policy, verified: how a
//! workspace name is sanitized into a file name, and how a directory
//! listing becomes the sorted list of workspace names.

use vstd::prelude::*;
use vstd::multiset::Multiset;
use vstd::string::{StrSliceExecFns, StringExecFns};

use crate::text::{char_alphanumeric, lex_le, lemma_lex_le_total, lemma_lex_le_trans, str_eq, str_le};
use crate::value::DataValue;

verus! {

/// How one character of a workspace name is sanitized: alphanumeric
/// characters, `-` and `_` stay, everything else becomes `_`.
pub open spec fn keep_char(c: char) -> char {
    if char_alphanumeric(c) || c == '-' || c == '_' {
        c
    } else {
        '_'
    }
}

/// The sanitized form of a workspace name, character by character.
pub open spec fn sanitize_spec(s: Seq<char>) -> Seq<char> {
    s.map_values(|c: char| keep_char(c))
}

/// The file name a workspace of this name is kept under.
pub open spec fn file_name_spec(name: Seq<char>) -> Seq<char> {
    sanitize_spec(name) + ".json"@
}

/// Whether a file name carries the workspace file extension.
pub open spec fn ends_json(f: Seq<char>) -> bool {
    f.len() >= 5 && f.subrange(f.len() - 5, f.len() as int) == ".json"@
}

/// The stem of a workspace file name, meaningful when `ends_json`.
pub open spec fn stem_of(f: Seq<char>) -> Seq<char> {
    f.subrange(0, f.len() - 5)
}

/// The stems of the workspace files among a directory listing, in
/// listing order.
pub open spec fn stems_spec(files: Seq<Seq<char>>) -> Seq<Seq<char>>
    decreases files.len(),
{
    if files.len() == 0 {
        Seq::empty()
    } else {
        let p = stems_spec(files.drop_last());
        if ends_json(files.last()) {
            p.push(stem_of(files.last()))
        } else {
            p
        }
    }
}

/// The character sequences of a list of strings.
pub open spec fn names_view(v: Seq<String>) -> Seq<Seq<char>> {
    v.map_values(|s: String| s@)
}

/// Whether a list of names is sorted lexicographically.
pub open spec fn names_sorted(v: Seq<Seq<char>>) -> bool {
    forall|i: int, j: int| 0 <= i < j < v.len() ==> lex_le(#[trigger] v[i], #[trigger] v[j])
}

/// Replace every character of `name` that is not alphanumeric, `-` or
/// `_` with `_`. The result is a pure function of the name, so equal
/// names always sanitize alike.
#[verifier::loop_isolation(false)]
pub fn sanitize_filename(name: &str) -> (r: String)
    ensures
        r@ == sanitize_spec(name@),
{
    let mut out = String::new();
    let len = name.unicode_len();
    let mut i: usize = 0;
    while i < len
        invariant
            i <= len,
            out@.len() == i as int,
            forall|j: int| 0 <= j < i ==> out@[j] == keep_char(name@[j]),
        decreases len - i,
    {
        let c = name.get_char(i);
        if c.is_alphanumeric() || c == '-' || c == '_' {
            out.push(c);
        } else {
            out.push('_');
        }
        i = i + 1;
    }
    proof {
        assert(out@ =~= sanitize_spec(name@));
    }
    out
}

/// Sanitizing is idempotent: a name sanitized once passes through a
/// second sanitization unchanged.
pub proof fn lemma_sanitize_idempotent(s: Seq<char>)
    ensures
        sanitize_spec(sanitize_spec(s)) == sanitize_spec(s),
{
    assert forall|i: int| 0 <= i < s.len() implies keep_char(keep_char(s[i])) == keep_char(
        s[i],
    ) by {
        if !(char_alphanumeric(s[i]) || s[i] == '-' || s[i] == '_') {
            assert(keep_char(s[i]) == '_');
        }
    }
    assert(sanitize_spec(sanitize_spec(s)) =~= sanitize_spec(s));
}

/// The workspace store: the directory its files live in, and the
/// naming and listing policy over it.
#[derive(Debug, Clone)]
pub struct WorkspaceManager {
    /// Directory the workspace files are kept in.
    pub nexus_dir: String,
}

impl WorkspaceManager {
    /// A store over the given directory.
    pub fn new(nexus_dir: &str) -> (r: WorkspaceManager)
        ensures
            r.nexus_dir@ == nexus_dir@,
    {
        WorkspaceManager { nexus_dir: nexus_dir.to_owned() }
    }

    /// The file name the workspace of this name is kept under: the
    /// sanitized name with the workspace file extension.
    pub fn workspace_file_name(&self, name: &str) -> (r: String)
        ensures
            r@ == file_name_spec(name@),
    {
        sanitize_filename(name).concat(".json")
    }

    /// The workspace names in a directory listing: the stems of the
    /// files carrying the workspace extension, sorted
    /// lexicographically.
    pub fn workspace_names_from_files(&self, files: Vec<String>) -> (r: Vec<String>)
        ensures
            names_sorted(names_view(r@)),
            names_view(r@).to_multiset() == stems_spec(names_view(files@)).to_multiset(),
    {
        let stems = collect_stems(files);
        sort_names(stems)
    }
}

/// The stems of the files carrying the workspace extension, in order.
#[verifier::loop_isolation(false)]
fn collect_stems(files: Vec<String>) -> (r: Vec<String>)
    ensures
        names_view(r@) == stems_spec(names_view(files@)),
{
    let mut out: Vec<String> = Vec::new();
    let mut i: usize = 0;
    while i < files.len()
        invariant
            i <= files.len(),
            names_view(out@) == stems_spec(names_view(files@).subrange(0, i as int)),
        decreases files.len() - i,
    {
        let ghost pre = names_view(out@);
        let f = &files[i];
        let len = f.as_str().unicode_len();
        if len >= 5 {
            let ext = f.as_str().substring_char(len - 5, len);
            if str_eq(ext, ".json") {
                let stem = f.as_str().substring_char(0, len - 5).to_owned();
                out.push(stem);
            }
        }
        proof {
            let fv = names_view(files@);
            let sub = fv.subrange(0, i as int + 1);
            assert(sub.drop_last() =~= fv.subrange(0, i as int));
            assert(sub.last() == fv[i as int]);
            assert(fv[i as int] == files@[i as int]@);
            if f@.len() >= 5 && f@.subrange(f@.len() - 5, f@.len() as int) == ".json"@ {
                assert(ends_json(fv[i as int]));
                assert(names_view(out@) =~= pre.push(stem_of(fv[i as int])));
            } else {
                assert(!ends_json(fv[i as int]));
                assert(names_view(out@) =~= pre);
            }
        }
        i = i + 1;
    }
    proof {
        assert(names_view(files@).subrange(0, files@.len() as int) =~= names_view(files@));
    }
    out
}

/// Sort names lexicographically by selection: repeatedly move the
/// least remaining name to the end of the output.
#[verifier::loop_isolation(false)]
fn sort_names(names: Vec<String>) -> (r: Vec<String>)
    ensures
        names_sorted(names_view(r@)),
        names_view(r@).to_multiset() == names_view(names@).to_multiset(),
{
    broadcast use vstd::seq_lib::group_seq_lib_default;
    broadcast use vstd::multiset::group_multiset_axioms;
    broadcast use vstd::multiset::lemma_multiset_empty_len;

    let ghost orig = names_view(names@);
    let mut rest = names;
    let mut out: Vec<String> = Vec::new();
    proof {
        assert(names_view(out@) =~= Seq::<Seq<char>>::empty());
        names_view(out@).to_multiset_ensures();
        assert(names_view(out@).to_multiset().len() == 0);
        assert(names_view(out@).to_multiset() =~= Multiset::empty());
        assert(Multiset::<Seq<char>>::empty().add(names_view(rest@).to_multiset())
            =~= names_view(rest@).to_multiset());
    }
    while rest.len() > 0
        invariant
            names_sorted(names_view(out@)),
            forall|a: int, b: int|
                0 <= a < out@.len() && 0 <= b < rest@.len() ==> lex_le(
                    #[trigger] names_view(out@)[a],
                    #[trigger] names_view(rest@)[b],
                ),
            names_view(out@).to_multiset().add(names_view(rest@).to_multiset())
                == orig.to_multiset(),
        decreases rest@.len(),
    {
        let mut m: usize = 0;
        let mut j: usize = 1;
        proof {
            lemma_lex_le_total(names_view(rest@)[0], names_view(rest@)[0]);
        }
        while j < rest.len()
            invariant
                m < j <= rest@.len(),
                forall|k: int| 0 <= k < j ==> lex_le(names_view(rest@)[m as int], #[trigger] names_view(rest@)[k]),
            decreases rest@.len() - j,
        {
            if str_le(rest[j].as_str(), rest[m].as_str()) {
                proof {
                    assert forall|k: int| 0 <= k < j + 1 implies lex_le(
                        names_view(rest@)[j as int],
                        #[trigger] names_view(rest@)[k],
                    ) by {
                        if k < j {
                            lemma_lex_le_trans(
                                names_view(rest@)[j as int],
                                names_view(rest@)[m as int],
                                names_view(rest@)[k],
                            );
                        } else {
                            lemma_lex_le_total(
                                names_view(rest@)[j as int],
                                names_view(rest@)[j as int],
                            );
                        }
                    }
                }
                m = j;
            } else {
                proof {
                    lemma_lex_le_total(names_view(rest@)[j as int], names_view(rest@)[m as int]);
                }
            }
            j = j + 1;
        }
        let ghost rv = names_view(rest@);
        let ghost ov = names_view(out@);
        let x = rest.remove(m);
        out.push(x);
        proof {
            assert(names_view(out@) =~= ov.push(rv[m as int]));
            assert(names_view(rest@) =~= rv.remove(m as int));
            rv.remove_ensures(m as int);
            assert(names_sorted(names_view(out@))) by {
                assert forall|a: int, b: int| 0 <= a < b < names_view(out@).len() implies lex_le(
                    #[trigger] names_view(out@)[a],
                    #[trigger] names_view(out@)[b],
                ) by {
                    if b < names_view(out@).len() - 1 {
                        assert(names_view(out@)[a] == ov[a] && names_view(out@)[b] == ov[b]);
                    } else {
                        assert(names_view(out@)[b] == rv[m as int]);
                        if a < ov.len() {
                            assert(names_view(out@)[a] == ov[a]);
                        }
                    }
                }
            }
            assert forall|a: int, b: int|
                0 <= a < out@.len() && 0 <= b < rest@.len() implies lex_le(
                #[trigger] names_view(out@)[a],
                #[trigger] names_view(rest@)[b],
            ) by {
                let rb = names_view(rest@)[b];
                assert(rb == rv.remove(m as int)[b]);
                if b < m as int {
                    assert(rb == rv[b]);
                } else {
                    assert(rb == rv[b + 1]);
                }
                if a < ov.len() {
                    assert(names_view(out@)[a] == ov[a]);
                } else {
                    assert(names_view(out@)[a] == rv[m as int]);
                }
            }
            assert(names_view(out@).to_multiset().add(names_view(rest@).to_multiset())
                == orig.to_multiset()) by {
                ov.to_multiset_ensures();
                rv.to_multiset_ensures();
                assert(ov.push(rv[m as int]).to_multiset() =~= ov.to_multiset().insert(
                    rv[m as int],
                ));
                assert(names_view(out@).to_multiset() == ov.push(rv[m as int]).to_multiset());
                assert(rv.remove(m as int).to_multiset() =~= rv.to_multiset().remove(
                    rv[m as int],
                ));
                assert(names_view(rest@).to_multiset() == rv.remove(m as int).to_multiset());
                assert(rv.contains(rv[m as int]));
                assert(rv.to_multiset().count(rv[m as int]) > 0);
                assert(names_view(out@).to_multiset().add(names_view(rest@).to_multiset())
                    =~= ov.to_multiset().add(rv.to_multiset()));
            }
        }
    }
    proof {
        assert(names_view(rest@) =~= Seq::<Seq<char>>::empty());
        names_view(rest@).to_multiset_ensures();
        assert(names_view(rest@).to_multiset().len() == 0);
        assert(names_view(rest@).to_multiset() =~= Multiset::empty());
        assert(names_view(out@).to_multiset() =~= orig.to_multiset());
    }
    out
}

/// A request to save a workspace under a name.
#[derive(Debug)]
pub struct SaveWorkspaceRequest {
    /// The workspace name; sanitized before use as a file name.
    pub name: String,
    /// The workspace content to save.
    pub data: WorkspaceData,
}

/// A persisted workspace: the graph definition plus optional metadata.
#[derive(Debug)]
pub struct WorkspaceData {
    /// The graph definition, opaque at this layer.
    pub graph: DataValue,
    /// Optional descriptive metadata.
    pub metadata: Option<WorkspaceMetadata>,
}

/// Optional descriptive metadata of a workspace.
#[derive(Debug, Clone)]
pub struct WorkspaceMetadata {
    /// When the workspace was created.
    pub created_at: Option<String>,
    /// When the workspace was last modified.
    pub modified_at: Option<String>,
    /// Who created the workspace.
    pub created_by: Option<String>,
    /// A free-form description.
    pub description: Option<String>,
}

/// Response body of the workspace listing endpoint.
#[derive(Debug)]
pub struct WorkspaceListResponse {
    /// The workspace names, sorted.
    pub workspaces: Vec<String>,
}

} // verus!
