//! Browser-download artifacts: naming and finalization.
//!
//! The browser-automation backend reports a completed download through a
//! page element whose text carries the target filename plus a trailing
//! size annotation such as `" (12.3 MB)"`; [`strip_size_annotation`]
//! recovers the canonical filename. The download lands in a per-identifier
//! temporary directory under a name the run does not control, so
//! [`plan_finalize`] turns a directory listing into the rename the driver
//! must perform, or reports the artifact unrecoverable when the listing is
//! empty.

use vstd::prelude::*;

verus! {

/// A character the size annotation's number may contain.
pub open spec fn is_size_char(c: char) -> bool {
    ('0' <= c && c <= '9') || c == '.'
}

/// True when the suffix of `s` starting at `k` is a size annotation:
/// a space, an opening parenthesis, one or more digits or dots,
/// then `" MB)"` closing the string.
pub open spec fn annotation_at(s: Seq<char>, k: int) -> bool {
    &&& 0 <= k
    &&& k + 7 <= s.len()
    &&& s[k] == ' '
    &&& s[k + 1] == '('
    &&& s[s.len() - 4] == ' '
    &&& s[s.len() - 3] == 'M'
    &&& s[s.len() - 2] == 'B'
    &&& s[s.len() - 1] == ')'
    &&& forall|j: int| k + 2 <= j < s.len() - 4 ==> is_size_char(s[j])
}

/// True when `s` ends in a size annotation.
pub open spec fn has_annotation(s: Seq<char>) -> bool {
    exists|k: int| annotation_at(s, k)
}

/// `s` with its trailing size annotation removed, if it has one.
pub open spec fn stripped(s: Seq<char>) -> Seq<char> {
    if has_annotation(s) {
        s.take(choose|k: int| annotation_at(s, k))
    } else {
        s
    }
}

/// At most one suffix of a string is a size annotation: the annotation's
/// number may not contain the space that starts another annotation.
pub proof fn lemma_annotation_unique(s: Seq<char>, k1: int, k2: int)
    requires
        annotation_at(s, k1),
        annotation_at(s, k2),
    ensures
        k1 == k2,
{
    if k1 < k2 {
        if k2 == k1 + 1 {
            assert(s[k2] == '(');
        } else {
            assert(k1 + 2 <= k2 < s.len() - 4);
            assert(is_size_char(s[k2]));
        }
    } else if k2 < k1 {
        if k1 == k2 + 1 {
            assert(s[k1] == '(');
        } else {
            assert(k2 + 2 <= k1 < s.len() - 4);
            assert(is_size_char(s[k1]));
        }
    }
}

/// Exec twin of [`is_size_char`].
fn size_char(c: char) -> (b: bool)
    ensures
        b == is_size_char(c),
{
    ('0' <= c && c <= '9') || c == '.'
}

/// Removes the trailing size annotation from a page element's text,
/// leaving text without one unchanged.
pub fn strip_size_annotation(text: &str) -> (r: String)
    ensures
        r@ == stripped(text@),
{
    let n = text.unicode_len();
    if n < 7 {
        assert(!has_annotation(text@)) by {
            assert(forall|k: int| !annotation_at(text@, k));
        }
        return text.to_owned();
    }
    if !(text.get_char(n - 4) == ' ' && text.get_char(n - 3) == 'M'
        && text.get_char(n - 2) == 'B' && text.get_char(n - 1) == ')') {
        assert(!has_annotation(text@)) by {
            assert(forall|k: int| !annotation_at(text@, k));
        }
        return text.to_owned();
    }
    let mut i = n - 4;
    while i > 0 && size_char(text.get_char(i - 1))
        invariant
            i <= n - 4,
            n == text@.len(),
            7 <= n,
            forall|j: int| i <= j < n - 4 ==> is_size_char(text@[j]),
        decreases i,
    {
        i = i - 1;
    }
    if i == n - 4 {
        assert(!has_annotation(text@)) by {
            assert forall|k: int| !annotation_at(text@, k) by {
                if annotation_at(text@, k) {
                    assert(k + 2 <= n - 5 < n - 4);
                    assert(is_size_char(text@[n - 5]));
                }
            }
        }
        return text.to_owned();
    }
    if i >= 2 && text.get_char(i - 1) == '(' && text.get_char(i - 2) == ' ' {
        proof {
            assert(annotation_at(text@, i - 2));
            let k0 = choose|k: int| annotation_at(text@, k);
            lemma_annotation_unique(text@, k0, i - 2);
        }
        text.substring_char(0, i - 2).to_owned()
    } else {
        assert(!has_annotation(text@)) by {
            assert forall|k: int| !annotation_at(text@, k) by {
                if annotation_at(text@, k) {
                    // The annotation's number sits directly before " MB)",
                    // so it lies inside the scanned run; its opening
                    // parenthesis bounds the run on the left.
                    if k + 2 < i {
                        assert(k + 2 <= i - 1 < n - 4);
                        assert(is_size_char(text@[i - 1]));
                        assert(i > 0 ==> !is_size_char(text@[i - 1]));
                    } else if k + 2 > i {
                        assert(i <= k + 1 < n - 4);
                        assert(is_size_char(text@[k + 1]));
                    } else {
                        assert(text@[i - 1] == '(' && text@[i - 2] == ' ');
                    }
                }
            }
        }
        text.to_owned()
    }
}

/// Joins a directory path and an entry name with a single separator.
pub fn join_path(dir: &str, name: &str) -> (r: String)
    ensures
        r@ == dir@ + "/"@ + name@,
{
    let mut r = dir.to_owned();
    r.append("/");
    r.append(name);
    r
}

/// Law: within one directory, distinct names join to distinct paths, so
/// the per-identifier temporary directories of two different in-flight
/// identifiers never coincide.
pub proof fn lemma_join_path_injective(dir: Seq<char>, n1: Seq<char>, n2: Seq<char>)
    requires
        dir + "/"@ + n1 == dir + "/"@ + n2,
    ensures
        n1 == n2,
{
    reveal_strlit("/");
    let a = dir + "/"@ + n1;
    let b = dir + "/"@ + n2;
    assert(a.len() == dir.len() + "/"@.len() + n1.len());
    assert(b.len() == dir.len() + "/"@.len() + n2.len());
    assert(n1.len() == n2.len());
    assert forall|i: int| 0 <= i < n1.len() implies n1[i] == n2[i] by {
        assert(a[dir.len() + 1 + i] == n1[i]);
        assert(b[dir.len() + 1 + i] == n2[i]);
    }
    assert(n1 =~= n2);
}

/// The download page for one identifier on the hosting site.
pub fn app_page_url(app_id: &str) -> (r: String)
    ensures
        r@ == "https://apkpure.com/a/"@ + app_id@ + "/download?from=details"@,
{
    let mut r = "https://apkpure.com/a/".to_owned();
    r.append(app_id);
    r.append("/download?from=details");
    r
}

/// A completed browser-driven download awaiting finalization.
///
/// The temporary directory is exclusive to this identifier for this
/// attempt: the finalizer identifies the written file by listing the
/// directory, so no two in-flight attempts may share one.
#[derive(Debug, PartialEq, Eq)]
pub struct PendingArtifact {
    /// The per-identifier temporary directory the browser wrote into.
    pub temp_dir: String,
    /// The canonical filename derived from the page metadata.
    pub target_name: String,
    /// The identifier the artifact belongs to.
    pub app_id: String,
}

/// What the driver must do with a pending artifact.
#[derive(Debug, PartialEq, Eq)]
pub enum FinalizePlan {
    /// Rename the written file, within its directory, to the canonical name.
    Rename { from: String, to: String },
    /// The directory held nothing; the artifact cannot be recovered.
    Unrecoverable,
}

/// Decides how to finalize a pending artifact from its temporary
/// directory's listing: an empty listing is unrecoverable, otherwise the
/// first entry is renamed to the canonical target name.
pub fn plan_finalize(artifact: &PendingArtifact, entries: &Vec<String>) -> (r: FinalizePlan)
    ensures
        entries@.len() == 0 ==> r is Unrecoverable,
        entries@.len() > 0 ==> (r matches FinalizePlan::Rename { from, to }
            && from@ == artifact.temp_dir@ + "/"@ + entries@[0]@
            && to@ == artifact.temp_dir@ + "/"@ + artifact.target_name@),
{
    if entries.len() == 0 {
        FinalizePlan::Unrecoverable
    } else {
        let from = join_path(artifact.temp_dir.as_str(), entries[0].as_str());
        let to = join_path(artifact.temp_dir.as_str(), artifact.target_name.as_str());
        FinalizePlan::Rename { from, to }
    }
}

} // verus!
