//! Path resolution: where a workflow's directory and JSON file live.
//!
//! Given a workflow name (or identifier) and an optional user-supplied path,
//! the resolver computes the target directory and the JSON file path. A
//! user path that is an existing directory, or that has no file extension,
//! is treated as a directory; any other user path is taken as the literal
//! file path. With no user path, the directory is the slug of the name.

use crate::slug::{slug_of, slugify};
use crate::text::{ends_with, str_ends_with};
use vstd::prelude::*;

verus! {

/// The index just past the last `/` of a path, or `0` if it has none.
pub open spec fn after_last_slash(p: Seq<char>) -> int
    decreases p.len(),
{
    if p.len() == 0 {
        0
    } else if p[p.len() - 1] == '/' {
        p.len() as int
    } else {
        after_last_slash(p.drop_last())
    }
}

/// Whether the final component of a path has a file extension: a `.` that
/// is not its first character, matching how the platform's path type
/// reports extensions.
pub open spec fn has_extension(p: Seq<char>) -> bool {
    exists|j: int| after_last_slash(p) + 1 <= j < p.len() && p[j] == '.'
}

/// The parent directory of a file path: the text before its last `/`, the
/// root `/` when that text is empty, or `.` when the path has no `/` at all.
pub open spec fn parent_dir(p: Seq<char>) -> Seq<char> {
    let a = after_last_slash(p);
    if a == 0 {
        "."@
    } else if a == 1 {
        "/"@
    } else {
        p.subrange(0, a - 1)
    }
}

proof fn lemma_after_last_slash_at(p: Seq<char>, k: int)
    requires
        0 <= k <= p.len(),
        forall|j: int| k <= j < p.len() ==> p[j] != '/',
        k > 0 ==> p[k - 1] == '/',
    ensures
        after_last_slash(p) == k,
    decreases p.len(),
{
    if k == p.len() {
        if p.len() > 0 {
            assert(p[p.len() - 1] == '/');
        }
    } else {
        assert(p[p.len() - 1] != '/');
        if p.len() > 0 {
            lemma_after_last_slash_at(p.drop_last(), k);
        }
    }
}

/// Computes [`after_last_slash`] of a path.
fn find_after_last_slash(p: &str) -> (k: usize)
    ensures
        k == after_last_slash(p@),
{
    let n: usize = p.unicode_len();
    let mut k: usize = n;
    while k > 0 && p.get_char(k - 1) != '/'
        invariant
            n == p@.len(),
            0 <= k <= n,
            forall|j: int| k <= j < n ==> p@[j] != '/',
        decreases k,
    {
        k = k - 1;
    }
    proof {
        lemma_after_last_slash_at(p@, k as int);
    }
    k
}

fn has_extension_exec(p: &str) -> (b: bool)
    ensures
        b == has_extension(p@),
{
    let n: usize = p.unicode_len();
    let a = find_after_last_slash(p);
    if a >= n {
        return false;
    }
    let mut j: usize = a + 1;
    while j < n
        invariant
            n == p@.len(),
            a == after_last_slash(p@),
            a + 1 <= j <= n,
            forall|i: int| a + 1 <= i < j ==> p@[i] != '.',
        decreases n - j,
    {
        if p.get_char(j) == '.' {
            return true;
        }
        j = j + 1;
    }
    false
}

/// A resolved target: the workflow's directory and its JSON file path.
pub struct ResolvedPaths {
    pub dir: String,
    pub file: String,
}

/// Resolves the directory and JSON file path for a workflow.
///
/// `path_is_dir` reports whether `user_path` names an existing directory;
/// the caller, which can see the filesystem, supplies it. It is ignored
/// when `user_path` is `None`.
pub fn resolve(name_or_id: &str, user_path: Option<&String>, path_is_dir: bool) -> (r:
    ResolvedPaths)
    ensures
        match user_path {
            None => r.dir@ == slug_of(name_or_id@) && r.file@ == slug_of(name_or_id@)
                + "/workflow.json"@,
            Some(p) => {
                if path_is_dir || !has_extension(p@) {
                    r.dir@ == p@ && r.file@ == p@ + "/workflow.json"@
                } else {
                    r.dir@ == parent_dir(p@) && r.file@ == p@
                }
            },
        },
{
    match user_path {
        None => {
            let dir = slugify(name_or_id);
            let file = dir.clone().concat("/workflow.json");
            ResolvedPaths { dir, file }
        },
        Some(p) => {
            if path_is_dir || !has_extension_exec(p.as_str()) {
                let dir = p.clone();
                let file = p.clone().concat("/workflow.json");
                ResolvedPaths { dir, file }
            } else {
                let a = find_after_last_slash(p.as_str());
                let dir = if a == 0 {
                    String::from_str(".")
                } else if a == 1 {
                    String::from_str("/")
                } else {
                    String::from_str(p.as_str().substring_char(0, a - 1))
                };
                ResolvedPaths { dir, file: p.clone() }
            }
        },
    }
}

/// Zero or several candidate JSON files were found where exactly one was
/// needed.
#[derive(Clone, Copy, Debug, PartialEq, Eq, Structural)]
pub enum AmbiguousInput {
    NoJsonFiles,
    MultipleJsonFiles,
}

/// Whether a file name is a candidate workflow file: it ends in `.json`
/// and has a non-empty stem.
pub open spec fn is_json_name(n: Seq<char>) -> bool {
    n.len() >= 6 && ends_with(n, ".json"@)
}

/// The candidate JSON files of a directory listing, in order.
pub open spec fn json_candidates(names: Seq<Seq<char>>) -> Seq<Seq<char>> {
    names.filter(|n: Seq<char>| is_json_name(n))
}

fn is_json_name_exec(n: &String) -> (b: bool)
    ensures
        b == is_json_name(n@),
{
    n.as_str().unicode_len() >= 6 && str_ends_with(n.as_str(), ".json")
}

/// Picks the workflow JSON file among the file names of a directory.
///
/// A file literally named `workflow.json` is preferred; otherwise the
/// single candidate `.json` file is chosen; zero or several candidates are
/// reported as ambiguous.
pub fn pick_json_file(names: &Vec<String>) -> (r: Result<String, AmbiguousInput>)
    ensures
        ({
            let nv = names@.map_values(|s: String| s@);
            let js = json_candidates(nv);
            &&& nv.contains("workflow.json"@) ==> r is Ok && r->Ok_0@ == "workflow.json"@
            &&& !nv.contains("workflow.json"@) && js.len() == 1 ==> r is Ok && r->Ok_0@ == js[0]
            &&& !nv.contains("workflow.json"@) && js.len() == 0 ==> r == Err::<
                String,
                AmbiguousInput,
            >(AmbiguousInput::NoJsonFiles)
            &&& !nv.contains("workflow.json"@) && js.len() > 1 ==> r == Err::<
                String,
                AmbiguousInput,
            >(AmbiguousInput::MultipleJsonFiles)
        }),
{
    let ghost nv = names@.map_values(|s: String| s@);
    let ghost pred = |n: Seq<char>| is_json_name(n);
    let n: usize = names.len();
    let preferred = String::from_str("workflow.json");
    let mut i: usize = 0;
    while i < n
        invariant
            n == names.len(),
            nv == names@.map_values(|s: String| s@),
            preferred@ == "workflow.json"@,
            0 <= i <= n,
            forall|j: int| 0 <= j < i ==> nv[j] != "workflow.json"@,
        decreases n - i,
    {
        if names[i] == preferred {
            assert(nv[i as int] == "workflow.json"@);
            return Ok(preferred);
        }
        i = i + 1;
    }
    assert(!nv.contains("workflow.json"@));

    let mut count: usize = 0;
    let mut found: Option<String> = None;
    let ghost mut w: int = 0;
    let mut i: usize = 0;
    proof {
        reveal(Seq::filter);
        assert(nv.take(0) =~= Seq::<Seq<char>>::empty());
    }
    while i < n
        invariant
            n == names.len(),
            nv == names@.map_values(|s: String| s@),
            pred == (|n: Seq<char>| is_json_name(n)),
            0 <= i <= n,
            count <= i,
            count == nv.take(i as int).filter(pred).len(),
            count > 0 <==> found is Some,
            found is Some ==> 0 <= w < i && nv[w] == found->0@ && is_json_name(found->0@),
        decreases n - i,
    {
        let keep = is_json_name_exec(&names[i]);
        proof {
            reveal(Seq::filter);
            let pre = nv.take(i + 1);
            assert(pre.drop_last() =~= nv.take(i as int));
            assert(pre.last() == nv[i as int]);
        }
        if keep {
            count = count + 1;
            if found.is_none() {
                found = Some(names[i].clone());
                proof {
                    w = i as int;
                }
            }
        }
        i = i + 1;
    }
    proof {
        assert(nv.take(n as int) =~= nv);
    }
    if count == 0 {
        Err(AmbiguousInput::NoJsonFiles)
    } else if count == 1 {
        let f = found.unwrap();
        proof {
            nv.lemma_filter_contains(pred, w);
            let js = json_candidates(nv);
            let k = choose|k: int| 0 <= k < js.len() && js[k] == f@;
            assert(js[k] == f@);
        }
        Ok(f)
    } else {
        Err(AmbiguousInput::MultipleJsonFiles)
    }
}

} // verus!
