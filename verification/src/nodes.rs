//! Node-type version extraction: recognizing node source paths in the n8n
//! repository tree and reading the version number out of a node's source.
//!
//! The surrounding binary fetches the repository tree and the source files;
//! the functions here decide which paths name a node, what the node is
//! called, and which version its source declares, and fold the observed
//! versions into a highest-version-per-node table.

use crate::text::{ends_with, starts_with, str_ends_with, str_starts_with};
use vstd::prelude::*;

verus! {

/// An ASCII decimal digit.
pub open spec fn is_ascii_digit(c: char) -> bool {
    '0' <= c && c <= '9'
}

/// An ASCII whitespace character.
pub open spec fn is_space_char(c: char) -> bool {
    c == ' ' || c == '\t' || c == '\n' || c == '\r' || c == '\u{b}' || c == '\u{c}'
}

/// The index of the first `/` of `s` at or after the front, or `s.len()`
/// if there is none.
pub open spec fn find_slash(s: Seq<char>) -> int
    decreases s.len(),
{
    if s.len() == 0 {
        0
    } else if s[0] == '/' {
        0
    } else {
        1 + find_slash(s.drop_first())
    }
}

/// Whether a repository path names a node's source file: under the fixed
/// nodes directory, a non-empty node-name segment, then a file below it
/// ending in `.node.js` or `.node.ts`.
pub open spec fn is_node_source_path(p: Seq<char>) -> bool {
    let pre = "packages/nodes-base/nodes/"@;
    &&& starts_with(p, pre)
    &&& {
        let rest = p.skip(pre.len() as int);
        let k = find_slash(rest);
        &&& k > 0
        &&& k < rest.len()
        &&& (ends_with(rest.skip(k + 1), ".node.js"@) || ends_with(rest.skip(k + 1), ".node.ts"@))
    }
}

/// The node name a source path carries: the path segment right below the
/// fixed nodes directory.
pub open spec fn node_name_of(p: Seq<char>) -> Seq<char> {
    let rest = p.skip("packages/nodes-base/nodes/"@.len() as int);
    rest.subrange(0, find_slash(rest))
}

proof fn lemma_find_slash_at(s: Seq<char>, k: int)
    requires
        0 <= k <= s.len(),
        forall|j: int| 0 <= j < k ==> s[j] != '/',
        k < s.len() ==> s[k] == '/',
    ensures
        find_slash(s) == k,
    decreases k,
{
    if k == 0 {
    } else {
        let t = s.drop_first();
        lemma_find_slash_at(t, k - 1);
    }
}

/// Recognizes a node source path and returns the node's name.
pub fn node_name_of_path(path: &str) -> (r: Option<String>)
    ensures
        match r {
            Some(name) => is_node_source_path(path@) && name@ == node_name_of(path@),
            None => !is_node_source_path(path@),
        },
{
    proof {
        reveal_strlit("packages/nodes-base/nodes/");
    }
    if !str_starts_with(path, "packages/nodes-base/nodes/") {
        return None;
    }
    proof {
        assert("packages/nodes-base/nodes/"@.len() == 26);
    }
    let pre_len: usize = 26;
    let n: usize = path.unicode_len();
    let ghost rest = path@.skip(pre_len as int);
    let mut k: usize = pre_len;
    while k < n && path.get_char(k) != '/'
        invariant
            n == path@.len(),
            pre_len <= k <= n,
            pre_len == 26,
            n >= 26,
            "packages/nodes-base/nodes/"@.len() == 26,
            starts_with(path@, "packages/nodes-base/nodes/"@),
            forall|j: int| pre_len <= j < k ==> path@[j] != '/',
        decreases n - k,
    {
        k = k + 1;
    }
    proof {
        assert(forall|j: int| 0 <= j < rest.len() ==> rest[j] == path@[j + pre_len]);
        lemma_find_slash_at(rest, k - pre_len);
    }
    if k == pre_len {
        return None;
    }
    if k >= n {
        return None;
    }
    let tail = path.substring_char(k + 1, n);
    proof {
        assert(tail@ =~= rest.skip(k - pre_len + 1));
    }
    if str_ends_with(tail, ".node.js") || str_ends_with(tail, ".node.ts") {
        let name = String::from_str(path.substring_char(pre_len, k));
        proof {
            assert(name@ =~= rest.subrange(0, k - pre_len));
        }
        Some(name)
    } else {
        None
    }
}

/// The first index at or after `j` holding a non-whitespace character, or
/// `s.len()` if the rest is all whitespace.
pub open spec fn ws_end(s: Seq<char>, j: int) -> int
    decreases s.len() - j,
{
    if j < 0 || j >= s.len() {
        s.len() as int
    } else if is_space_char(s[j]) {
        ws_end(s, j + 1)
    } else {
        j
    }
}

/// The first index at or after `j` holding a non-digit character, or
/// `s.len()` if the rest is all digits.
pub open spec fn digits_end(s: Seq<char>, j: int) -> int
    decreases s.len() - j,
{
    if j < 0 || j >= s.len() {
        s.len() as int
    } else if is_ascii_digit(s[j]) {
        digits_end(s, j + 1)
    } else {
        j
    }
}

/// The numeric value of a sequence of decimal digits, most significant
/// first.
pub open spec fn digits_value(s: Seq<char>) -> int
    decreases s.len(),
{
    if s.len() == 0 {
        0
    } else {
        digits_value(s.drop_last()) * 10 + (s.last() as int - '0' as int)
    }
}

/// Whether the marker `version:` stands at index `i` of `s`, followed by
/// optional whitespace and at least one digit.
pub open spec fn version_match_at(s: Seq<char>, i: int) -> bool {
    let key = "version:"@;
    &&& 0 <= i
    &&& i + key.len() <= s.len()
    &&& s.subrange(i, i + key.len()) == key
    &&& {
        let j = ws_end(s, i + key.len());
        j < s.len() && is_ascii_digit(s[j])
    }
}

/// The least index of `s` where [`version_match_at`] holds, searching from
/// `i`; `s.len()` if there is none.
pub open spec fn find_match_from(s: Seq<char>, i: int) -> int
    decreases s.len() - i,
{
    if i < 0 || i >= s.len() {
        s.len() as int
    } else if version_match_at(s, i) {
        i
    } else {
        find_match_from(s, i + 1)
    }
}

/// The version number a node's source declares: at the first `version:`
/// marker followed by a number, that number; `None` when no marker is
/// followed by a number, or the number overflows the version type.
pub open spec fn version_of(s: Seq<char>) -> Option<u32> {
    let i = find_match_from(s, 0);
    if i == s.len() {
        None
    } else {
        let j = ws_end(s, i + "version:"@.len());
        let e = digits_end(s, j);
        let v = digits_value(s.subrange(j, e));
        if v <= u32::MAX as int {
            Some(v as u32)
        } else {
            None
        }
    }
}

fn is_space_exec(c: char) -> (b: bool)
    ensures
        b == is_space_char(c),
{
    c == ' ' || c == '\t' || c == '\n' || c == '\r' || c == '\u{b}' || c == '\u{c}'
}

fn is_digit_exec(c: char) -> (b: bool)
    ensures
        b == is_ascii_digit(c),
{
    '0' <= c && c <= '9'
}

fn key_matches_at(text: &str, i: usize, n: usize) -> (b: bool)
    requires
        n == text@.len(),
        i + "version:"@.len() <= n,
    ensures
        b == (text@.subrange(i as int, i + "version:"@.len()) == "version:"@),
{
    let key = "version:";
    let ghost kv = "version:"@;
    let m: usize = key.unicode_len();
    let mut j: usize = 0;
    while j < m
        invariant
            kv == "version:"@,
            m == kv.len(),
            n == text@.len(),
            i + m <= n,
            key@ == kv,
            0 <= j <= m,
            forall|q: int| 0 <= q < j ==> text@[i + q] == kv[q],
        decreases m - j,
    {
        if text.get_char(i + j) != key.get_char(j) {
            proof {
                let sub = text@.subrange(i as int, i + m as int);
                assert(sub[j as int] == text@[i + j]);
                assert(sub != kv);
                assert(text@.subrange(i as int, i + "version:"@.len()) != "version:"@);
            }
            return false;
        }
        j = j + 1;
    }
    proof {
        assert(text@.subrange(i as int, i + m as int) =~= kv);
    }
    true
}

/// Reads the declared node version out of a node's source text.
pub fn version_of_source(text: &str) -> (r: Option<u32>)
    ensures
        r == version_of(text@),
{
    let ghost s = text@;
    let n: usize = text.unicode_len();
    let key_len: usize = "version:".unicode_len();
    let mut i: usize = 0;
    while i < n
        invariant
            n == s.len(),
            s == text@,
            key_len == "version:"@.len(),
            0 <= i <= n,
            find_match_from(s, 0) == find_match_from(s, i as int),
        decreases n - i,
    {
        let matched: bool = if n - i >= key_len {
            key_matches_at(text, i, n)
        } else {
            false
        };
        if matched {
            // skip whitespace after the marker
            let mut j: usize = i + key_len;
            while j < n && is_space_exec(text.get_char(j))
                invariant
                    n == s.len(),
                    s == text@,
                    i + key_len <= j <= n,
                    ws_end(s, i + key_len) == ws_end(s, j as int),
                decreases n - j,
            {
                j = j + 1;
            }
            if j < n && is_digit_exec(text.get_char(j)) {
                proof {
                    assert(version_match_at(s, i as int));
                }
                // accumulate the digit run, saturating above the version range
                let limit: u64 = 0x1_0000_0000;
                let mut e: usize = j;
                let mut v: u64 = 0;
                while e < n && is_digit_exec(text.get_char(e))
                    invariant
                        n == s.len(),
                        s == text@,
                        0 <= j <= e <= n,
                        limit == 0x1_0000_0000,
                        digits_end(s, j as int) == digits_end(s, e as int),
                        forall|q: int| j <= q < e ==> is_ascii_digit(s[q]),
                        v <= limit,
                        digits_value(s.subrange(j as int, e as int)) <= u32::MAX ==> v
                            == digits_value(s.subrange(j as int, e as int)),
                        digits_value(s.subrange(j as int, e as int)) > u32::MAX ==> v == limit,
                    decreases n - e,
                {
                    let c = text.get_char(e);
                    let d: u64 = (c as u32 as u64) - ('0' as u32 as u64);
                    let ghost pre = s.subrange(j as int, e as int);
                    let ghost full = s.subrange(j as int, e + 1);
                    proof {
                        assert(full.drop_last() =~= pre);
                        assert(full.last() == s[e as int]);
                        assert(digits_value(full) == digits_value(pre) * 10 + (s[e as int] as int
                            - '0' as int));
                        assert(digits_value(pre) >= 0) by {
                            lemma_digits_value_nonneg(pre);
                        }
                    }
                    v = if v >= limit {
                        limit
                    } else {
                        let w = v * 10 + d;
                        if w >= limit {
                            limit
                        } else {
                            w
                        }
                    };
                    e = e + 1;
                }
                let ghost run = s.subrange(j as int, e as int);
                proof {
                    lemma_digits_value_nonneg(run);
                    lemma_find_match_settled(s, i as int);
                }
                if v <= 0xFFFF_FFFFu64 {
                    return Some(v as u32);
                } else {
                    return None;
                }
            } else {
                proof {
                    assert(ws_end(s, i + key_len) == j);
                    assert(!version_match_at(s, i as int));
                }
            }
        } else {
            proof {
                assert(!version_match_at(s, i as int));
            }
        }
        i = i + 1;
    }
    proof {
        assert(find_match_from(s, n as int) == n);
    }
    None
}

/// One row of the node-version table.
pub struct NodeVersion {
    pub name: String,
    pub version: u32,
}

/// The mathematical value of a [`NodeVersion`].
pub struct NodeVersionView {
    pub name: Seq<char>,
    pub version: u32,
}

impl View for NodeVersion {
    type V = NodeVersionView;

    open spec fn view(&self) -> NodeVersionView {
        NodeVersionView { name: self.name@, version: self.version }
    }
}

/// The node-version table keeps one row per node name.
pub open spec fn distinct_names(s: Seq<NodeVersionView>) -> bool {
    forall|i: int, j: int| 0 <= i < j < s.len() ==> s[i].name != s[j].name
}

/// Whether the table has a row for this name.
pub open spec fn has_name(s: Seq<NodeVersionView>, n: Seq<char>) -> bool {
    exists|i: int| 0 <= i < s.len() && s[i].name == n
}

/// The index of the row for this name.
pub open spec fn index_of_name(s: Seq<NodeVersionView>, n: Seq<char>) -> int {
    choose|i: int| 0 <= i < s.len() && s[i].name == n
}

/// Folds one observation into the version table: a new name is appended
/// with its version; a known name keeps the highest version seen.
pub fn record_version(table: &mut Vec<NodeVersion>, name: String, version: u32)
    requires
        distinct_names(old(table)@.map_values(|e: NodeVersion| e@)),
    ensures
        ({
            let tv_old = old(table)@.map_values(|e: NodeVersion| e@);
            let tv_new = final(table)@.map_values(|e: NodeVersion| e@);
            &&& distinct_names(tv_new)
            &&& if has_name(tv_old, name@) {
                let i = index_of_name(tv_old, name@);
                tv_new == tv_old.update(
                    i,
                    NodeVersionView {
                        name: name@,
                        version: if tv_old[i].version >= version {
                            tv_old[i].version
                        } else {
                            version
                        },
                    },
                )
            } else {
                tv_new == tv_old.push(NodeVersionView { name: name@, version })
            }
        }),
{
    let ghost tv_old = table@.map_values(|e: NodeVersion| e@);
    let n: usize = table.len();
    let mut j: usize = 0;
    while j < n
        invariant
            n == table.len(),
            table@ == old(table)@,
            tv_old == old(table)@.map_values(|e: NodeVersion| e@),
            distinct_names(tv_old),
            0 <= j <= n,
            forall|q: int| 0 <= q < j ==> tv_old[q].name != name@,
        decreases n - j,
    {
        if table[j].name == name {
            assert(tv_old[j as int].name == name@);
            assert(has_name(tv_old, name@));
            proof {
                let w = index_of_name(tv_old, name@);
                assert(0 <= w < tv_old.len() && tv_old[w].name == name@);
                assert(distinct_names(tv_old));
                assert(w == j as int);
            }
            if table[j].version < version {
                table[j].version = version;
            }
            proof {
                let tv_new = table@.map_values(|e: NodeVersion| e@);
                assert(tv_new =~= tv_old.update(
                    j as int,
                    NodeVersionView {
                        name: name@,
                        version: if tv_old[j as int].version >= version {
                            tv_old[j as int].version
                        } else {
                            version
                        },
                    },
                ));
            }
            return ;
        }
        j = j + 1;
    }
    assert(!has_name(tv_old, name@));
    table.push(NodeVersion { name, version });
    proof {
        let tv_new = table@.map_values(|e: NodeVersion| e@);
        assert(tv_new =~= tv_old.push(tv_new[tv_new.len() - 1]));
    }
}

proof fn lemma_digits_value_nonneg(s: Seq<char>)
    ensures
        (forall|q: int| 0 <= q < s.len() ==> is_ascii_digit(#[trigger] s[q])) ==> digits_value(s)
            >= 0,
    decreases s.len(),
{
    if s.len() > 0 {
        lemma_digits_value_nonneg(s.drop_last());
    }
}

proof fn lemma_find_match_settled(s: Seq<char>, i: int)
    requires
        0 <= i < s.len(),
        version_match_at(s, i),
        find_match_from(s, 0) == find_match_from(s, i),
    ensures
        find_match_from(s, 0) == i,
        version_of(s) == ({
            let j = ws_end(s, i + "version:"@.len());
            let e = digits_end(s, j);
            let v = digits_value(s.subrange(j, e));
            if v <= u32::MAX as int {
                Some(v as u32)
            } else {
                None::<u32>
            }
        }),
{
    assert(find_match_from(s, i) == i);
    assert(i < s.len());
}

} // verus!
