//! Slugs: normalized, filesystem-safe derivations of workflow display names.
//!
//! A slug is obtained by lowercasing ASCII letters, replacing every character
//! that is not an ASCII letter or digit with `-`, and trimming leading and
//! trailing `-` runs.

use vstd::prelude::*;

verus! {

/// A character that survives slugging unchanged once lowercased:
/// an ASCII lowercase letter or an ASCII digit.
pub open spec fn is_slug_alnum(c: char) -> bool {
    ('a' <= c && c <= 'z') || ('0' <= c && c <= '9')
}

/// An ASCII letter or digit of either case: the characters the slug keeps.
pub open spec fn is_ascii_alnum(c: char) -> bool {
    is_slug_alnum(c) || ('A' <= c && c <= 'Z')
}

/// What one character of the input becomes in the slug body.
pub open spec fn slug_char(c: char) -> char {
    if 'A' <= c && c <= 'Z' {
        ((c as u32) + 32) as char
    } else if is_slug_alnum(c) {
        c
    } else {
        '-'
    }
}

/// The slug body: every character mapped, before trimming.
pub open spec fn slug_map(s: Seq<char>) -> Seq<char> {
    s.map_values(|c: char| slug_char(c))
}

/// Drops the leading run of `-` characters.
pub open spec fn trim_leading(s: Seq<char>) -> Seq<char>
    decreases s.len(),
{
    if s.len() == 0 {
        s
    } else if s[0] == '-' {
        trim_leading(s.drop_first())
    } else {
        s
    }
}

/// Drops the trailing run of `-` characters.
pub open spec fn trim_trailing(s: Seq<char>) -> Seq<char>
    decreases s.len(),
{
    if s.len() == 0 {
        s
    } else if s[s.len() - 1] == '-' {
        trim_trailing(s.drop_last())
    } else {
        s
    }
}

/// Drops separators from both ends.
pub open spec fn trim_seps(s: Seq<char>) -> Seq<char> {
    trim_trailing(trim_leading(s))
}

/// The slug of a name: mapped characters with separators trimmed at both ends.
pub open spec fn slug_of(s: Seq<char>) -> Seq<char> {
    trim_seps(slug_map(s))
}

fn slug_char_exec(c: char) -> (r: char)
    ensures
        r == slug_char(c),
{
    if 'A' <= c && c <= 'Z' {
        (((c as u32) + 32) as u8) as char
    } else if ('a' <= c && c <= 'z') || ('0' <= c && c <= '9') {
        c
    } else {
        '-'
    }
}

/// Relies on `String::push`: appends the given character to the end of the string.
#[verifier::external_body]
fn push_char(s: &mut String, c: char)
    ensures
        final(s)@ == old(s)@ + seq![c],
{
    s.push(c);
}

proof fn lemma_trim_leading_at(s: Seq<char>, k: int)
    requires
        0 <= k <= s.len(),
        forall|j: int| 0 <= j < k ==> s[j] == '-',
        k < s.len() ==> s[k] != '-',
    ensures
        trim_leading(s) == s.subrange(k, s.len() as int),
    decreases k,
{
    if k == 0 {
        if s.len() == 0 || s[0] != '-' {
            assert(trim_leading(s) =~= s.subrange(0, s.len() as int));
        }
    } else {
        let t = s.drop_first();
        assert(forall|j: int| 0 <= j < k - 1 ==> t[j] == '-');
        lemma_trim_leading_at(t, k - 1);
        assert(t.subrange(k - 1, t.len() as int) =~= s.subrange(k, s.len() as int));
    }
}

proof fn lemma_trim_trailing_at(s: Seq<char>, k: int)
    requires
        0 <= k <= s.len(),
        forall|j: int| k <= j < s.len() ==> s[j] == '-',
        k > 0 ==> s[k - 1] != '-',
    ensures
        trim_trailing(s) == s.subrange(0, k),
    decreases s.len() - k,
{
    if k == s.len() {
        if s.len() == 0 || s[s.len() - 1] != '-' {
            assert(trim_trailing(s) =~= s.subrange(0, s.len() as int));
        } else {
            let t = s.drop_last();
            lemma_trim_trailing_at(t, k - 1);
        }
    } else {
        let t = s.drop_last();
        lemma_trim_trailing_at(t, k);
        assert(t.subrange(0, k) =~= s.subrange(0, k));
    }
}

/// A character that can appear in a slug at all: a kept character or `-`.
pub open spec fn is_slug_output(c: char) -> bool {
    is_slug_alnum(c) || c == '-'
}

proof fn lemma_slug_map_output(s: Seq<char>)
    ensures
        forall|i: int| 0 <= i < slug_map(s).len() ==> is_slug_output(#[trigger] slug_map(s)[i]),
{
    assert forall|i: int| 0 <= i < slug_map(s).len() implies is_slug_output(
        #[trigger] slug_map(s)[i],
    ) by {
        let c = s[i];
        if 'A' <= c && c <= 'Z' {
            let l = ((c as u32) + 32) as char;
            assert('a' <= l && l <= 'z');
        }
    }
}

proof fn lemma_trim_leading_keeps(s: Seq<char>)
    ensures
        trim_leading(s).len() <= s.len(),
        forall|i: int|
            0 <= i < trim_leading(s).len() ==> #[trigger] trim_leading(s)[i] == s[i + s.len()
                - trim_leading(s).len()],
    decreases s.len(),
{
    if s.len() > 0 && s[0] == '-' {
        lemma_trim_leading_keeps(s.drop_first());
    }
}

proof fn lemma_trim_trailing_prefix(s: Seq<char>)
    ensures
        trim_trailing(s).len() <= s.len(),
        forall|i: int| 0 <= i < trim_trailing(s).len() ==> #[trigger] trim_trailing(s)[i] == s[i],
    decreases s.len(),
{
    if s.len() > 0 && s[s.len() - 1] == '-' {
        lemma_trim_trailing_prefix(s.drop_last());
    }
}

proof fn lemma_trim_trailing_last(s: Seq<char>)
    ensures
        trim_trailing(s).len() > 0 ==> trim_trailing(s)[trim_trailing(s).len() - 1] != '-',
    decreases s.len(),
{
    if s.len() > 0 && s[s.len() - 1] == '-' {
        lemma_trim_trailing_last(s.drop_last());
    }
}

proof fn lemma_trim_leading_head(s: Seq<char>)
    ensures
        trim_leading(s).len() > 0 ==> trim_leading(s)[0] != '-',
    decreases s.len(),
{
    if s.len() > 0 && s[0] == '-' {
        lemma_trim_leading_head(s.drop_first());
    }
}

/// Law: a slug never begins or ends with a separator character.
pub proof fn lemma_slug_no_edge_separators(s: Seq<char>)
    ensures
        slug_of(s).len() > 0 ==> slug_of(s)[0] != '-',
        slug_of(s).len() > 0 ==> slug_of(s)[slug_of(s).len() - 1] != '-',
{
    let m = slug_map(s);
    let t = trim_leading(m);
    lemma_trim_leading_head(m);
    lemma_trim_trailing_prefix(t);
    lemma_trim_trailing_last(t);
}

/// Law: a name containing no ASCII letter or digit slugs to the empty string.
pub proof fn lemma_slug_of_all_separators_is_empty(s: Seq<char>)
    requires
        forall|i: int| 0 <= i < s.len() ==> !is_ascii_alnum(#[trigger] s[i]),
    ensures
        slug_of(s) == Seq::<char>::empty(),
{
    let m = slug_map(s);
    assert(forall|j: int| 0 <= j < m.len() ==> m[j] == '-');
    lemma_trim_leading_at(m, m.len() as int);
    assert(m.subrange(m.len() as int, m.len() as int) =~= Seq::<char>::empty());
    assert(trim_trailing(Seq::<char>::empty()) =~= Seq::<char>::empty());
}

proof fn lemma_trim_noop(s: Seq<char>)
    requires
        s.len() > 0 ==> s[0] != '-',
        s.len() > 0 ==> s[s.len() - 1] != '-',
    ensures
        trim_seps(s) == s,
{
}

proof fn lemma_slug_map_fixed(s: Seq<char>)
    requires
        forall|i: int| 0 <= i < s.len() ==> is_slug_output(#[trigger] s[i]),
    ensures
        slug_map(s) == s,
{
    assert forall|i: int| 0 <= i < s.len() implies #[trigger] slug_map(s)[i] == s[i] by {
        let c = s[i];
        assert(!('A' <= c && c <= 'Z'));
    }
    assert(slug_map(s) =~= s);
}

/// Law: slugging is idempotent; a slug slugs to itself.
pub proof fn lemma_slug_idempotent(s: Seq<char>)
    ensures
        slug_of(slug_of(s)) == slug_of(s),
{
    let m = slug_map(s);
    let t = trim_leading(m);
    let r = slug_of(s);
    lemma_slug_map_output(s);
    lemma_trim_leading_keeps(m);
    lemma_trim_trailing_prefix(t);
    assert(forall|i: int| 0 <= i < r.len() ==> is_slug_output(#[trigger] r[i]));
    lemma_slug_map_fixed(r);
    lemma_slug_no_edge_separators(s);
    lemma_trim_noop(r);
}

/// Converts a workflow display name into a filesystem-friendly slug.
pub fn slugify(name: &str) -> (r: String)
    ensures
        r@ == slug_of(name@),
{
    let n: usize = name.unicode_len();
    let mut mapped: Vec<char> = Vec::new();
    let mut i: usize = 0;
    while i < n
        invariant
            n == name@.len(),
            0 <= i <= n,
            mapped@ == slug_map(name@).subrange(0, i as int),
        decreases n - i,
    {
        let c = slug_char_exec(name.get_char(i));
        mapped.push(c);
        proof {
            assert(mapped@ =~= slug_map(name@).subrange(0, i + 1));
        }
        i = i + 1;
    }
    proof {
        assert(mapped@ =~= slug_map(name@));
    }

    let len: usize = mapped.len();
    let mut start: usize = 0;
    while start < len && mapped[start] == '-'
        invariant
            len == mapped@.len(),
            0 <= start <= len,
            forall|j: int| 0 <= j < start ==> mapped@[j] == '-',
        decreases len - start,
    {
        start = start + 1;
    }
    proof {
        lemma_trim_leading_at(mapped@, start as int);
    }

    let mut end: usize = len;
    while end > start && mapped[end - 1] == '-'
        invariant
            len == mapped@.len(),
            start <= end <= len,
            start < len ==> mapped@[start as int] != '-',
            forall|j: int| end <= j < len ==> mapped@[j] == '-',
        decreases end,
    {
        end = end - 1;
    }

    proof {
        let lead = mapped@.subrange(start as int, len as int);
        let k = end - start;
        assert(forall|j: int| k <= j < lead.len() ==> lead[j] == '-');
        assert(k > 0 ==> lead[k - 1] != '-');
        lemma_trim_trailing_at(lead, k as int);
        assert(trim_seps(mapped@) == lead.subrange(0, k as int));
        assert(lead.subrange(0, k as int) =~= mapped@.subrange(start as int, end as int));
    }

    let mut r = String::new();
    let mut j: usize = start;
    while j < end
        invariant
            start <= j <= end <= len,
            len == mapped@.len(),
            r@ == mapped@.subrange(start as int, j as int),
        decreases end - j,
    {
        push_char(&mut r, mapped[j]);
        proof {
            assert(r@ =~= mapped@.subrange(start as int, j + 1));
        }
        j = j + 1;
    }
    proof {
        assert(r@ =~= mapped@.subrange(start as int, end as int));
    }
    r
}

} // verus!
