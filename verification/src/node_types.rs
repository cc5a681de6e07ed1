//! The node types offered when a node is created: each under its type
//! path, shown by a short name, listed in path order and filtered by a
//! search text.
use vstd::prelude::*;
use crate::text_order::{is_text_sort_of, sort_by_text, text_le, TextKeyed};
use crate::registry::RegistryKey;
use vstd::string::StringExecFns;
use vstd::utf8::encode_utf8;

verus! {

// ------------------------------------------------------------- node types

/// A node type: its id, its full type path, and the short name it is shown
/// by.
#[derive(Debug)]
pub struct TypeInfo<T> {
    pub id: T,
    pub path: String,
    pub short: String,
}

impl<T> TextKeyed for TypeInfo<T> {
    open spec fn key_text(&self) -> Seq<char> {
        self.path@
    }

    fn key(&self) -> (k: &String) {
        &self.path
    }
}

// ------------------------------------------------------------- searching

/// What `char::is_uppercase` says of `c`: whether it has the Unicode
/// property `Uppercase`.
pub uninterp spec fn char_uppercase(c: char) -> bool;

/// What `str::to_lowercase` gives for `s`: its Unicode lowercase mapping.
pub uninterp spec fn lowercase(s: Seq<char>) -> Seq<char>;

/// Calls `char::is_uppercase`; the result is claimed to be
/// [`char_uppercase`] of `c`, a function of `c` alone.
#[verifier::external_body]
fn is_uppercase(c: char) -> (b: bool)
    ensures
        b == char_uppercase(c),
{
    c.is_uppercase()
}

/// Calls `str::to_lowercase`; the result is claimed to be [`lowercase`] of
/// `s`, a function of `s` alone.
#[verifier::external_body]
fn to_lowercase(s: &str) -> (r: String)
    ensures
        r@ == lowercase(s@),
{
    s.to_lowercase()
}

/// `q` occurs in `s`.
pub open spec fn contains_text(s: Seq<char>, q: Seq<char>) -> bool {
    exists|i: int| 0 <= i && i + q.len() <= s.len() && #[trigger] s.subrange(i, i + q.len()) == q
}

/// Some character of `q` is uppercase.
pub open spec fn has_uppercase(q: Seq<char>) -> bool {
    exists|k: int| 0 <= k < q.len() && char_uppercase(#[trigger] q[k])
}

/// A type path matches a search text when the text is empty or occurs in
/// the path; a text without uppercase letters is looked for in the
/// lowercased path.
pub open spec fn type_search_matches(path: Seq<char>, query: Seq<char>) -> bool {
    if query.len() == 0 {
        true
    } else if has_uppercase(query) {
        contains_text(path, query)
    } else {
        contains_text(lowercase(path), query)
    }
}

/// Whether `q` occurs in `s`.
pub fn text_contains(s: &str, q: &str) -> (b: bool)
    ensures
        b == contains_text(s@, q@),
{
    let n = s.unicode_len();
    let m = q.unicode_len();
    if m > n {
        return false;
    }
    let mut i: usize = 0;
    while i <= n - m
        invariant
            n == s@.len(),
            m == q@.len(),
            m <= n,
            i <= n - m + 1,
            forall|k: int| 0 <= k < i ==> #[trigger] s@.subrange(k, k + m) != q@,
        decreases n - m + 1 - i,
    {
        let mut j: usize = 0;
        while j < m && s.get_char(i + j) == q.get_char(j)
            invariant
                n == s@.len(),
                m == q@.len(),
                i + m <= n,
                j <= m,
                forall|t: int| 0 <= t < j ==> s@[i + t] == q@[t],
            decreases m - j,
        {
            j = j + 1;
        }
        if j == m {
            proof {
                assert(s@.subrange(i as int, i + m) =~= q@);
            }
            return true;
        }
        proof {
            assert(s@.subrange(i as int, i + m)[j as int] != q@[j as int]);
        }
        i = i + 1;
    }
    proof {
        assert forall|k: int| 0 <= k && k + q@.len() <= s@.len() implies #[trigger] s@.subrange(k, k + q@.len()) != q@ by {
            assert(k < i);
        }
    }
    false
}

fn any_uppercase(q: &str) -> (b: bool)
    ensures
        b == has_uppercase(q@),
{
    let m = q.unicode_len();
    let mut j: usize = 0;
    while j < m
        invariant
            m == q@.len(),
            j <= m,
            forall|k: int| 0 <= k < j ==> !char_uppercase(#[trigger] q@[k]),
        decreases m - j,
    {
        if is_uppercase(q.get_char(j)) {
            return true;
        }
        j = j + 1;
    }
    false
}

/// Whether the type path `path` matches the search text `query`.
pub fn matches_type_search(path: &String, query: &String) -> (b: bool)
    ensures
        b == type_search_matches(path@, query@),
{
    if query.as_str().is_empty() {
        true
    } else if any_uppercase(query.as_str()) {
        text_contains(path.as_str(), query.as_str())
    } else {
        let lower = to_lowercase(path.as_str());
        text_contains(lower.as_str(), query.as_str())
    }
}

/// The types among `types` whose path matches `query`, in order.
pub open spec fn matching_types<T>(types: Seq<TypeInfo<T>>, query: Seq<char>) -> Seq<TypeInfo<T>>
    decreases types.len(),
{
    if types.len() == 0 {
        types
    } else if type_search_matches(types.last().path@, query) {
        matching_types(types.drop_last(), query).push(types.last())
    } else {
        matching_types(types.drop_last(), query)
    }
}

/// A type is listed exactly when it is among the types and the search text
/// occurs in its full type path: every type for an empty text, the path as
/// it is for a text with an uppercase letter, and the lowercased path for
/// one without.
pub proof fn law_listed_when_path_holds_query<T>(types: Seq<TypeInfo<T>>, query: Seq<char>, t: TypeInfo<T>)
    ensures
        matching_types(types, query).contains(t) <==> types.contains(t) && (query.len() == 0 || (has_uppercase(query)
            && contains_text(t.path@, query)) || (!has_uppercase(query) && contains_text(lowercase(t.path@), query))),
    decreases types.len(),
{
    if types.len() > 0 {
        let rest = types.drop_last();
        let last = types.last();
        law_listed_when_path_holds_query(rest, query, t);
        let m = matching_types(rest, query);
        assert(types =~= rest.push(last));
        if types.contains(t) && t != last {
            let k = choose|k: int| 0 <= k < types.len() && types[k] == t;
            assert(k < rest.len());
            assert(rest[k] == t);
        }
        if rest.contains(t) {
            let k = choose|k: int| 0 <= k < rest.len() && rest[k] == t;
            assert(types[k] == t);
        }
        if type_search_matches(last.path@, query) {
            assert(matching_types(types, query) == m.push(last));
            if m.push(last).contains(t) && t != last {
                let k = choose|k: int| 0 <= k < m.push(last).len() && m.push(last)[k] == t;
                assert(m[k] == t);
            }
            if m.contains(t) {
                let k = choose|k: int| 0 <= k < m.len() && m[k] == t;
                assert(m.push(last)[k] == t);
            }
            assert(m.push(last)[m.len() as int] == last);
        }
        assert(types[types.len() - 1] == last);
    }
}

/// An empty search text lists every type.
pub proof fn law_empty_search_lists_all<T>(types: Seq<TypeInfo<T>>)
    ensures
        matching_types(types, Seq::empty()) == types,
    decreases types.len(),
{
    if types.len() > 0 {
        law_empty_search_lists_all(types.drop_last());
        assert(types.drop_last().push(types.last()) =~= types);
    }
}

/// The types that the node creator lists for the search text `query`: those
/// whose path matches it, ordered by path.
pub fn search_node_types<T>(types: Vec<TypeInfo<T>>, query: &String) -> (r: Vec<TypeInfo<T>>)
    ensures
        exists|src: Seq<int>| #[trigger] is_text_sort_of(r@, matching_types(types@, query@), src),
        forall|a: int| 0 <= a < r@.len() ==> types@.contains(#[trigger] r@[a]) && type_search_matches(r@[a].path@, query@),
{
    let n = types.len();
    let mut rest = types;
    let ghost input = rest@;
    let mut kept: Vec<TypeInfo<T>> = Vec::new();
    let mut i: usize = 0;
    while i < n
        invariant
            n == input.len(),
            i <= n,
            rest@ == input.subrange(i as int, n as int),
            kept@ == matching_types(input.take(i as int), query@),
        decreases n - i,
    {
        let item = rest.remove(0);
        proof {
            assert(rest@ =~= input.subrange(i + 1, n as int));
            assert(input.take(i + 1).drop_last() =~= input.take(i as int));
            assert(input.take(i + 1).last() == item);
        }
        if matches_type_search(&item.path, query) {
            kept.push(item);
        }
        i = i + 1;
    }
    proof {
        assert(input.take(n as int) =~= input);
    }
    let r = sort_by_text(kept);
    proof {
        let m = matching_types(input, query@);
        let src = choose|src: Seq<int>| #[trigger] is_text_sort_of(r@, m, src);
        assert forall|a: int| 0 <= a < r@.len() implies input.contains(#[trigger] r@[a]) && type_search_matches(r@[a].path@, query@) by {
            assert(r@[a] == m[src[a]]);
            assert(m.contains(r@[a]));
            law_listed_when_path_holds_query(input, query@, r@[a]);
        }
    }
    r
}

// ------------------------------------------------------------- short names

/// Where the last segment of `s` starts when `s` is cut at each `::`
/// found scanning from the left, from position `i` on, the segment being
/// read having started at `start`.
pub open spec fn last_segment_start(s: Seq<char>, i: int, start: int) -> int
    decreases s.len() - i,
{
    if i < 0 || i + 1 >= s.len() {
        start
    } else if s[i] == ':' && s[i + 1] == ':' {
        last_segment_start(s, i + 2, i + 2)
    } else {
        last_segment_start(s, i + 1, start)
    }
}

/// The last segment of a type path cut at each `::`: its name without
/// the modules.
pub open spec fn last_segment(s: Seq<char>) -> Seq<char> {
    s.skip(last_segment_start(s, 0, 0))
}

/// A node type with its path, shown by the last segment of the path.
pub fn node_type_info<T>(id: T, path: String) -> (t: TypeInfo<T>)
    ensures
        t.id == id,
        t.path@ == path@,
        t.short@ == last_segment(path@),
{
    let n = path.as_str().unicode_len();
    let mut i: usize = 0;
    let mut start: usize = 0;
    while i < n && n - i > 1
        invariant
            n == path@.len(),
            start <= n,
            i <= n,
            last_segment_start(path@, 0, 0) == last_segment_start(path@, i as int, start as int),
        decreases n - i,
    {
        if path.as_str().get_char(i) == ':' && path.as_str().get_char(i + 1) == ':' {
            i = i + 2;
            start = i;
        } else {
            i = i + 1;
        }
    }
    let short = path.as_str().substring_char(start, n).to_owned();
    proof {
        assert(short@ =~= path@.skip(start as int));
    }
    TypeInfo { id, path, short }
}


// ------------------------------------------------------------- unique names

/// Where the separators `::` of `s` start, found scanning from position `j`
/// leftwards: the segments of a type path, read from the right, end there.
pub open spec fn rsep_positions(s: Seq<char>, j: int) -> Seq<int>
    decreases j,
{
    if j < 2 || j > s.len() {
        Seq::empty()
    } else if s[j - 2] == ':' && s[j - 1] == ':' {
        seq![j - 2] + rsep_positions(s, j - 2)
    } else {
        rsep_positions(s, j - 1)
    }
}

/// The separators of `s`, from the right.
pub open spec fn separators(s: Seq<char>) -> Seq<int> {
    rsep_positions(s, s.len() as int)
}

/// The number of segments of the type path `s`.
pub open spec fn segment_count(s: Seq<char>) -> nat {
    separators(s).len() + 1
}

/// The last `k` segments of the type path `s`, joined by `::`.
pub open spec fn segment_suffix(s: Seq<char>, k: int) -> Seq<char> {
    if k - 1 < separators(s).len() {
        s.skip(separators(s)[k - 1] + 2)
    } else {
        s
    }
}

/// No other path among `paths` ends in the same last `k` segments as
/// path `p`.
pub open spec fn unique_suffix(paths: Seq<Seq<char>>, p: int, k: int) -> bool {
    forall|q: int| 0 <= q < paths.len() && q != p && k <= segment_count(paths[q]) ==> #[trigger] segment_suffix(paths[q], k) != segment_suffix(paths[p], k)
}

/// The shortest of the last `k`, `k + 1`, ... segments of path `p` that
/// no other path ends in; empty where there is none.
pub open spec fn shortest_unique_from(paths: Seq<Seq<char>>, p: int, k: int) -> Seq<char>
    decreases segment_count(paths[p]) + 1 - k,
{
    if k < 1 || k > segment_count(paths[p]) {
        Seq::empty()
    } else if unique_suffix(paths, p, k) {
        segment_suffix(paths[p], k)
    } else {
        shortest_unique_from(paths, p, k + 1)
    }
}

/// The short name of path `p` among `paths`: its shortest run of last
/// segments that no other path ends in.
pub open spec fn short_name(paths: Seq<Seq<char>>, p: int) -> Seq<char> {
    shortest_unique_from(paths, p, 1)
}

/// The paths by their text.
pub open spec fn path_texts(paths: Seq<String>) -> Seq<Seq<char>> {
    paths.map_values(|s: String| s@)
}

fn separator_list(s: &String) -> (r: Vec<usize>)
    ensures
        r@.len() == separators(s@).len(),
        r@.len() * 2 <= usize::MAX,
        forall|i: int| 0 <= i < r@.len() ==> #[trigger] r@[i] as int == separators(s@)[i],
{
    let n = s.as_str().unicode_len();
    let mut r: Vec<usize> = Vec::new();
    let mut j: usize = n;
    let ghost mut found: Seq<int> = Seq::empty();
    while j >= 2
        invariant
            n == s@.len(),
            j <= n,
            r@.len() == found.len(),
            forall|i: int| 0 <= i < r@.len() ==> #[trigger] r@[i] as int == found[i],
            separators(s@) == found + rsep_positions(s@, j as int),
        decreases j,
    {
        if s.as_str().get_char(j - 2) == ':' && s.as_str().get_char(j - 1) == ':' {
            proof {
                assert(found + rsep_positions(s@, j as int) =~= found.push(j - 2) + rsep_positions(s@, j - 2));
                found = found.push(j - 2);
            }
            r.push(j - 2);
            j = j - 2;
        } else {
            j = j - 1;
        }
    }
    proof {
        assert(found + rsep_positions(s@, j as int) =~= found);
        lemma_separator_count(s@, n as int);
    }
    r
}

proof fn lemma_separator_count(s: Seq<char>, j: int)
    requires
        0 <= j,
    ensures
        rsep_positions(s, j).len() * 2 <= j,
    decreases j,
{
    if j < 2 || j > s.len() {
    } else if s[j - 2] == ':' && s[j - 1] == ':' {
        lemma_separator_count(s, j - 2);
    } else {
        lemma_separator_count(s, j - 1);
    }
}

fn suffix_of(s: &String, seps: &Vec<usize>, k: usize) -> (r: String)
    requires
        1 <= k <= segment_count(s@),
        seps@.len() == separators(s@).len(),
        forall|i: int| 0 <= i < seps@.len() ==> #[trigger] seps@[i] as int == separators(s@)[i],
    ensures
        r@ == segment_suffix(s@, k as int),
{
    if k - 1 < seps.len() {
        let n = s.as_str().unicode_len();
        proof {
            lemma_separator_bounds(s@, s@.len() as int, k - 1);
        }
        let from = seps[k - 1] + 2;
        s.as_str().substring_char(from, n).to_owned()
    } else {
        s.clone()
    }
}

proof fn lemma_separator_bounds(s: Seq<char>, j: int, i: int)
    requires
        j <= s.len(),
        0 <= i < rsep_positions(s, j).len(),
    ensures
        0 <= rsep_positions(s, j)[i],
        rsep_positions(s, j)[i] + 2 <= j,
    decreases j,
{
    if j < 2 || j > s.len() {
    } else if s[j - 2] == ':' && s[j - 1] == ':' {
        if i > 0 {
            lemma_separator_bounds(s, j - 2, i - 1);
        }
    } else {
        lemma_separator_bounds(s, j - 1, i);
    }
}

/// The short name of each of `paths`: its shortest run of last segments,
/// joined by `::`, that no other path ends in; an empty name for a path
/// that some other path equals.
pub fn unique_short_names(paths: &Vec<String>) -> (r: Vec<String>)
    ensures
        r@.len() == paths@.len(),
        forall|p: int| 0 <= p < paths@.len() ==> (#[trigger] r@[p])@ == short_name(path_texts(paths@), p),
{
    let ghost texts = path_texts(paths@);
    let n = paths.len();
    let mut seps: Vec<Vec<usize>> = Vec::new();
    let mut i: usize = 0;
    while i < n
        invariant
            n == paths@.len(),
            i <= n,
            seps@.len() == i,
            forall|q: int| 0 <= q < i ==> (#[trigger] seps@[q])@.len() == separators(paths@[q]@).len() && seps@[q]@.len() * 2 <= usize::MAX && forall|t: int| 0 <= t < seps@[q]@.len() ==> #[trigger] seps@[q]@[t] as int == separators(paths@[q]@)[t],
        decreases n - i,
    {
        seps.push(separator_list(&paths[i]));
        i = i + 1;
    }
    let mut names: Vec<String> = Vec::new();
    let mut p: usize = 0;
    while p < n
        invariant
            n == paths@.len(),
            texts == path_texts(paths@),
            seps@.len() == n,
            forall|q: int| 0 <= q < n ==> (#[trigger] seps@[q])@.len() == separators(paths@[q]@).len() && seps@[q]@.len() * 2 <= usize::MAX && forall|t: int| 0 <= t < seps@[q]@.len() ==> #[trigger] seps@[q]@[t] as int == separators(paths@[q]@)[t],
            p <= n,
            names@.len() == p,
            forall|q: int| 0 <= q < p ==> (#[trigger] names@[q])@ == short_name(texts, q),
        decreases n - p,
    {
        assert(texts[p as int] == paths@[p as int]@);
        let count = seps[p].len() + 1;
        let mut name = String::new();
        let mut k: usize = 1;
        proof {
            assert(name@ =~= Seq::<char>::empty());
        }
        while k <= count
            invariant_except_break
                1 <= k <= count + 1,
                short_name(texts, p as int) == shortest_unique_from(texts, p as int, k as int),
                name@ == Seq::<char>::empty(),
            invariant
                n == paths@.len(),
                texts == path_texts(paths@),
                texts[p as int] == paths@[p as int]@,
                p < n,
                seps@.len() == n,
                forall|q: int| 0 <= q < n ==> (#[trigger] seps@[q])@.len() == separators(paths@[q]@).len() && seps@[q]@.len() * 2 <= usize::MAX && forall|t: int| 0 <= t < seps@[q]@.len() ==> #[trigger] seps@[q]@[t] as int == separators(paths@[q]@)[t],
                count == segment_count(paths@[p as int]@),
                count * 2 <= usize::MAX + 2,
            ensures
                name@ == short_name(texts, p as int),
            decreases count + 1 - k,
        {
            let mine = suffix_of(&paths[p], &seps[p], k);
            let mut unique = true;
            let mut q: usize = 0;
            while q < n
                invariant
                    n == paths@.len(),
                    texts == path_texts(paths@),
                    texts[p as int] == paths@[p as int]@,
                    p < n,
                    seps@.len() == n,
                    forall|x: int| 0 <= x < n ==> (#[trigger] seps@[x])@.len() == separators(paths@[x]@).len() && seps@[x]@.len() * 2 <= usize::MAX && forall|t: int| 0 <= t < seps@[x]@.len() ==> #[trigger] seps@[x]@[t] as int == separators(paths@[x]@)[t],
                    1 <= k <= count,
                    mine@ == segment_suffix(paths@[p as int]@, k as int),
                    q <= n,
                    unique == forall|x: int| 0 <= x < q && x != p && k <= segment_count(texts[x]) ==> #[trigger] segment_suffix(texts[x], k as int) != segment_suffix(texts[p as int], k as int),
                decreases n - q,
            {
                assert(texts[q as int] == paths@[q as int]@);
                if q != p && k <= seps[q].len() + 1 {
                    let theirs = suffix_of(&paths[q], &seps[q], k);
                    if theirs == mine {
                        unique = false;
                    }
                }
                q = q + 1;
            }
            if unique {
                name = mine;
                proof {
                    assert(unique_suffix(texts, p as int, k as int));
                }
                break;
            }
            k = k + 1;
        }
        names.push(name);
        p = p + 1;
    }
    names
}


/// The positions among `r` from `m` on, each moved down by `m`.
pub open spec fn shifted_from(r: Seq<int>, m: int) -> Seq<int>
    decreases r.len(),
{
    if r.len() == 0 {
        r
    } else if r[0] >= m {
        seq![r[0] - m] + shifted_from(r.drop_first(), m)
    } else {
        shifted_from(r.drop_first(), m)
    }
}

proof fn lemma_shifted_from_below(r: Seq<int>, m: int)
    requires
        forall|i: int| 0 <= i < r.len() ==> #[trigger] r[i] < m,
    ensures
        shifted_from(r, m).len() == 0,
    decreases r.len(),
{
    if r.len() > 0 {
        assert forall|i: int| 0 <= i < r.drop_first().len() implies #[trigger] r.drop_first()[i] < m by {
            assert(r.drop_first()[i] == r[i + 1]);
        }
        lemma_shifted_from_below(r.drop_first(), m);
    }
}

proof fn lemma_separators_spaced(s: Seq<char>, j: int)
    requires
        j <= s.len(),
    ensures
        forall|a: int, b: int| 0 <= a < b < rsep_positions(s, j).len() ==> #[trigger] rsep_positions(s, j)[a] >= #[trigger] rsep_positions(s, j)[b] + 2,
    decreases j,
{
    if j < 2 || j > s.len() {
    } else if s[j - 2] == ':' && s[j - 1] == ':' {
        lemma_separators_spaced(s, j - 2);
        let rest = rsep_positions(s, j - 2);
        let r = rsep_positions(s, j);
        assert(r == seq![j - 2] + rest);
        assert forall|a: int, b: int| 0 <= a < b < r.len() implies #[trigger] r[a] >= #[trigger] r[b] + 2 by {
            if a == 0 {
                lemma_separator_bounds(s, j - 2, b - 1);
                assert(r[b] == rest[b - 1]);
            } else {
                assert(r[a] == rest[a - 1]);
                assert(r[b] == rest[b - 1]);
            }
        }
    } else {
        lemma_separators_spaced(s, j - 1);
        assert(rsep_positions(s, j) == rsep_positions(s, j - 1));
    }
}

/// The separators of a tail of `s` are those of `s` within the tail.
proof fn lemma_separators_of_tail(s: Seq<char>, j: int, m: int)
    requires
        0 <= m <= j <= s.len(),
    ensures
        rsep_positions(s.skip(m), j - m) == shifted_from(rsep_positions(s, j), m),
    decreases j,
{
    let t = s.skip(m);
    if j < 2 {
    } else if j - m < 2 {
        assert forall|i: int| 0 <= i < rsep_positions(s, j).len() implies #[trigger] rsep_positions(s, j)[i] < m by {
            lemma_separator_bounds(s, j, i);
        }
        lemma_shifted_from_below(rsep_positions(s, j), m);
    } else {
        assert(t[j - m - 2] == s[j - 2]);
        assert(t[j - m - 1] == s[j - 1]);
        if s[j - 2] == ':' && s[j - 1] == ':' {
            lemma_separators_of_tail(s, j - 2, m);
            let r = rsep_positions(s, j);
            assert(r[0] == j - 2);
            assert(r.drop_first() =~= rsep_positions(s, j - 2));
            assert(rsep_positions(t, j - m) =~= seq![j - 2 - m] + rsep_positions(t, j - m - 2));
        } else {
            lemma_separators_of_tail(s, j - 1, m);
        }
    }
}

proof fn lemma_shifted_count(r: Seq<int>, i: int)
    requires
        0 <= i < r.len(),
        forall|a: int, b: int| 0 <= a < b < r.len() ==> #[trigger] r[a] >= #[trigger] r[b] + 2,
    ensures
        shifted_from(r, r[i] + 2).len() == i,
    decreases i,
{
    let m = r[i] + 2;
    let d = r.drop_first();
    assert forall|a: int, b: int| 0 <= a < b < d.len() implies #[trigger] d[a] >= #[trigger] d[b] + 2 by {
        assert(d[a] == r[a + 1]);
        assert(d[b] == r[b + 1]);
    }
    if i == 0 {
        assert forall|k: int| 0 <= k < r.len() implies #[trigger] r[k] < m by {
            if k > 0 {
                assert(r[0] >= r[k] + 2);
            }
        }
        lemma_shifted_from_below(r, m);
    } else {
        assert(r[0] >= r[i] + 2);
        assert(d[i - 1] == r[i]);
        lemma_shifted_count(d, i - 1);
    }
}

/// A run of last segments of a path has that many segments.
proof fn lemma_suffix_segment_count(s: Seq<char>, k: int)
    requires
        1 <= k <= segment_count(s),
    ensures
        segment_count(segment_suffix(s, k)) == k,
{
    let r = separators(s);
    if k - 1 < r.len() {
        lemma_separator_bounds(s, s.len() as int, k - 1);
        let m = r[k - 1] + 2;
        lemma_separators_of_tail(s, s.len() as int, m);
        lemma_separators_spaced(s, s.len() as int);
        lemma_shifted_count(r, k - 1);
        assert(s.skip(m).len() == s.len() - m);
    }
}

proof fn lemma_found_short_name(paths: Seq<Seq<char>>, p: int, k: int)
    requires
        0 <= p < paths.len(),
        shortest_unique_from(paths, p, k).len() > 0,
    ensures
        exists|j: int| #![trigger segment_suffix(paths[p], j)]
            1 <= j <= segment_count(paths[p]) && unique_suffix(paths, p, j) && shortest_unique_from(paths, p, k) == segment_suffix(paths[p], j),
    decreases segment_count(paths[p]) + 1 - k,
{
    if k < 1 || k > segment_count(paths[p]) {
    } else if unique_suffix(paths, p, k) {
        assert(segment_suffix(paths[p], k) == shortest_unique_from(paths, p, k));
    } else {
        lemma_found_short_name(paths, p, k + 1);
    }
}

/// Short names tell types apart: two types that both got a short name got
/// different ones.
pub proof fn law_short_names_tell_types_apart(paths: Seq<Seq<char>>, p: int, q: int)
    requires
        0 <= p < paths.len(),
        0 <= q < paths.len(),
        p != q,
        short_name(paths, p).len() > 0,
        short_name(paths, q).len() > 0,
    ensures
        short_name(paths, p) != short_name(paths, q),
{
    lemma_found_short_name(paths, p, 1);
    lemma_found_short_name(paths, q, 1);
    let kp = choose|j: int| #![trigger segment_suffix(paths[p], j)]
        1 <= j <= segment_count(paths[p]) && unique_suffix(paths, p, j) && short_name(paths, p) == segment_suffix(paths[p], j);
    let kq = choose|j: int| #![trigger segment_suffix(paths[q], j)]
        1 <= j <= segment_count(paths[q]) && unique_suffix(paths, q, j) && short_name(paths, q) == segment_suffix(paths[q], j);
    if short_name(paths, p) == short_name(paths, q) {
        lemma_suffix_segment_count(paths[p], kp);
        lemma_suffix_segment_count(paths[q], kq);
        assert(kp == kq);
        assert(segment_suffix(paths[q], kp) != segment_suffix(paths[p], kp));
    }
}

// ------------------------------------------------------------- the list

/// The paths of `types`, by their text.
pub open spec fn type_paths<T>(types: Seq<(T, String)>) -> Seq<Seq<char>> {
    types.map_values(|e: (T, String)| e.1@)
}

/// `out` lists the node types `types` ordered by path, each under its
/// short name among all of them; `src` tells for each position of `out`
/// the position of `types` it came from.
pub open spec fn is_type_list_of<T>(out: Seq<TypeInfo<T>>, types: Seq<(T, String)>, src: Seq<int>) -> bool {
    &&& out.len() == types.len()
    &&& src.len() == out.len()
    &&& forall|a: int| 0 <= a < out.len() ==> 0 <= #[trigger] src[a] < types.len()
    &&& forall|a: int, b: int| 0 <= a < b < out.len() ==> #[trigger] src[a] != #[trigger] src[b]
    &&& forall|a: int| 0 <= a < out.len() ==> {
        &&& (#[trigger] out[a]).id == types[src[a]].0
        &&& out[a].path@ == types[src[a]].1@
        &&& out[a].short@ == short_name(type_paths(types), src[a])
    }
    &&& forall|a: int, b: int| 0 <= a < b < out.len() ==> text_le((#[trigger] out[a]).path@, (#[trigger] out[b]).path@)
}

/// The node types that the node creator offers: each of `types` (an id and
/// a type path) under its short name, ordered by path.
pub fn type_choices<T>(types: Vec<(T, String)>) -> (r: Vec<TypeInfo<T>>)
    ensures
        exists|src: Seq<int>| #[trigger] is_type_list_of(r@, types@, src),
{
    let n = types.len();
    let mut paths: Vec<String> = Vec::new();
    let mut i: usize = 0;
    while i < n
        invariant
            n == types@.len(),
            i <= n,
            paths@.len() == i,
            forall|k: int| 0 <= k < i ==> (#[trigger] paths@[k])@ == types@[k].1@,
        decreases n - i,
    {
        paths.push(types[i].1.clone());
        i = i + 1;
    }
    proof {
        assert(path_texts(paths@) =~= type_paths(types@));
    }
    let names = unique_short_names(&paths);
    let ghost input = types@;
    let mut rest = types;
    let mut infos: Vec<TypeInfo<T>> = Vec::new();
    let mut j: usize = 0;
    while j < n
        invariant
            n == input.len(),
            names@.len() == n,
            forall|p: int| 0 <= p < n ==> (#[trigger] names@[p])@ == short_name(type_paths(input), p),
            j <= n,
            rest@ == input.subrange(j as int, n as int),
            infos@.len() == j,
            forall|k: int| 0 <= k < j ==> {
                &&& (#[trigger] infos@[k]).id == input[k].0
                &&& infos@[k].path == input[k].1
                &&& infos@[k].short@ == short_name(type_paths(input), k)
            },
        decreases n - j,
    {
        let (id, path) = rest.remove(0);
        proof {
            assert(rest@ =~= input.subrange(j + 1, n as int));
        }
        infos.push(TypeInfo { id, path, short: names[j].clone() });
        j = j + 1;
    }
    let ghost mid = infos@;
    let out = sort_by_text(infos);
    proof {
        let src = choose|src: Seq<int>| #[trigger] is_text_sort_of(out@, mid, src);
        assert(is_type_list_of(out@, input, src));
    }
    out
}

/// The short name of the first of `types` with id `id`.
pub open spec fn short_of<T: View>(types: Seq<TypeInfo<T>>, id: T::V) -> Option<Seq<char>>
    decreases types.len(),
{
    if types.len() == 0 {
        None
    } else if types[0].id@ == id {
        Some(types[0].short@)
    } else {
        short_of(types.drop_first(), id)
    }
}

/// The text the node creator shows for the chosen type `current`: its
/// short name, or `(?)` where it is not among `types`.
pub fn selected_type_label<T: RegistryKey>(types: &Vec<TypeInfo<T>>, current: &T) -> (r: String)
    ensures
        r@ == match short_of(types@, current@) {
            Some(name) => name,
            None => "(?)"@,
        },
{
    let mut i: usize = 0;
    proof {
        assert(types@.skip(0) =~= types@);
    }
    while i < types.len()
        invariant
            i <= types@.len(),
            short_of(types@, current@) == short_of(types@.skip(i as int), current@),
        decreases types@.len() - i,
    {
        proof {
            assert(types@.skip(i as int).drop_first() =~= types@.skip(i + 1));
        }
        if types[i].id.same_key(current) {
            return types[i].short.clone();
        }
        i = i + 1;
    }
    "(?)".to_owned()
}

/// The length of `s` in bytes, as `str::len` gives it.
pub open spec fn byte_len(s: Seq<char>) -> usize {
    encode_utf8(s).len() as usize
}

/// The longest short name among `types`, in bytes; zero for no types.
pub fn longest_short_name<T>(types: &Vec<TypeInfo<T>>) -> (w: usize)
    ensures
        forall|k: int| 0 <= k < types@.len() ==> byte_len((#[trigger] types@[k]).short@) <= w,
        types@.len() == 0 ==> w == 0,
        types@.len() > 0 ==> exists|k: int| 0 <= k < types@.len() && byte_len((#[trigger] types@[k]).short@) == w,
{
    let mut w: usize = 0;
    let mut i: usize = 0;
    while i < types.len()
        invariant
            i <= types@.len(),
            forall|k: int| 0 <= k < i ==> byte_len((#[trigger] types@[k]).short@) <= w,
            i == 0 ==> w == 0,
            i > 0 ==> exists|k: int| 0 <= k < i && byte_len((#[trigger] types@[k]).short@) == w,
        decreases types@.len() - i,
    {
        let len = types[i].short.as_str().len();
        if i == 0 || len > w {
            w = len;
        }
        i = i + 1;
    }
    w
}

/// `n` spaces.
pub open spec fn spaces(n: nat) -> Seq<char> {
    Seq::new(n, |i: int| ' ')
}

/// The line of the node creator's list for a type: its short name padded
/// with spaces to `width` bytes, two spaces, and its path.
pub fn type_choice_label(short: &String, path: &String, width: usize) -> (r: String)
    requires
        byte_len(short@) <= width,
    ensures
        r@ == short@ + spaces((width - byte_len(short@)) as nat) + "  "@ + path@,
{
    let pad = width - short.as_str().len();
    let mut r = short.clone();
    let mut i: usize = 0;
    proof {
        reveal_strlit(" ");
        assert(r@ =~= short@ + spaces(0));
    }
    while i < pad
        invariant
            i <= pad,
            r@ == short@ + spaces(i as nat),
            " "@ == seq![' '],
        decreases pad - i,
    {
        r.append(" ");
        proof {
            assert(short@ + spaces(i as nat) + seq![' '] =~= short@ + spaces((i + 1) as nat));
        }
        i = i + 1;
    }
    r.append("  ");
    r.append(path.as_str());
    r
}

} // verus!
