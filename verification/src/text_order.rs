//! The order of strings, character by character, and sorting by a text
//! key.
use vstd::prelude::*;
use crate::insertion::{lemma_insert_at, lemma_insert_permutation};

verus! {

/// `a` comes no later than `b` in the order of strings: character by
/// character, a proper prefix first.
pub open spec fn text_le(a: Seq<char>, b: Seq<char>) -> bool
    decreases a.len(),
{
    if a.len() == 0 {
        true
    } else if b.len() == 0 {
        false
    } else if (a[0] as int) < (b[0] as int) {
        true
    } else if a[0] == b[0] {
        text_le(a.drop_first(), b.drop_first())
    } else {
        false
    }
}

/// Any two strings are ordered one way or the other.
pub proof fn lemma_text_le_total(a: Seq<char>, b: Seq<char>)
    ensures
        text_le(a, b) || text_le(b, a),
    decreases a.len(),
{
    if a.len() > 0 && b.len() > 0 && a[0] == b[0] {
        lemma_text_le_total(a.drop_first(), b.drop_first());
    } else if a.len() > 0 && b.len() > 0 {
        assert((a[0] as int) != (b[0] as int));
    }
}

/// The order of strings is transitive.
pub proof fn lemma_text_le_transitive(a: Seq<char>, b: Seq<char>, c: Seq<char>)
    requires
        text_le(a, b),
        text_le(b, c),
    ensures
        text_le(a, c),
    decreases a.len(),
{
    if a.len() > 0 && b.len() > 0 && c.len() > 0 && a[0] == b[0] && b[0] == c[0] {
        lemma_text_le_transitive(a.drop_first(), b.drop_first(), c.drop_first());
    }
}

/// Whether `a` comes no later than `b`.
pub fn text_le_exec(a: &String, b: &String) -> (r: bool)
    ensures
        r == text_le(a@, b@),
{
    let n = a.as_str().unicode_len();
    let m = b.as_str().unicode_len();
    let mut i: usize = 0;
    proof {
        assert(a@.skip(0) =~= a@);
        assert(b@.skip(0) =~= b@);
    }
    while i < n && i < m
        invariant
            n == a@.len(),
            m == b@.len(),
            i <= n,
            i <= m,
            text_le(a@, b@) == text_le(a@.skip(i as int), b@.skip(i as int)),
        decreases n - i,
    {
        let x = a.as_str().get_char(i);
        let y = b.as_str().get_char(i);
        proof {
            assert(a@.skip(i as int)[0] == x);
            assert(b@.skip(i as int)[0] == y);
            assert(a@.skip(i as int).drop_first() =~= a@.skip(i + 1));
            assert(b@.skip(i as int).drop_first() =~= b@.skip(i + 1));
        }
        if (x as u32) < (y as u32) {
            return true;
        }
        if x != y {
            return false;
        }
        i = i + 1;
    }
    i == n
}

/// Items ordered by a text key.
pub trait TextKeyed {
    /// The key, by its text.
    spec fn key_text(&self) -> Seq<char>;

    /// The key.
    fn key(&self) -> (k: &String)
        ensures
            k@ == self.key_text(),
    ;
}

impl<T> TextKeyed for (String, T) {
    open spec fn key_text(&self) -> Seq<char> {
        self.0@
    }

    fn key(&self) -> (k: &String) {
        &self.0
    }
}

/// `out` holds the items of `input`, each once, ordered by their key
/// text; `src` tells for each position of `out` the position of `input` it
/// came from.
pub open spec fn is_text_sort_of<T: TextKeyed>(out: Seq<T>, input: Seq<T>, src: Seq<int>) -> bool {
    &&& out.len() == input.len()
    &&& src.len() == out.len()
    &&& forall|a: int| 0 <= a < out.len() ==> 0 <= #[trigger] src[a] < input.len()
    &&& forall|a: int, b: int| 0 <= a < b < out.len() ==> #[trigger] src[a] != #[trigger] src[b]
    &&& forall|a: int| 0 <= a < out.len() ==> #[trigger] out[a] == input[src[a]]
    &&& forall|a: int, b: int| 0 <= a < b < out.len() ==> text_le((#[trigger] out[a]).key_text(), (#[trigger] out[b]).key_text())
}

proof fn lemma_sorted_insert<T: TextKeyed>(out: Seq<T>, p: int, x: T)
    requires
        0 <= p <= out.len(),
        forall|a: int, b: int| 0 <= a < b < out.len() ==> text_le((#[trigger] out[a]).key_text(), (#[trigger] out[b]).key_text()),
        forall|a: int| 0 <= a < p ==> text_le((#[trigger] out[a]).key_text(), x.key_text()),
        p < out.len() ==> !text_le(out[p].key_text(), x.key_text()),
    ensures
        forall|a: int, b: int| 0 <= a < b < out.len() + 1 ==> text_le((#[trigger] out.insert(p, x)[a]).key_text(), (#[trigger] out.insert(p, x)[b]).key_text()),
{
    lemma_insert_at(out, p, x);
    if p < out.len() {
        lemma_text_le_total(out[p].key_text(), x.key_text());
    }
    assert forall|a: int, b: int| 0 <= a < b < out.len() + 1 implies text_le((#[trigger] out.insert(p, x)[a]).key_text(), (#[trigger] out.insert(p, x)[b]).key_text()) by {
        let s = out.insert(p, x);
        if a < p && b == p {
        } else if a < p && b > p {
            assert(s[b] == out[b - 1]);
        } else if a == p && b > p {
            assert(s[b] == out[b - 1]);
            if b - 1 > p {
                lemma_text_le_transitive(x.key_text(), out[p].key_text(), out[b - 1].key_text());
            }
        } else if a > p {
            assert(s[a] == out[a - 1]);
            assert(s[b] == out[b - 1]);
        }
    }
}

/// The items ordered by their key text; items with the same key may come
/// in either order.
pub fn sort_by_text<T: TextKeyed>(types: Vec<T>) -> (r: Vec<T>)
    ensures
        exists|src: Seq<int>| #[trigger] is_text_sort_of(r@, types@, src),
{
    let n = types.len();
    let mut rest = types;
    let ghost input = rest@;
    let mut out: Vec<T> = Vec::new();
    let ghost mut src: Seq<int> = Seq::empty();
    let ghost mut pos: Seq<int> = Seq::empty();
    let mut j: usize = 0;
    while j < n
        invariant
            n == input.len(),
            j <= n,
            rest@ == input.subrange(j as int, n as int),
            out@.len() == j,
            src.len() == j,
            pos.len() == j,
            forall|a: int| 0 <= a < j ==> 0 <= #[trigger] src[a] < j && out@[a] == input[src[a]],
            forall|t: int| 0 <= t < j ==> 0 <= #[trigger] pos[t] < j && src[pos[t]] == t,
            forall|a: int, b: int| 0 <= a < b < j ==> #[trigger] src[a] != #[trigger] src[b],
            forall|a: int, b: int| 0 <= a < b < j ==> text_le((#[trigger] out@[a]).key_text(), (#[trigger] out@[b]).key_text()),
        decreases n - j,
    {
        let item = rest.remove(0);
        proof {
            assert(rest@ =~= input.subrange(j + 1, n as int));
        }
        let mut p: usize = 0;
        while p < out.len() && text_le_exec(out[p].key(), item.key())
            invariant
                p <= out@.len(),
                forall|a: int| 0 <= a < p ==> text_le((#[trigger] out@[a]).key_text(), item.key_text()),
            decreases out@.len() - p,
        {
            p = p + 1;
        }
        let ghost old_out = out@;
        let ghost old_src = src;
        let ghost old_pos = pos;
        let ghost it = item;
        out.insert(p, item);
        proof {
            assert(it == input[j as int]);
            src = old_src.insert(p as int, j as int);
            pos = old_pos.map_values(|x: int| if x >= p { x + 1 } else { x }).push(p as int);
            lemma_insert_at(old_out, p as int, it);
            lemma_insert_permutation(old_src, old_pos, p as int, j as int);
            lemma_insert_at(old_src, p as int, j as int);
            lemma_sorted_insert(old_out, p as int, it);
            assert forall|a: int| 0 <= a < j + 1 implies 0 <= #[trigger] src[a] < j + 1 && out@[a] == input[src[a]] by {
                if a > p {
                    assert(out@[a] == old_out[a - 1]);
                }
            }
        }
        j = j + 1;
    }
    proof {
        assert(is_text_sort_of(out@, input, src));
    }
    out
}


} // verus!
