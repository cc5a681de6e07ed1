//! Facts about inserting into a sequence, shared by the insertion sorts of
//! the library.
use vstd::prelude::*;

verus! {

/// What each position of a sequence holds after an insertion.
pub proof fn lemma_insert_at<T>(s: Seq<T>, p: int, x: T)
    requires
        0 <= p <= s.len(),
    ensures
        s.insert(p, x).len() == s.len() + 1,
        forall|i: int|
            0 <= i < s.len() + 1 ==> #[trigger] s.insert(p, x)[i] == (if i < p {
                s[i]
            } else if i == p {
                x
            } else {
                s[i - 1]
            }),
{
    s.insert_ensures(p, x);
    assert forall|i: int| 0 <= i < s.len() + 1 implies #[trigger] s.insert(p, x)[i] == (if i < p {
        s[i]
    } else if i == p {
        x
    } else {
        s[i - 1]
    }) by {
        if i > p {
            assert(s.insert(p, x)[(i - 1) + 1] == s[i - 1]);
        }
    }
}

/// Inserting the element `j` of an input at position `p` of a sorted output
/// keeps the two index maps between input and output inverse to each other.
pub proof fn lemma_insert_permutation(src: Seq<int>, pos: Seq<int>, p: int, j: int)
    requires
        0 <= p <= j,
        src.len() == j,
        pos.len() == j,
        forall|a: int| 0 <= a < j ==> 0 <= #[trigger] src[a] < j,
        forall|t: int| 0 <= t < j ==> 0 <= #[trigger] pos[t] < j && src[pos[t]] == t,
    ensures
        ({
            let src2 = src.insert(p, j);
            let pos2 = pos.map_values(|x: int| if x >= p { x + 1 } else { x }).push(p);
            &&& src2.len() == j + 1
            &&& pos2.len() == j + 1
            &&& forall|a: int| 0 <= a < j + 1 ==> 0 <= #[trigger] src2[a] < j + 1
            &&& forall|t: int| 0 <= t < j + 1 ==> 0 <= #[trigger] pos2[t] < j + 1 && src2[pos2[t]] == t
            &&& (forall|a: int| 0 <= a < j ==> #[trigger] src[a] == a) && p == j ==> forall|a: int|
                0 <= a < j + 1 ==> #[trigger] src2[a] == a
            &&& (forall|a: int, b: int| 0 <= a < b < j ==> #[trigger] src[a] != #[trigger] src[b])
                ==> forall|a: int, b: int| 0 <= a < b < j + 1 ==> #[trigger] src2[a] != #[trigger] src2[b]
        }),
{
    let src2 = src.insert(p, j);
    let pos2 = pos.map_values(|x: int| if x >= p { x + 1 } else { x }).push(p);
    lemma_insert_at(src, p, j);
    assert forall|t: int| 0 <= t < j + 1 implies 0 <= #[trigger] pos2[t] < j + 1 && src2[pos2[t]] == t by {
        if t < j {
            let x = pos[t];
            assert(pos2[t] == (if x >= p { x + 1 } else { x }));
        }
    }
}

} // verus!
