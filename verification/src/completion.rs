use vstd::prelude::*;

use crate::text::{chars_of, starts_with};

verus! {

/// The longest common prefix of two character sequences.
pub open spec fn common_prefix(a: Seq<char>, b: Seq<char>) -> Seq<char>
    decreases a.len(),
{
    if a.len() == 0 || b.len() == 0 || a[0] != b[0] {
        Seq::empty()
    } else {
        seq![a[0]] + common_prefix(a.drop_first(), b.drop_first())
    }
}

/// The longest prefix that all `items` share (the empty sequence for none).
pub open spec fn common_prefix_all(items: Seq<Seq<char>>) -> Seq<char>
    decreases items.len(),
{
    if items.len() == 0 {
        Seq::empty()
    } else if items.len() == 1 {
        items[0]
    } else {
        common_prefix(common_prefix_all(items.drop_last()), items.last())
    }
}

/// The candidates that start with `query`, in their order.
pub open spec fn matching(cands: Seq<Seq<char>>, query: Seq<char>) -> Seq<Seq<char>>
    decreases cands.len(),
{
    if cands.len() == 0 {
        Seq::empty()
    } else {
        let rest = matching(cands.drop_last(), query);
        if query.is_prefix_of(cands.last()) {
            rest.push(cands.last())
        } else {
            rest
        }
    }
}

/// What a Tab press turns `query` into: nothing when no candidate starts with
/// it, the one candidate that does, or the longest prefix that all the
/// candidates starting with it share.
pub open spec fn completion(cands: Seq<Seq<char>>, query: Seq<char>) -> Option<Seq<char>> {
    let m = matching(cands, query);
    if m.len() == 0 {
        None
    } else if m.len() == 1 {
        Some(m[0])
    } else {
        Some(common_prefix_all(m))
    }
}

/// The character views of a list of string slices.
pub open spec fn views(cands: Seq<&str>) -> Seq<Seq<char>> {
    cands.map_values(|s: &str| s@)
}

proof fn lemma_common_prefix_step(a: Seq<char>, b: Seq<char>, k: int)
    requires
        0 <= k < a.len(),
        k < b.len(),
        a[k] == b[k],
    ensures
        common_prefix(a.subrange(k, a.len() as int), b.subrange(k, b.len() as int)) == seq![a[k]]
            + common_prefix(a.subrange(k + 1, a.len() as int), b.subrange(k + 1, b.len() as int)),
{
    let ak = a.subrange(k, a.len() as int);
    let bk = b.subrange(k, b.len() as int);
    assert(ak.drop_first() =~= a.subrange(k + 1, a.len() as int));
    assert(bk.drop_first() =~= b.subrange(k + 1, b.len() as int));
}

/// The longest common prefix of two character sequences.
pub fn common_prefix_chars(a: &[char], b: &[char]) -> (p: Vec<char>)
    ensures
        p@ == common_prefix(a@, b@),
{
    let mut p: Vec<char> = Vec::new();
    let mut k: usize = 0;
    assert(a@.subrange(0, a@.len() as int) =~= a@);
    assert(b@.subrange(0, b@.len() as int) =~= b@);
    while k < a.len() && k < b.len() && a[k] == b[k]
        invariant
            k <= a@.len(),
            k <= b@.len(),
            p@ == a@.subrange(0, k as int),
            common_prefix(a@, b@) == p@ + common_prefix(
                a@.subrange(k as int, a@.len() as int),
                b@.subrange(k as int, b@.len() as int),
            ),
        decreases a@.len() - k,
    {
        proof {
            lemma_common_prefix_step(a@, b@, k as int);
        }
        p.push(a[k]);
        k = k + 1;
        assert(p@ =~= a@.subrange(0, k as int));
        assert(common_prefix(a@, b@) =~= p@ + common_prefix(
            a@.subrange(k as int, a@.len() as int),
            b@.subrange(k as int, b@.len() as int),
        ));
    }
    assert(common_prefix(a@.subrange(k as int, a@.len() as int), b@.subrange(k as int, b@.len() as int)) =~= Seq::<char>::empty());
    assert(p@ =~= common_prefix(a@, b@));
    p
}

/// The common prefix of two sequences is a prefix of both, and every prefix
/// they share is a prefix of it.
pub proof fn lemma_common_prefix(a: Seq<char>, b: Seq<char>, q: Seq<char>)
    ensures
        common_prefix(a, b).is_prefix_of(a),
        common_prefix(a, b).is_prefix_of(b),
        q.is_prefix_of(a) && q.is_prefix_of(b) ==> q.is_prefix_of(common_prefix(a, b)),
    decreases a.len(),
{
    if a.len() == 0 || b.len() == 0 || a[0] != b[0] {
        if q.is_prefix_of(a) && q.is_prefix_of(b) && q.len() > 0 {
            assert(q[0] == a[0]);
            assert(q[0] == b[0]);
        }
    } else {
        let qt = if q.len() > 0 {
            q.drop_first()
        } else {
            q
        };
        lemma_common_prefix(a.drop_first(), b.drop_first(), qt);
        let c = common_prefix(a, b);
        let ct = common_prefix(a.drop_first(), b.drop_first());
        assert(c =~= seq![a[0]] + ct);
        assert(c.is_prefix_of(a)) by {
            assert forall|i: int| 0 <= i < c.len() implies c[i] == a[i] by {
                if i > 0 {
                    assert(ct[i - 1] == a.drop_first()[i - 1]);
                }
            }
            assert(c =~= a.subrange(0, c.len() as int));
        }
        assert(c.is_prefix_of(b)) by {
            assert forall|i: int| 0 <= i < c.len() implies c[i] == b[i] by {
                if i > 0 {
                    assert(ct[i - 1] == b.drop_first()[i - 1]);
                }
            }
            assert(c =~= b.subrange(0, c.len() as int));
        }
        if q.is_prefix_of(a) && q.is_prefix_of(b) && q.len() > 0 {
            assert(qt =~= a.drop_first().subrange(0, qt.len() as int));
            assert(qt =~= b.drop_first().subrange(0, qt.len() as int));
            assert(qt.is_prefix_of(ct));
            assert forall|i: int| 0 <= i < q.len() implies q[i] == c[i] by {
                if i > 0 {
                    assert(qt[i - 1] == ct[i - 1]);
                } else {
                    assert(q[0] == a[0]);
                }
            }
            assert(q =~= c.subrange(0, q.len() as int));
        }
    }
}

/// The common prefix of all items is a prefix of each of them, and every
/// prefix they all share is a prefix of it.
pub proof fn lemma_common_prefix_all(items: Seq<Seq<char>>, q: Seq<char>)
    requires
        items.len() > 0,
    ensures
        forall|i: int| 0 <= i < items.len() ==> common_prefix_all(items).is_prefix_of(#[trigger] items[i]),
        (forall|i: int| 0 <= i < items.len() ==> q.is_prefix_of(#[trigger] items[i])) ==> q.is_prefix_of(
            common_prefix_all(items),
        ),
    decreases items.len(),
{
    if items.len() > 1 {
        let init = items.drop_last();
        lemma_common_prefix_all(init, q);
        let pi = common_prefix_all(init);
        lemma_common_prefix(pi, items.last(), q);
        let c = common_prefix_all(items);
        assert forall|i: int| 0 <= i < items.len() implies c.is_prefix_of(#[trigger] items[i]) by {
            if i < items.len() - 1 {
                assert(pi.is_prefix_of(init[i]));
                assert(c.is_prefix_of(pi));
                assert(c =~= items[i].subrange(0, c.len() as int)) by {
                    assert forall|j: int| 0 <= j < c.len() implies c[j] == items[i][j] by {
                        assert(c[j] == pi[j]);
                        assert(pi[j] == init[i][j]);
                    }
                }
            }
        }
        if forall|i: int| 0 <= i < items.len() ==> q.is_prefix_of(#[trigger] items[i]) {
            assert forall|i: int| 0 <= i < init.len() implies q.is_prefix_of(#[trigger] init[i]) by {
                assert(init[i] == items[i]);
            }
            assert(q.is_prefix_of(items[items.len() - 1]));
        }
    }
}

/// The longest prefix all the candidates share.
pub fn longest_common_prefix(candidates: &[Vec<char>]) -> (p: Vec<char>)
    requires
        candidates@.len() > 0,
    ensures
        p@ == common_prefix_all(candidates@.map_values(|v: Vec<char>| v@)),
{
    let ghost items = candidates@.map_values(|v: Vec<char>| v@);
    let mut prefix: Vec<char> = chars_copy(&candidates[0]);
    assert(items.subrange(0, 1).drop_last() =~= Seq::<Seq<char>>::empty());
    let mut i: usize = 1;
    while i < candidates.len()
        invariant
            1 <= i <= candidates@.len(),
            items == candidates@.map_values(|v: Vec<char>| v@),
            prefix@ == common_prefix_all(items.subrange(0, i as int)),
        decreases candidates@.len() - i,
    {
        prefix = common_prefix_chars(&prefix, &candidates[i]);
        assert(items.subrange(0, i + 1).drop_last() =~= items.subrange(0, i as int));
        i = i + 1;
    }
    assert(items.subrange(0, candidates@.len() as int) =~= items);
    prefix
}

fn chars_copy(v: &Vec<char>) -> (r: Vec<char>)
    ensures
        r@ == v@,
{
    crate::text::chars_from(v.as_slice(), 0)
}

proof fn lemma_matching(cands: Seq<Seq<char>>, query: Seq<char>)
    ensures
        forall|i: int|
            0 <= i < matching(cands, query).len() ==> query.is_prefix_of(
                #[trigger] matching(cands, query)[i],
            ),
        forall|i: int|
            0 <= i < matching(cands, query).len() ==> cands.contains(
                #[trigger] matching(cands, query)[i],
            ),
        forall|i: int|
            0 <= i < cands.len() && query.is_prefix_of(#[trigger] cands[i]) ==> matching(
                cands,
                query,
            ).contains(cands[i]),
    decreases cands.len(),
{
    if cands.len() > 0 {
        let init = cands.drop_last();
        lemma_matching(init, query);
        let m = matching(cands, query);
        let mi = matching(init, query);
        assert forall|i: int| 0 <= i < m.len() implies cands.contains(#[trigger] m[i]) by {
            if i < mi.len() {
                let k = choose|k: int| 0 <= k < init.len() && init[k] == mi[i];
                assert(cands[k] == m[i]);
            } else {
                assert(cands[cands.len() - 1] == m[i]);
            }
        }
        assert forall|i: int|
            0 <= i < cands.len() && query.is_prefix_of(#[trigger] cands[i]) implies m.contains(
            cands[i],
        ) by {
            if i < cands.len() - 1 {
                assert(init[i] == cands[i]);
                let k = choose|k: int| 0 <= k < mi.len() && mi[k] == init[i];
                assert(m[k] == mi[k]);
            } else {
                assert(m[m.len() - 1] == cands[i]);
            }
        }
    }
}

/// A completion always extends what was typed, and it is a prefix of every
/// candidate that starts with what was typed; there is none exactly when no
/// candidate starts with what was typed.
pub proof fn completion_extends_query(cands: Seq<Seq<char>>, query: Seq<char>)
    ensures
        completion(cands, query) matches Some(c) ==> {
            &&& query.is_prefix_of(c)
            &&& forall|i: int|
                0 <= i < cands.len() && query.is_prefix_of(#[trigger] cands[i])
                    ==> c.is_prefix_of(cands[i])
        },
        completion(cands, query) is None <==> forall|i: int|
            0 <= i < cands.len() ==> !query.is_prefix_of(#[trigger] cands[i]),
{
    lemma_matching(cands, query);
    let m = matching(cands, query);
    if m.len() > 0 {
        lemma_common_prefix_all(m, query);
        let c = common_prefix_all(m);
        assert forall|i: int|
            0 <= i < cands.len() && query.is_prefix_of(#[trigger] cands[i]) implies c.is_prefix_of(
            cands[i],
        ) by {
            let k = choose|k: int| 0 <= k < m.len() && m[k] == cands[i];
            assert(c.is_prefix_of(m[k]));
        }
        if m.len() == 1 {
            assert(common_prefix_all(m) == m[0]);
        }
        assert(query.is_prefix_of(m[0]));
        let k = choose|k: int| 0 <= k < cands.len() && cands[k] == m[0];
        assert(query.is_prefix_of(cands[k]));
    } else {
        assert forall|i: int| 0 <= i < cands.len() implies !query.is_prefix_of(#[trigger] cands[i]) by {
            if query.is_prefix_of(cands[i]) {
                assert(m.contains(cands[i]));
            }
        }
    }
}

/// Completes `query` against `candidates` the way the Tab key does.
pub fn complete_from_candidates(query: &[char], candidates: &[&str]) -> (r: Option<Vec<char>>)
    ensures
        r matches Some(v) ==> completion(views(candidates@), query@) == Some(v@),
        r is None ==> completion(views(candidates@), query@) is None,
{
    let ghost cands = views(candidates@);
    let mut matches: Vec<Vec<char>> = Vec::new();
    let mut i: usize = 0;
    while i < candidates.len()
        invariant
            i <= candidates@.len(),
            cands == views(candidates@),
            matches@.map_values(|v: Vec<char>| v@) == matching(cands.subrange(0, i as int), query@),
        decreases candidates@.len() - i,
    {
        let cand = chars_of(candidates[i]);
        let ghost before = matches@.map_values(|v: Vec<char>| v@);
        assert(cands.subrange(0, i + 1).drop_last() =~= cands.subrange(0, i as int));
        assert(cands.subrange(0, i + 1).last() == cand@);
        if starts_with(&cand, query) {
            matches.push(cand);
            assert(matches@.map_values(|v: Vec<char>| v@) =~= before.push(cand@));
        }
        i = i + 1;
    }
    assert(cands.subrange(0, candidates@.len() as int) =~= cands);
    let ghost m = matches@.map_values(|v: Vec<char>| v@);
    if matches.len() == 0 {
        return None;
    }
    if matches.len() == 1 {
        let only = chars_copy(&matches[0]);
        assert(only@ == m[0]);
        return Some(only);
    }
    Some(longest_common_prefix(&matches))
}

} // verus!
