//! The fuzzy filter engine: scores a candidate set against a query string
//! and returns the indices of the matches, ranked. A pure function of its
//! snapshot arguments, so it can run off the interactive thread.

use vstd::prelude::*;
use vstd::string::*;

verus! {

/// Score given to every item when the query is empty, and the base from
/// which the match penalty is subtracted.
pub const BASE_SCORE: u32 = 1000000;

/// What `str::to_lowercase` returns, named: the lowercase form of a
/// character sequence. The result depends on the characters alone.
pub uninterp spec fn lower_of(s: Seq<char>) -> Seq<char>;

/// Relies on str::to_lowercase: lowercases the string; the result is a
/// pure function of the input characters, and empty input gives an empty
/// result.
#[verifier::external_body]
pub(crate) fn lowercase(s: &str) -> (r: String)
    ensures
        r@ == lower_of(s@),
        s@.len() == 0 ==> r@.len() == 0,
{
    s.to_lowercase()
}

/// Position one past the last matched character when `q` is matched
/// greedily, left to right, against `name` starting at position `ni`;
/// `None` when `q` is not a subsequence of `name` from `ni` on.
pub open spec fn greedy_end(name: Seq<char>, q: Seq<char>, ni: int) -> Option<int>
    decreases name.len() - ni,
{
    if ni < 0 || ni > name.len() {
        None
    } else if q.len() == 0 {
        Some(ni)
    } else if ni == name.len() {
        None
    } else if name[ni] == q[0] {
        greedy_end(name, q.drop_first(), ni + 1)
    } else {
        greedy_end(name, q, ni + 1)
    }
}

/// The fuzzy match score of a folded (lowercased) query `q` against a
/// folded name: `None` when `q` is not a subsequence of `name`; otherwise
/// `BASE_SCORE` minus the position where the greedy match completes,
/// floored at zero, so matches that complete earlier in the name score
/// higher. An empty query matches everything with the full base score.
pub open spec fn score_of(name: Seq<char>, q: Seq<char>) -> Option<u32> {
    if q.len() == 0 {
        Some(BASE_SCORE)
    } else {
        match greedy_end(name, q, 0) {
            Some(end) => if end >= BASE_SCORE {
                Some(0u32)
            } else {
                Some((BASE_SCORE - end) as u32)
            },
            None => None,
        }
    }
}

/// Compute the fuzzy score of a folded query against a folded name.
/// Both arguments are expected already lowercased; the pipeline folds them
/// before calling.
pub fn fuzzy_score(name: &str, q: &str) -> (r: Option<u32>)
    ensures
        r == score_of(name@, q@),
{
    let nlen = name.unicode_len();
    let qlen = q.unicode_len();
    if qlen == 0 {
        return Some(BASE_SCORE);
    }
    let mut i: usize = 0;
    let mut qi: usize = 0;
    proof {
        assert(q@.skip(0) =~= q@);
    }
    while i < nlen
        invariant
            nlen == name@.len(),
            qlen == q@.len(),
            qlen > 0,
            i <= nlen,
            qi < qlen,
            greedy_end(name@, q@, 0) == greedy_end(name@, q@.skip(qi as int), i as int),
        decreases nlen - i,
    {
        let nc = name.get_char(i);
        let qc = q.get_char(qi);
        if nc == qc {
            proof {
                assert(q@.skip(qi as int).drop_first() =~= q@.skip(qi as int + 1));
            }
            qi = qi + 1;
            i = i + 1;
            if qi == qlen {
                proof {
                    assert(q@.skip(qlen as int).len() == 0);
                    assert(greedy_end(name@, q@, 0) == Some(i as int));
                }
                if i >= BASE_SCORE as usize {
                    return Some(0);
                } else {
                    return Some(BASE_SCORE - i as u32);
                }
            }
        } else {
            i = i + 1;
        }
    }
    proof {
        assert(greedy_end(name@, q@.skip(qi as int), nlen as int) is None);
    }
    None
}

/// Strict ordering of ranked entries: ascending section priority, then
/// descending match score, then ascending original index. A total order on
/// entries with distinct indices.
pub open spec fn entry_lt(
    a_pr: u8,
    a_score: u32,
    a_idx: int,
    b_pr: u8,
    b_score: u32,
    b_idx: int,
) -> bool {
    ||| a_pr < b_pr
    ||| (a_pr == b_pr && a_score > b_score)
    ||| (a_pr == b_pr && a_score == b_score && a_idx < b_idx)
}

/// Whether item `i` is kept by query `q`: every item is kept by the empty
/// query; a non-empty query keeps the items whose folded name it matches.
pub open spec fn kept(names: Seq<Seq<char>>, q: Seq<char>, i: int) -> bool {
    q.len() == 0 || score_of(lower_of(names[i]), lower_of(q)) is Some
}

/// The score item `i` is ranked with under query `q` (meaningful only for
/// kept items).
pub open spec fn rank_score(names: Seq<Seq<char>>, q: Seq<char>, i: int) -> u32 {
    if q.len() == 0 {
        BASE_SCORE
    } else {
        match score_of(lower_of(names[i]), lower_of(q)) {
            Some(sc) => sc,
            None => 0u32,
        }
    }
}

/// Shorthand: entry `i` orders strictly before entry `j` in the ranking
/// for query `q`.
pub open spec fn ranks_before(
    names: Seq<Seq<char>>,
    prs: Seq<u8>,
    q: Seq<char>,
    i: int,
    j: int,
) -> bool {
    entry_lt(
        prs[i],
        rank_score(names, q, i),
        i,
        prs[j],
        rank_score(names, q, j),
        j,
    )
}

/// The ranking contract: `r` holds exactly the kept indices, each once,
/// in strictly ascending `ranks_before` order. Together with the order
/// being total on distinct indices this pins `r` down uniquely.
pub open spec fn ranked_ok(
    names: Seq<Seq<char>>,
    prs: Seq<u8>,
    q: Seq<char>,
    r: Seq<usize>,
) -> bool {
    &&& forall|k: int|
        0 <= k < r.len() ==> r[k] < names.len() && kept(names, q, #[trigger] r[k] as int)
    &&& forall|i: int|
        0 <= i < names.len() && kept(names, q, i) ==> r.contains(#[trigger] (i as usize))
    &&& forall|a: int, b: int|
        0 <= a < b < r.len() ==> ranks_before(names, prs, q, #[trigger] r[a] as int, #[trigger] r[b] as int)
}

/// One ranked entry while the engine is sorting.
#[derive(Clone, Copy)]
struct RankEntry {
    idx: usize,
    pr: u8,
    score: u32,
}

/// Rank the named candidates against a query: keep the matches and order
/// them by ascending priority, then descending score, then ascending
/// original index. An empty query keeps everything with one fixed score,
/// which reduces the order to (priority, original index).
pub fn rank(names: &Vec<String>, prs: &Vec<u8>, query: &str) -> (r: Vec<usize>)
    requires
        names.len() == prs.len(),
    ensures
        ranked_ok(names.deep_view(), prs@, query@, r@),
{
    let n = names.len();
    let query_empty = query.is_empty();
    let ql = lowercase(query);
    let mut entries: Vec<RankEntry> = Vec::new();
    let mut i: usize = 0;
    while i < n
        invariant
            n == names.len(),
            names.len() == prs.len(),
            i <= n,
            query_empty == (query@.len() == 0),
            ql@ == lower_of(query@),
            forall|k: int| 0 <= k < entries.len() ==> (#[trigger] entries[k]).idx < i,
            forall|k: int|
                0 <= k < entries.len() ==> kept(names.deep_view(), query@, (#[trigger] entries[k]).idx as int)
                    && entries[k].pr == prs@[entries[k].idx as int]
                    && entries[k].score == rank_score(names.deep_view(), query@, entries[k].idx as int),
            forall|j: int|
                0 <= j < i && kept(names.deep_view(), query@, j) ==> exists|k: int|
                    0 <= k < entries.len() && (#[trigger] entries[k]).idx == j,
            forall|a: int, b: int|
                0 <= a < b < entries.len() ==> entry_lt(
                    entries[a].pr,
                    entries[a].score,
                    entries[a].idx as int,
                    entries[b].pr,
                    entries[b].score,
                    entries[b].idx as int,
                ),
        decreases n - i,
    {
        let sc_opt: Option<u32> = if query_empty {
            Some(BASE_SCORE)
        } else {
            let nl = lowercase(names[i].as_str());
            fuzzy_score(nl.as_str(), ql.as_str())
        };
        if let Some(sc) = sc_opt {
            let e = RankEntry { idx: i, pr: prs[i], score: sc };
            let mut j = entries.len();
            while j > 0
                invariant_except_break
                    j <= entries.len(),
                    forall|k: int| 0 <= k < entries.len() ==> (#[trigger] entries[k]).idx < i,
                    forall|a: int, b: int|
                        0 <= a < b < entries.len() ==> entry_lt(
                            entries[a].pr,
                            entries[a].score,
                            entries[a].idx as int,
                            entries[b].pr,
                            entries[b].score,
                            entries[b].idx as int,
                        ),
                    e.idx == i,
                    forall|k: int|
                        j <= k < entries.len() ==> entry_lt(
                            e.pr,
                            e.score,
                            e.idx as int,
                            (#[trigger] entries[k]).pr,
                            entries[k].score,
                            entries[k].idx as int,
                        ),
                ensures
                    j <= entries.len(),
                    forall|k: int|
                        j <= k < entries.len() ==> entry_lt(
                            e.pr,
                            e.score,
                            e.idx as int,
                            (#[trigger] entries[k]).pr,
                            entries[k].score,
                            entries[k].idx as int,
                        ),
                    forall|k: int|
                        0 <= k < j ==> entry_lt(
                            (#[trigger] entries[k]).pr,
                            entries[k].score,
                            entries[k].idx as int,
                            e.pr,
                            e.score,
                            e.idx as int,
                        ),
                decreases j,
            {
                let prev = entries[j - 1];
                if entry_lt_exec(&e, &prev) {
                    j = j - 1;
                } else {
                    proof {
                        assert(prev.idx != e.idx);
                        assert(entry_lt(
                            prev.pr,
                            prev.score,
                            prev.idx as int,
                            e.pr,
                            e.score,
                            e.idx as int,
                        ));
                        assert forall|k: int| 0 <= k < j implies entry_lt(
                            (#[trigger] entries@[k]).pr,
                            entries@[k].score,
                            entries@[k].idx as int,
                            e.pr,
                            e.score,
                            e.idx as int,
                        ) by {
                            if k < j - 1 {
                                assert(entry_lt(
                                    entries@[k].pr,
                                    entries@[k].score,
                                    entries@[k].idx as int,
                                    prev.pr,
                                    prev.score,
                                    prev.idx as int,
                                ));
                            }
                        }
                    }
                    break;
                }
            }
            let ghost entries0 = entries@;
            entries.insert(j, e);
            proof {
                assert forall|jj: int|
                    0 <= jj < i + 1 && kept(names.deep_view(), query@, jj) implies exists|k: int|
                    0 <= k < entries@.len() && (#[trigger] entries@[k]).idx == jj by {
                    if jj == i {
                        assert(entries@[j as int].idx == i);
                    } else {
                        let k0 = choose|k0: int|
                            0 <= k0 < entries0.len() && (#[trigger] entries0[k0]).idx == jj;
                        if k0 < j {
                            assert(entries@[k0].idx == jj);
                        } else {
                            assert(entries@[k0 + 1].idx == jj);
                        }
                    }
                }
                assert forall|a: int, b: int| 0 <= a < b < entries@.len() implies entry_lt(
                    entries@[a].pr,
                    entries@[a].score,
                    entries@[a].idx as int,
                    entries@[b].pr,
                    entries@[b].score,
                    entries@[b].idx as int,
                ) by {
                    let ja = j as int;
                    assert(entries@[ja] == e);
                    if a < ja {
                        assert(entries@[a] == entries0[a]);
                    }
                    if b < ja {
                        assert(entries@[b] == entries0[b]);
                    }
                    if a > ja {
                        assert(entries@[a] == entries0[a - 1]);
                    }
                    if b > ja {
                        assert(entries@[b] == entries0[b - 1]);
                    }
                }
            }
        }
        i = i + 1;
    }
    let mut r: Vec<usize> = Vec::new();
    let mut k: usize = 0;
    while k < entries.len()
        invariant
            k <= entries.len(),
            r@.len() == k,
            forall|t: int| 0 <= t < k ==> r@[t] == (#[trigger] entries[t]).idx,
        decreases entries.len() - k,
    {
        r.push(entries[k].idx);
        k = k + 1;
    }
    proof {
        assert forall|idx: int|
            0 <= idx < names.deep_view().len() && kept(names.deep_view(), query@, idx)
            implies r@.contains(#[trigger] (idx as usize)) by {
            let k0 = choose|k0: int|
                0 <= k0 < entries.len() && (#[trigger] entries@[k0]).idx == idx;
            assert(r@[k0] == idx as usize);
        }
        assert forall|k: int| 0 <= k < r@.len() implies r@[k] < names.deep_view().len()
            && kept(names.deep_view(), query@, #[trigger] r@[k] as int) by {
            assert(r@[k] == entries@[k].idx);
        }
        assert forall|a: int, b: int| 0 <= a < b < r@.len() implies ranks_before(
            names.deep_view(),
            prs@,
            query@,
            #[trigger] r@[a] as int,
            #[trigger] r@[b] as int,
        ) by {
            assert(r@[a] == entries@[a].idx);
            assert(r@[b] == entries@[b].idx);
            assert(entry_lt(
                entries@[a].pr,
                entries@[a].score,
                entries@[a].idx as int,
                entries@[b].pr,
                entries@[b].score,
                entries@[b].idx as int,
            ));
        }
    }
    r
}

/// Executable form of `entry_lt`.
fn entry_lt_exec(a: &RankEntry, b: &RankEntry) -> (r: bool)
    ensures
        r == entry_lt(a.pr, a.score, a.idx as int, b.pr, b.score, b.idx as int),
{
    a.pr < b.pr || (a.pr == b.pr && a.score > b.score)
        || (a.pr == b.pr && a.score == b.score && a.idx < b.idx)
}

/// A uniform priority assignment: every candidate in the same group.
pub open spec fn zero_prs(n: nat) -> Seq<u8> {
    Seq::new(n, |i: int| 0u8)
}

/// Rank candidates that all share one section: the order reduces to
/// descending score with ties broken by ascending original index, and an
/// empty query keeps the original order.
pub fn rank_uniform(names: &Vec<String>, query: &str) -> (r: Vec<usize>)
    ensures
        ranked_ok(names.deep_view(), zero_prs(names@.len()), query@, r@),
{
    let n = names.len();
    let mut prs: Vec<u8> = Vec::new();
    let mut i: usize = 0;
    while i < n
        invariant
            i <= n,
            prs@.len() == i,
            forall|k: int| 0 <= k < i ==> prs@[k] == 0u8,
        decreases n - i,
    {
        prs.push(0);
        i = i + 1;
    }
    proof {
        assert(prs@ =~= zero_prs(names@.len()));
    }
    rank(names, &prs, query)
}

/// The display names of a sequence of items, in order.
pub open spec fn item_names(items: Seq<crate::items::ListItem>) -> Seq<Seq<char>> {
    items.map_values(|it: crate::items::ListItem| it.spec_name())
}

/// The sort priorities of a sequence of items, in order.
pub open spec fn item_prs(items: Seq<crate::items::ListItem>) -> Seq<u8> {
    items.map_values(|it: crate::items::ListItem| it.spec_sort_priority())
}

/// Filter and rank launcher items against a query. Touches only the
/// snapshot passed in, so it is safe to call from a background worker.
pub fn filter_items_sync(items: &Vec<crate::items::ListItem>, query: &str) -> (r: Vec<usize>)
    ensures
        ranked_ok(item_names(items@), item_prs(items@), query@, r@),
{
    let n = items.len();
    let mut names: Vec<String> = Vec::new();
    let mut prs: Vec<u8> = Vec::new();
    let mut i: usize = 0;
    while i < n
        invariant
            n == items.len(),
            i <= n,
            names.len() == i,
            prs.len() == i,
            forall|k: int| 0 <= k < i ==> (#[trigger] names@[k])@ == items@[k].spec_name(),
            forall|k: int| 0 <= k < i ==> prs@[k] == items@[k].spec_sort_priority(),
        decreases n - i,
    {
        names.push(String::from_str(items[i].name()));
        prs.push(items[i].sort_priority());
        i = i + 1;
    }
    proof {
        assert(names.deep_view() =~= item_names(items@)) by {
            assert forall|k: int| 0 <= k < n implies names.deep_view()[k] == item_names(
                items@,
            )[k] by {
                assert(names.deep_view()[k] == names@[k]@);
                assert(item_names(items@)[k] == items@[k].spec_name());
            }
        }
        assert(prs@ =~= item_prs(items@)) by {
            assert forall|k: int| 0 <= k < n implies prs@[k] == item_prs(items@)[k] by {
                assert(item_prs(items@)[k] == items@[k].spec_sort_priority());
            }
        }
    }
    rank(&names, &prs, query)
}

/// The ranking order is asymmetric: two positions cannot each come
/// before the other.
proof fn lemma_before_asymmetric(
    names: Seq<Seq<char>>,
    prs: Seq<u8>,
    q: Seq<char>,
    i: int,
    j: int,
)
    requires
        ranks_before(names, prs, q, i, j),
    ensures
        !ranks_before(names, prs, q, j, i),
{
}

/// Law: the ranking contract determines the result — any two sequences
/// that satisfy it for the same candidates and query are equal, so the
/// filtered view is deterministic.
pub proof fn lemma_ranked_unique(
    names: Seq<Seq<char>>,
    prs: Seq<u8>,
    q: Seq<char>,
    r1: Seq<usize>,
    r2: Seq<usize>,
)
    requires
        names.len() == prs.len(),
        ranked_ok(names, prs, q, r1),
        ranked_ok(names, prs, q, r2),
    ensures
        r1 =~= r2,
{
    assert forall|x: usize| r1.contains(x) implies r2.contains(x) by {
        let k = choose|k: int| 0 <= k < r1.len() && r1[k] == x;
        assert(kept(names, q, r1[k] as int));
        assert(r2.contains(x as usize));
    }
    assert forall|x: usize| r2.contains(x) implies r1.contains(x) by {
        let k = choose|k: int| 0 <= k < r2.len() && r2[k] == x;
        assert(kept(names, q, r2[k] as int));
        assert(r1.contains(x as usize));
    }
    lemma_sorted_same_elements(names, prs, q, r1, r2);
}

/// Two sequences that are strictly sorted by the ranking order and hold
/// the same elements are equal.
proof fn lemma_sorted_same_elements(
    names: Seq<Seq<char>>,
    prs: Seq<u8>,
    q: Seq<char>,
    r1: Seq<usize>,
    r2: Seq<usize>,
)
    requires
        forall|a: int, b: int|
            0 <= a < b < r1.len() ==> ranks_before(names, prs, q, #[trigger] r1[a] as int, #[trigger] r1[b] as int),
        forall|a: int, b: int|
            0 <= a < b < r2.len() ==> ranks_before(names, prs, q, #[trigger] r2[a] as int, #[trigger] r2[b] as int),
        forall|x: usize| r1.contains(x) <==> r2.contains(x),
    ensures
        r1 =~= r2,
    decreases r1.len(),
{
    if r1.len() == 0 {
        if r2.len() > 0 {
            assert(r2.contains(r2[0]));
            assert(r1.contains(r2[0]));
        }
    } else {
        assert(r1.contains(r1[0]));
        assert(r2.contains(r1[0]));
        let k2 = choose|k: int| 0 <= k < r2.len() && r2[k] == r1[0];
        assert(r1.contains(r2[0]));
        let k1 = choose|k: int| 0 <= k < r1.len() && r1[k] == r2[0];
        if k2 > 0 {
            assert(ranks_before(names, prs, q, r2[0] as int, r1[0] as int));
            if k1 > 0 {
                assert(ranks_before(names, prs, q, r1[0] as int, r2[0] as int));
                lemma_before_asymmetric(names, prs, q, r1[0] as int, r2[0] as int);
            }
            assert(r1[0] == r2[0]);
            lemma_before_asymmetric(names, prs, q, r2[0] as int, r1[0] as int);
        }
        assert(r1[0] == r2[0]);
        let t1 = r1.drop_first();
        let t2 = r2.drop_first();
        assert forall|x: usize| t1.contains(x) implies t2.contains(x) by {
            let k = choose|k: int| 0 <= k < t1.len() && t1[k] == x;
            assert(r1[k + 1] == x);
            assert(r1.contains(x));
            assert(r2.contains(x));
            let j = choose|j: int| 0 <= j < r2.len() && r2[j] == x;
            if j == 0 {
                assert(ranks_before(names, prs, q, r1[0] as int, r1[k + 1] as int));
                lemma_before_asymmetric(names, prs, q, r1[0] as int, r1[k + 1] as int);
            }
            assert(t2[j - 1] == x);
            assert(t2.contains(x));
        }
        assert forall|x: usize| t2.contains(x) implies t1.contains(x) by {
            let k = choose|k: int| 0 <= k < t2.len() && t2[k] == x;
            assert(r2[k + 1] == x);
            assert(r2.contains(x));
            assert(r1.contains(x));
            let j = choose|j: int| 0 <= j < r1.len() && r1[j] == x;
            if j == 0 {
                assert(ranks_before(names, prs, q, r2[0] as int, r2[k + 1] as int));
                lemma_before_asymmetric(names, prs, q, r2[0] as int, r2[k + 1] as int);
            }
            assert(t1[j - 1] == x);
            assert(t1.contains(x));
        }
        assert forall|a: int, b: int|
            0 <= a < b < t1.len() implies ranks_before(names, prs, q, #[trigger] t1[a] as int, #[trigger] t1[b] as int) by {
            assert(t1[a] == r1[a + 1]);
            assert(t1[b] == r1[b + 1]);
        }
        assert forall|a: int, b: int|
            0 <= a < b < t2.len() implies ranks_before(names, prs, q, #[trigger] t2[a] as int, #[trigger] t2[b] as int) by {
            assert(t2[a] == r2[a + 1]);
            assert(t2[b] == r2[b + 1]);
        }
        lemma_sorted_same_elements(names, prs, q, t1, t2);
        assert forall|k: int| 0 <= k < r1.len() implies r1[k] == r2[k] by {
            if k > 0 {
                assert(t1[k - 1] == t2[k - 1]);
            }
        }
        assert(r1.len() == r2.len()) by {
            assert(t1.len() == t2.len());
        }
    }
}

/// Law: with an empty query, the ranking is the whole collection — every
/// index appears, and the order is ascending priority with ties broken by
/// ascending original index.
pub proof fn lemma_empty_query_full_view(
    names: Seq<Seq<char>>,
    prs: Seq<u8>,
    q: Seq<char>,
    r: Seq<usize>,
)
    requires
        names.len() == prs.len(),
        names.len() <= usize::MAX,
        q.len() == 0,
        ranked_ok(names, prs, q, r),
    ensures
        r.len() == names.len(),
        forall|i: int| 0 <= i < names.len() ==> r.contains(#[trigger] (i as usize)),
        forall|a: int, b: int|
            0 <= a < b < r.len() ==> (prs[r[a] as int] < prs[r[b] as int] || (prs[r[a] as int]
                == prs[r[b] as int] && r[a] < r[b])),
{
    assert forall|a: int, b: int| 0 <= a < b < r.len() implies r[a] != r[b] by {
        assert(ranks_before(names, prs, q, r[a] as int, r[b] as int));
    }
    lemma_distinct_bounded_contains_all_len(names.len() as nat, r);
}

/// A sequence of pairwise-distinct indices, each below `n`, that contains
/// every index below `n`, has length exactly `n`.
proof fn lemma_distinct_bounded_contains_all_len(n: nat, r: Seq<usize>)
    requires
        n <= usize::MAX,
        forall|k: int| 0 <= k < r.len() ==> (#[trigger] r[k]) < n,
        forall|a: int, b: int| 0 <= a < b < r.len() ==> r[a] != r[b],
        forall|i: int| 0 <= i < n ==> r.contains(#[trigger] (i as usize)),
    ensures
        r.len() == n,
{
    let ri = r.map_values(|u: usize| u as int);
    assert forall|a: int, b: int| 0 <= a < b < ri.len() implies ri[a] != ri[b] by {
        assert(ri[a] == r[a] as int);
        assert(ri[b] == r[b] as int);
    }
    assert(ri.no_duplicates());
    ri.unique_seq_to_set();
    assert(ri.to_set() =~= vstd::set_lib::set_int_range(0, n as int)) by {
        assert forall|e: int| ri.to_set().contains(e) implies 0 <= e < n by {
            let k = choose|k: int| 0 <= k < ri.len() && ri[k] == e;
            assert(ri[k] == r[k] as int);
            assert(r[k] < n);
        }
        assert forall|e: int| 0 <= e < n implies ri.to_set().contains(e) by {
            assert(r.contains(e as usize));
            let k = choose|k: int| 0 <= k < r.len() && r[k] == e as usize;
            assert(ri[k] == r[k] as int);
            assert(ri[k] == e);
            assert(ri.contains(e));
        }
    }
    vstd::set_lib::lemma_int_range(0, n as int);
}

} // verus!
