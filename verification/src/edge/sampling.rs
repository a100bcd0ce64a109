//! Stratified sampling: the messages are grouped by geohash, and a random
//! sample of a given size is drawn from each group.

use rand::seq::IteratorRandom;
use vstd::prelude::*;

use crate::config::utils::string_views;

verus! {

/// Whether `groups` splits the positions of `keys` into strata: each stratum
/// is a non-empty, increasing list of positions that share one key, no two
/// strata share a key, and every position lies in a stratum.
pub open spec fn is_stratification(keys: Seq<Seq<char>>, groups: Seq<Seq<usize>>) -> bool {
    &&& forall|g: int| 0 <= g < groups.len() ==> #[trigger] groups[g].len() > 0
    &&& forall|g: int, a: int|
        0 <= g < groups.len() && 0 <= a < groups[g].len() ==> #[trigger] groups[g][a] < keys.len()
    &&& forall|g: int, a: int, b: int|
        0 <= g < groups.len() && 0 <= a < b < groups[g].len() ==> #[trigger] groups[g][a]
            < #[trigger] groups[g][b]
    &&& forall|g: int, a: int|
        0 <= g < groups.len() && 0 <= a < groups[g].len() ==> keys[#[trigger] groups[g][a] as int]
            == keys[groups[g][0] as int]
    &&& forall|g1: int, g2: int|
        0 <= g1 < g2 < groups.len() ==> keys[#[trigger] groups[g1][0] as int] != keys[
            #[trigger] groups[g2][0] as int]
    &&& forall|i: int| 0 <= i < keys.len() ==> #[trigger] is_covered(groups, i)
}

/// Whether the position `i` lies in one of the `groups`.
pub open spec fn is_covered(groups: Seq<Seq<usize>>, i: int) -> bool {
    exists|g: int, a: int| 0 <= g < groups.len() && 0 <= a < groups[g].len() && #[trigger] groups[g][a] == i
}

/// The contents of a list of lists of positions.
pub open spec fn group_views(groups: Seq<Vec<usize>>) -> Seq<Seq<usize>> {
    groups.map_values(|g: Vec<usize>| g@)
}

/// Whether `pick` may be what is drawn from `group` for a sample of `size`:
/// `size` positions of the group (all of them, in order, when it has no
/// more), none drawn more often than it occurs.
pub open spec fn is_pick(pick: Seq<usize>, group: Seq<usize>, size: usize) -> bool {
    &&& pick.len() == if size <= group.len() {
        size as int
    } else {
        group.len() as int
    }
    &&& pick.to_multiset().subset_of(group.to_multiset())
    &&& size >= group.len() ==> pick == group
}

/// `amount` of `items` drawn at random (`IteratorRandom::choose_multiple`
/// with `rand::thread_rng()`). The contract states what the crate documents
/// and its source shows: `amount` items, or all of them in order when
/// there are no more, each item drawn at most as often as it occurs.
#[verifier::external_body]
fn choose_multiple(items: &Vec<usize>, amount: usize) -> (r: Vec<usize>)
    ensures
        is_pick(r@, items@, amount),
{
    items.iter().cloned().choose_multiple(&mut rand::thread_rng(), amount)
}

/// The position of the stratum of `key` among the first positions `reps`.
fn stratum_of(keys: &Vec<String>, reps: &Vec<usize>, key: &String) -> (r: Option<usize>)
    requires
        forall|g: int| 0 <= g < reps.len() ==> #[trigger] reps[g] < keys.len(),
    ensures
        match r {
            Some(g) => g < reps.len() && keys[reps[g as int] as int]@ == key@,
            None => forall|g: int| 0 <= g < reps.len() ==> keys[#[trigger] reps[g] as int]@ != key@,
        },
{
    for g in 0..reps.len()
        invariant
            forall|h: int| 0 <= h < reps.len() ==> #[trigger] reps[h] < keys.len(),
            forall|h: int| 0 <= h < g ==> keys[#[trigger] reps[h] as int]@ != key@,
    {
        if keys[reps[g]] == *key {
            return Some(g);
        }
    }
    None
}

/// The positions `k < n` with `ids[k] == g`, in increasing order.
fn positions_of(ids: &Vec<usize>, g: usize) -> (r: Vec<usize>)
    ensures
        forall|a: int| 0 <= a < r.len() ==> #[trigger] r[a] < ids.len() && ids[r[a] as int] == g,
        forall|a: int, b: int| 0 <= a < b < r.len() ==> #[trigger] r[a] < #[trigger] r[b],
        forall|k: usize| k < ids.len() && ids[k as int] == g ==> #[trigger] r@.contains(k),
{
    let mut r: Vec<usize> = Vec::new();
    for k in 0..ids.len()
        invariant
            forall|a: int| 0 <= a < r.len() ==> #[trigger] r[a] < k && ids[r[a] as int] == g,
            forall|a: int, b: int| 0 <= a < b < r.len() ==> #[trigger] r[a] < #[trigger] r[b],
            forall|j: usize| j < k && ids[j as int] == g ==> #[trigger] r@.contains(j),
    {
        if ids[k] == g {
            let ghost before = r@;
            r.push(k);
            assert forall|j: usize| j < k + 1 && ids[j as int] == g implies #[trigger] r@.contains(
                j,
            ) by {
                if j < k {
                    assert(before.contains(j));
                    let a = choose|a: int| 0 <= a < before.len() && before[a] == j;
                    assert(r@[a] == j);
                } else {
                    assert(r@[r.len() - 1] == k);
                }
            }
        }
    }
    r
}

/// Groups the positions of the messages by their key (the geohash): the
/// strata in the order in which their keys first occur.
pub fn stratify(keys: &Vec<String>) -> (r: Vec<Vec<usize>>)
    ensures
        is_stratification(string_views(keys@), group_views(r@)),
        forall|g1: int, g2: int|
            0 <= g1 < g2 < r.len() ==> #[trigger] group_views(r@)[g1][0] < #[trigger] group_views(
                r@,
            )[g2][0],
{
    let ghost ks = string_views(keys@);
    // first position of each stratum, and stratum of each position
    let mut reps: Vec<usize> = Vec::new();
    let mut ids: Vec<usize> = Vec::new();
    for i in 0..keys.len()
        invariant
            ks == string_views(keys@),
            ids.len() == i,
            forall|k: int| 0 <= k < i ==> #[trigger] ids[k] < reps.len() && ks[reps[ids[k] as int] as int] == ks[k],
            forall|g: int| 0 <= g < reps.len() ==> #[trigger] reps[g] < i && ids[reps[g] as int] == g,
            forall|g1: int, g2: int|
                0 <= g1 < g2 < reps.len() ==> ks[#[trigger] reps[g1] as int] != ks[#[trigger] reps[g2] as int],
            forall|g1: int, g2: int| 0 <= g1 < g2 < reps.len() ==> #[trigger] reps[g1] < #[trigger] reps[g2],
            forall|k: int| 0 <= k < i ==> reps[#[trigger] ids[k] as int] <= k,
    {
        match stratum_of(keys, &reps, &keys[i]) {
            Some(g) => {
                ids.push(g);
            },
            None => {
                reps.push(i);
                ids.push(reps.len() - 1);
            },
        }
    }
    let mut groups: Vec<Vec<usize>> = Vec::new();
    for g in 0..reps.len()
        invariant
            ks == string_views(keys@),
            ids.len() == keys.len(),
            forall|k: int| 0 <= k < ids.len() ==> #[trigger] ids[k] < reps.len() && ks[reps[ids[k] as int] as int] == ks[k],
            forall|h: int| 0 <= h < reps.len() ==> #[trigger] reps[h] < ids.len() && ids[reps[h] as int] == h,
            forall|g1: int, g2: int|
                0 <= g1 < g2 < reps.len() ==> ks[#[trigger] reps[g1] as int] != ks[#[trigger] reps[g2] as int],
            forall|g1: int, g2: int| 0 <= g1 < g2 < reps.len() ==> #[trigger] reps[g1] < #[trigger] reps[g2],
            forall|k: int| 0 <= k < ids.len() ==> reps[#[trigger] ids[k] as int] <= k,
            forall|h: int| 0 <= h < g ==> #[trigger] groups[h][0] == reps[h],
            groups.len() == g,
            forall|h: int, a: int|
                0 <= h < g && 0 <= a < groups[h].len() ==> #[trigger] groups[h][a] < ids.len()
                    && ids[groups[h][a] as int] == h,
            forall|h: int, a: int, b: int|
                0 <= h < g && 0 <= a < b < groups[h].len() ==> #[trigger] groups[h][a]
                    < #[trigger] groups[h][b],
            forall|h: int| 0 <= h < g ==> #[trigger] groups[h].len() > 0,
            forall|h: int, k: usize|
                0 <= h < g && k < ids.len() && ids[k as int] == h ==> #[trigger] groups[h]@.contains(
                    k,
                ),
    {
        let inner = positions_of(&ids, g);
        let rep = reps[g];
        assert(ids[rep as int] == g);
        assert(inner@.contains(rep));
        proof {
            let a = choose|a: int| 0 <= a < inner@.len() && inner@[a] == rep;
            if a > 0 {
                assert(inner[0] < inner[a]);
            }
            assert(ids[inner[0] as int] == g);
            assert(reps[ids[inner[0] as int] as int] <= inner[0]);
            assert(inner[0] == rep);
        }
        groups.push(inner);
    }
    let ghost gs = group_views(groups@);
    assert(ks.len() == keys.len());
    assert forall|g: int| 0 <= g < gs.len() implies #[trigger] gs[g] == groups[g]@ by {}
    assert forall|g: int| 0 <= g < gs.len() implies #[trigger] gs[g].len() > 0 by {
        assert(gs[g] == groups[g]@);
        assert(groups[g].len() > 0);
    }
    assert forall|g: int, a: int| 0 <= g < gs.len() && 0 <= a < gs[g].len() implies #[trigger] gs[g][a]
        < ks.len() by {
        assert(gs[g] == groups[g]@);
    }
    assert forall|g: int, a: int, b: int|
        0 <= g < gs.len() && 0 <= a < b < gs[g].len() implies #[trigger] gs[g][a] < #[trigger] gs[g][b] by {
        assert(gs[g] == groups[g]@);
    }
    assert forall|g: int, a: int|
        0 <= g < gs.len() && 0 <= a < gs[g].len() implies ks[#[trigger] gs[g][a] as int] == ks[
        gs[g][0] as int] by {
        assert(gs[g] == groups[g]@);
        assert(ids[gs[g][a] as int] == g);
        assert(ids[gs[g][0] as int] == g);
    }
    assert forall|g1: int, g2: int| 0 <= g1 < g2 < gs.len() implies ks[#[trigger] gs[g1][0] as int]
        != ks[#[trigger] gs[g2][0] as int] by {
        assert(gs[g1] == groups[g1]@);
        assert(gs[g2] == groups[g2]@);
        assert(ids[gs[g1][0] as int] == g1);
        assert(ids[gs[g2][0] as int] == g2);
    }
    assert forall|i: int| 0 <= i < ks.len() implies #[trigger] is_covered(gs, i) by {
        let g = ids[i] as int;
        let k = i as usize;
        assert(groups[g]@.contains(k));
        let a = choose|a: int| 0 <= a < groups[g]@.len() && groups[g]@[a] == k;
        assert(gs[g] == groups[g]@);
        assert(gs[g][a] == i);
    }
    assert(is_stratification(ks, gs));
    assert forall|g1: int, g2: int| 0 <= g1 < g2 < groups.len() implies #[trigger] gs[g1][0]
        < #[trigger] gs[g2][0] by {
        assert(gs[g1] == groups[g1]@);
        assert(gs[g2] == groups[g2]@);
        assert(groups[g1][0] == reps[g1]);
        assert(groups[g2][0] == reps[g2]);
    }
    groups
}

/// Draws from each stratum a random sample of the size given for it, and
/// returns the positions drawn, stratum after stratum.
pub fn select_sample(groups: &Vec<Vec<usize>>, sizes: &Vec<usize>) -> (r: Vec<usize>)
    requires
        sizes.len() == groups.len(),
    ensures
        exists|picks: Seq<Seq<usize>>|
            {
                &&& picks.len() == groups.len()
                &&& forall|g: int|
                    0 <= g < groups.len() ==> #[trigger] is_pick(picks[g], groups[g]@, sizes[g])
                &&& r@ == picks.flatten()
            },
{
    let mut r: Vec<usize> = Vec::new();
    let ghost mut picks: Seq<Seq<usize>> = Seq::empty();
    for g in 0..groups.len()
        invariant
            sizes.len() == groups.len(),
            picks.len() == g,
            forall|h: int| 0 <= h < g ==> #[trigger] is_pick(picks[h], groups[h]@, sizes[h]),
            r@ == picks.flatten(),
    {
        let pick = choose_multiple(&groups[g], sizes[g]);
        let ghost before = r@;
        let mut j: usize = 0;
        while j < pick.len()
            invariant
                j <= pick.len(),
                r@ == before + pick@.take(j as int),
            decreases pick.len() - j,
        {
            r.push(pick[j]);
            j = j + 1;
            assert(r@ =~= before + pick@.take(j as int));
        }
        assert(pick@.take(pick.len() as int) =~= pick@);
        proof {
            picks.lemma_flatten_push(pick@);
            picks = picks.push(pick@);
        }
    }
    r
}

/// Every position lies in exactly one stratum, at exactly one place.
pub proof fn lemma_strata_disjoint(
    keys: Seq<Seq<char>>,
    groups: Seq<Seq<usize>>,
    g1: int,
    a1: int,
    g2: int,
    a2: int,
)
    requires
        is_stratification(keys, groups),
        0 <= g1 < groups.len(),
        0 <= a1 < groups[g1].len(),
        0 <= g2 < groups.len(),
        0 <= a2 < groups[g2].len(),
        groups[g1][a1] == groups[g2][a2],
    ensures
        g1 == g2,
        a1 == a2,
{
    let x = groups[g1][a1] as int;
    assert(keys[x] == keys[groups[g1][0] as int]);
    assert(keys[groups[g2][a2] as int] == keys[groups[g2][0] as int]);
    if g1 < g2 {
        assert(keys[groups[g1][0] as int] != keys[groups[g2][0] as int]);
    } else if g2 < g1 {
        assert(keys[groups[g2][0] as int] != keys[groups[g1][0] as int]);
    }
    if a1 < a2 {
        assert(groups[g1][a1] < groups[g1][a2]);
    } else if a2 < a1 {
        assert(groups[g1][a2] < groups[g1][a1]);
    }
}

/// When no stratum is asked for fewer positions than it holds, the sample
/// keeps every position, stratum after stratum.
pub proof fn lemma_full_sample(groups: Seq<Seq<usize>>, sizes: Seq<usize>, picks: Seq<Seq<usize>>)
    requires
        picks.len() == groups.len(),
        sizes.len() == groups.len(),
        forall|g: int| 0 <= g < groups.len() ==> #[trigger] is_pick(picks[g], groups[g], sizes[g]),
        forall|g: int| 0 <= g < groups.len() ==> #[trigger] sizes[g] >= groups[g].len(),
    ensures
        picks.flatten() == groups.flatten(),
{
    assert forall|g: int| 0 <= g < groups.len() implies #[trigger] picks[g] == groups[g] by {
        assert(is_pick(picks[g], groups[g], sizes[g]));
        assert(sizes[g] >= groups[g].len());
    }
    assert(picks =~= groups);
}

/// What is drawn from a list without duplicates holds no duplicates, and
/// only elements of that list.
proof fn lemma_pick_within(pick: Seq<usize>, group: Seq<usize>, size: usize)
    requires
        is_pick(pick, group, size),
        group.no_duplicates(),
    ensures
        pick.no_duplicates(),
        forall|x: usize| pick.contains(x) ==> #[trigger] group.contains(x),
{
    broadcast use vstd::seq_lib::group_to_multiset_ensures;

    group.lemma_multiset_has_no_duplicates();
    assert forall|x: usize| pick.to_multiset().contains(x) implies #[trigger] pick.to_multiset().count(
        x,
    ) == 1 by {
        assert(pick.to_multiset().count(x) <= group.to_multiset().count(x));
        assert(group.to_multiset().contains(x));
    }
    pick.lemma_multiset_has_no_duplicates_conv();
    assert forall|x: usize| pick.contains(x) implies #[trigger] group.contains(x) by {
        assert(pick.to_multiset().count(x) > 0);
        assert(pick.to_multiset().count(x) <= group.to_multiset().count(x));
    }
}

/// An element of a flattened list of lists lies in one of the lists.
proof fn lemma_flatten_member(s: Seq<Seq<usize>>, y: usize)
    requires
        s.flatten().contains(y),
    ensures
        exists|g: int| 0 <= g < s.len() && #[trigger] s[g].contains(y),
    decreases s.len(),
{
    let rest = s.drop_first();
    assert(s.flatten() == s[0] + rest.flatten());
    let k = choose|k: int| 0 <= k < s.flatten().len() && s.flatten()[k] == y;
    if k < s[0].len() {
        assert(s[0][k] == y);
        assert(s[0].contains(y));
    } else {
        assert(rest.flatten()[k - s[0].len()] == y);
        lemma_flatten_member(rest, y);
        let g = choose|g: int| 0 <= g < rest.len() && #[trigger] rest[g].contains(y);
        assert(s[g + 1] == rest[g]);
    }
}

/// Lists without duplicates that share no element flatten to a list
/// without duplicates.
proof fn lemma_flatten_no_duplicates(s: Seq<Seq<usize>>)
    requires
        forall|g: int| 0 <= g < s.len() ==> #[trigger] s[g].no_duplicates(),
        forall|g1: int, g2: int, x: usize|
            0 <= g1 < g2 < s.len() && #[trigger] s[g1].contains(x) ==> !#[trigger] s[g2].contains(x),
    ensures
        s.flatten().no_duplicates(),
    decreases s.len(),
{
    if s.len() > 0 {
        let rest = s.drop_first();
        assert forall|g1: int, g2: int, x: usize|
            0 <= g1 < g2 < rest.len() && #[trigger] rest[g1].contains(x) implies !#[trigger] rest[g2].contains(
            x,
        ) by {
            assert(rest[g1] == s[g1 + 1]);
            assert(rest[g2] == s[g2 + 1]);
        }
        assert forall|g: int| 0 <= g < rest.len() implies #[trigger] rest[g].no_duplicates() by {
            assert(rest[g] == s[g + 1]);
        }
        lemma_flatten_no_duplicates(rest);
        assert forall|i: int, j: int|
            0 <= i < s[0].len() && 0 <= j < rest.flatten().len() implies s[0][i] != rest.flatten()[j] by {
            let y = rest.flatten()[j];
            assert(rest.flatten().contains(y));
            lemma_flatten_member(rest, y);
            let g = choose|g: int| 0 <= g < rest.len() && #[trigger] rest[g].contains(y);
            assert(s[g + 1] == rest[g]);
            if s[0][i] == y {
                assert(s[0].contains(y));
            }
        }
        vstd::seq_lib::lemma_no_dup_in_concat(s[0], rest.flatten());
        assert(s.flatten() == s[0] + rest.flatten());
    }
}

/// A stratified sample draws each message at most once: the positions it
/// draws from the strata are all different.
pub proof fn lemma_sample_distinct(
    keys: Seq<Seq<char>>,
    groups: Seq<Seq<usize>>,
    sizes: Seq<usize>,
    picks: Seq<Seq<usize>>,
)
    requires
        is_stratification(keys, groups),
        picks.len() == groups.len(),
        sizes.len() == groups.len(),
        forall|g: int| 0 <= g < groups.len() ==> #[trigger] is_pick(picks[g], groups[g], sizes[g]),
    ensures
        picks.flatten().no_duplicates(),
{
    assert forall|g: int| 0 <= g < groups.len() implies #[trigger] groups[g].no_duplicates() by {
        assert forall|a: int, b: int|
            0 <= a < groups[g].len() && 0 <= b < groups[g].len() && a != b implies groups[g][a]
            != groups[g][b] by {
            if a < b {
                assert(groups[g][a] < groups[g][b]);
            } else {
                assert(groups[g][b] < groups[g][a]);
            }
        }
    }
    assert forall|g: int| 0 <= g < picks.len() implies #[trigger] picks[g].no_duplicates() by {
        assert(groups[g].no_duplicates());
        lemma_pick_within(picks[g], groups[g], sizes[g]);
    }
    assert forall|g1: int, g2: int, x: usize|
        0 <= g1 < g2 < picks.len() && #[trigger] picks[g1].contains(x) implies !#[trigger] picks[g2].contains(
        x,
    ) by {
        assert(groups[g1].no_duplicates());
        lemma_pick_within(picks[g1], groups[g1], sizes[g1]);
        assert(groups[g1].contains(x));
        if picks[g2].contains(x) {
            assert(groups[g2].no_duplicates());
            lemma_pick_within(picks[g2], groups[g2], sizes[g2]);
            assert(groups[g2].contains(x));
            let a1 = choose|a: int| 0 <= a < groups[g1].len() && groups[g1][a] == x;
            let a2 = choose|a: int| 0 <= a < groups[g2].len() && groups[g2][a] == x;
            lemma_strata_disjoint(keys, groups, g1, a1, g2, a2);
        }
    }
    lemma_flatten_no_duplicates(picks);
}

/// The number of positions a sample draws: for each stratum, its size or,
/// when it holds fewer, all of its positions.
pub open spec fn sample_size(groups: Seq<Seq<usize>>, sizes: Seq<usize>) -> nat
    decreases groups.len(),
{
    if groups.len() == 0 || sizes.len() == 0 {
        0
    } else {
        sample_size(groups.drop_last(), sizes.drop_last()) + if sizes.last() <= groups.last().len() {
            sizes.last() as nat
        } else {
            groups.last().len()
        }
    }
}

/// A sample holds exactly [`sample_size`] positions.
pub proof fn lemma_sample_length(groups: Seq<Seq<usize>>, sizes: Seq<usize>, picks: Seq<Seq<usize>>)
    requires
        picks.len() == groups.len(),
        sizes.len() == groups.len(),
        forall|g: int| 0 <= g < groups.len() ==> #[trigger] is_pick(picks[g], groups[g], sizes[g]),
    ensures
        picks.flatten().len() == sample_size(groups, sizes),
    decreases groups.len(),
{
    if groups.len() > 0 {
        let n = groups.len() - 1;
        assert forall|g: int| 0 <= g < n implies #[trigger] is_pick(
            picks.drop_last()[g],
            groups.drop_last()[g],
            sizes.drop_last()[g],
        ) by {
            assert(is_pick(picks[g], groups[g], sizes[g]));
        }
        lemma_sample_length(groups.drop_last(), sizes.drop_last(), picks.drop_last());
        picks.drop_last().lemma_flatten_push(picks.last());
        assert(picks.drop_last().push(picks.last()) =~= picks);
        assert(is_pick(picks[n], groups[n], sizes[n]));
    }
}

} // verus!
