//! Reconciling declared targets against the paths discovered in the
//! build tool's diagnostic output.
//!
//! A declared name is matched to a discovered candidate whose file name
//! contains it, because the build tool emits content-hashed, not logical,
//! names.  Every candidate is consumed at most once.  The tie-break is
//! deterministic and documented here: an exact file-name match is
//! preferred over mere containment, and names are processed longest
//! first, earlier declaration first among equal lengths, so that a name
//! that is a substring of another cannot steal the longer name's
//! candidate.

use vstd::prelude::*;

use crate::errors::BuildError;
use crate::text::{contains_seq, contains_sub, file_name, file_name_spec, str_eq, str_views};

verus! {

/// A discovered candidate satisfies a declared name when its file name
/// contains the name.
pub open spec fn cand_matches(cand: Seq<char>, name: Seq<char>) -> bool {
    contains_seq(file_name_spec(cand), name)
}

/// A candidate whose file name is exactly the declared name.
pub open spec fn cand_exact(cand: Seq<char>, name: Seq<char>) -> bool {
    file_name_spec(cand) == name
}

/// The processing order of the resolver: longest declared name first,
/// declaration order among names of equal length, every declared index
/// exactly once.
pub open spec fn is_length_order(dn: Seq<Seq<char>>, order: Seq<int>) -> bool {
    &&& order.len() == dn.len()
    &&& (forall|k: int| 0 <= k < order.len() ==> 0 <= #[trigger] order[k] < dn.len())
    &&& (forall|i: int| 0 <= i < dn.len() ==> order.contains(i))
    &&& (forall|k1: int, k2: int|
        0 <= k1 < k2 < order.len() ==> dn[#[trigger] order[k1]].len() >= dn[#[trigger] order[k2]].len())
    &&& (forall|k1: int, k2: int|
        0 <= k1 < k2 < order.len() && dn[#[trigger] order[k1]].len() == dn[#[trigger] order[k2]].len()
            ==> order[k1] < order[k2])
}

pub open spec fn idx_views(v: Seq<usize>) -> Seq<int> {
    v.map_values(|u: usize| u as int)
}

/// The resolver's processing order for these declared names.
pub fn order_indices(names: &Vec<String>) -> (ord: Vec<usize>)
    ensures
        is_length_order(str_views(names@), idx_views(ord@)),
{
    let ghost dn = str_views(names@);
    let mut ord: Vec<usize> = Vec::new();
    let mut idx: usize = 0;
    while idx < names.len()
        invariant
            idx <= names@.len(),
            dn == str_views(names@),
            dn.len() == names@.len(),
            ord@.len() == idx,
            forall|k: int| 0 <= k < ord@.len() ==> (#[trigger] ord@[k]) < idx,
            forall|i: int| 0 <= i < idx ==> idx_views(ord@).contains(i),
            forall|k1: int, k2: int|
                0 <= k1 < k2 < ord@.len() ==> dn[(#[trigger] ord@[k1]) as int].len() >= dn[(
                #[trigger] ord@[k2]) as int].len(),
            forall|k1: int, k2: int|
                0 <= k1 < k2 < ord@.len() && dn[(#[trigger] ord@[k1]) as int].len() == dn[(
                #[trigger] ord@[k2]) as int].len() ==> ord@[k1] < ord@[k2],
        decreases names@.len() - idx,
    {
        let len_new = names[idx].as_str().unicode_len();
        proof {
            assert(dn[idx as int] == names@[idx as int]@);
        }
        let mut p: usize = 0;
        while p < ord.len() && names[ord[p]].as_str().unicode_len() >= len_new
            invariant
                p <= ord@.len(),
                dn == str_views(names@),
                dn.len() == names@.len(),
                idx < names@.len(),
                len_new == dn[idx as int].len(),
                ord@.len() == idx,
                forall|k: int| 0 <= k < ord@.len() ==> (#[trigger] ord@[k]) < idx,
                forall|k: int| 0 <= k < p ==> dn[(#[trigger] ord@[k]) as int].len() >= len_new,
            decreases ord@.len() - p,
        {
            proof {
                assert(dn[ord@[p as int] as int] == names@[ord@[p as int] as int]@);
            }
            p += 1;
        }
        proof {
            let ov = ord@;
            ov.insert_ensures(p as int, idx);
            let nv = ov.insert(p as int, idx);
            if p < ov.len() {
                assert(dn[ord@[p as int] as int] == names@[ord@[p as int] as int]@);
                assert(dn[(ov[p as int]) as int].len() < len_new);
                // entries past the insertion point were already no longer
                // than the one at it, so all are strictly shorter
                assert forall|k: int| p <= k < ov.len() implies dn[(#[trigger] ov[k]) as int].len()
                    < len_new by {
                    if k > p {
                        assert(dn[(ov[p as int]) as int].len() >= dn[(ov[k]) as int].len());
                    }
                }
            }
            assert forall|i: int| 0 <= i < idx + 1 implies idx_views(nv).contains(i) by {
                if i == idx {
                    assert(idx_views(nv)[p as int] == i);
                } else {
                    assert(idx_views(ov).contains(i));
                    let k = choose|k: int|
                        0 <= k < idx_views(ov).len() && idx_views(ov)[k] == i;
                    if k < p {
                        assert(idx_views(nv)[k] == i);
                    } else {
                        assert(idx_views(nv)[k + 1] == i);
                    }
                }
            }
        }
        ord.insert(p, idx);
        idx += 1;
    }
    proof {
        let ov = idx_views(ord@);
        assert forall|k: int| 0 <= k < ov.len() implies 0 <= #[trigger] ov[k] < dn.len() by {
            assert(ov[k] == ord@[k] as int);
        }
        assert forall|k1: int, k2: int| 0 <= k1 < k2 < ov.len() implies dn[#[trigger] ov[k1]].len()
            >= dn[#[trigger] ov[k2]].len() by {
            assert(ov[k1] == ord@[k1] as int);
            assert(ov[k2] == ord@[k2] as int);
        }
        assert forall|k1: int, k2: int|
            0 <= k1 < k2 < ov.len() && dn[#[trigger] ov[k1]].len() == dn[#[trigger] ov[k2]].len()
            implies ov[k1] < ov[k2] by {
            assert(ov[k1] == ord@[k1] as int);
            assert(ov[k2] == ord@[k2] as int);
        }
    }
    ord
}

/// One kind of match test: exact file name, or containment.
pub open spec fn match_kind(cand: Seq<char>, name: Seq<char>, exact: bool) -> bool {
    if exact {
        cand_exact(cand, name)
    } else {
        cand_matches(cand, name)
    }
}

/// The lowest unconsumed candidate index at or past `i` whose file name
/// passes the match test, or nothing.
pub open spec fn first_match_from(
    dc: Seq<Seq<char>>,
    used: Seq<bool>,
    name: Seq<char>,
    i: int,
    exact: bool,
) -> Option<int>
    decreases dc.len() - i,
{
    if i < 0 || i >= dc.len() {
        Option::None
    } else if !used[i] && match_kind(dc[i], name, exact) {
        Option::Some(i)
    } else {
        first_match_from(dc, used, name, i + 1, exact)
    }
}

/// The candidate the resolver consumes for one declared name: the first
/// unconsumed exact file-name match, else the first unconsumed
/// containment match.
pub open spec fn pick_candidate(dc: Seq<Seq<char>>, used: Seq<bool>, name: Seq<char>) -> Option<
    int,
> {
    match first_match_from(dc, used, name, 0, true) {
        Option::Some(c) => Option::Some(c),
        Option::None => first_match_from(dc, used, name, 0, false),
    }
}

pub open spec fn unused_row(n: int) -> Seq<bool> {
    Seq::new(n as nat, |i: int| false)
}

/// The whole resolution, one declared name after the other in processing
/// order, consuming each picked candidate: either an assignment from
/// declared index to candidate index, or the first declared index that
/// found no candidate.
pub open spec fn greedy_assign(
    dn: Seq<Seq<char>>,
    order: Seq<int>,
    dc: Seq<Seq<char>>,
    used: Seq<bool>,
    k: int,
) -> Result<Map<int, int>, int>
    decreases order.len() - k,
{
    if k < 0 || k >= order.len() {
        Result::Ok(Map::empty())
    } else {
        match pick_candidate(dc, used, dn[order[k]]) {
            Option::None => Result::Err(order[k]),
            Option::Some(c) => match greedy_assign(dn, order, dc, used.update(c, true), k + 1) {
                Result::Ok(m) => Result::Ok(m.insert(order[k], c)),
                Result::Err(e) => Result::Err(e),
            },
        }
    }
}

/// What the resolver returns, pinned to the greedy specification under
/// the given processing order.
pub open spec fn resolve_post(
    dn: Seq<Seq<char>>,
    dc: Seq<Seq<char>>,
    r: Result<Vec<usize>, BuildError>,
    order: Seq<int>,
) -> bool {
    match greedy_assign(dn, order, dc, unused_row(dc.len() as int), 0) {
        Result::Ok(m) => match r {
            Result::Ok(v) => v@.len() == dn.len() && (forall|i: int|
                0 <= i < dn.len() ==> m.contains_key(i) && ((#[trigger] v@[i]) as int == m[i])),
            Result::Err(_) => false,
        },
        Result::Err(e) => match r {
            Result::Err(be) => match be {
                BuildError::ArtifactNotFound(nm) => 0 <= e < dn.len() && nm@ == dn[e],
                _ => false,
            },
            Result::Ok(_) => false,
        },
    }
}

/// The processing order never repeats a declared index.
pub proof fn lemma_order_injective(dn: Seq<Seq<char>>, order: Seq<int>)
    requires
        is_length_order(dn, order),
    ensures
        forall|k1: int, k2: int| 0 <= k1 < k2 < order.len() ==> order[k1] != order[k2],
{
    assert forall|k1: int, k2: int| 0 <= k1 < k2 < order.len() implies order[k1] != order[k2] by {
        if order[k1] == order[k2] {
            assert(dn[order[k1]].len() == dn[order[k2]].len());
        }
    }
}

fn find_candidate(cands: &Vec<String>, used: &Vec<bool>, name: &str, exact: bool) -> (r: Option<
    usize,
>)
    requires
        used@.len() == cands@.len(),
    ensures
        match r {
            Option::Some(c) => first_match_from(str_views(cands@), used@, name@, 0, exact)
                == Option::Some(c as int),
            Option::None => first_match_from(str_views(cands@), used@, name@, 0, exact)
                == Option::None::<int>,
        },
{
    let ghost dc = str_views(cands@);
    let mut c: usize = 0;
    while c < cands.len()
        invariant
            c <= cands@.len(),
            used@.len() == cands@.len(),
            dc == str_views(cands@),
            dc.len() == cands@.len(),
            first_match_from(dc, used@, name@, 0, exact) == first_match_from(
                dc,
                used@,
                name@,
                c as int,
                exact,
            ),
        decreases cands@.len() - c,
    {
        proof {
            assert(dc[c as int] == cands@[c as int]@);
        }
        if !used[c] {
            let fname = file_name(cands[c].as_str());
            let hit = if exact {
                str_eq(fname.as_str(), name)
            } else {
                contains_sub(fname.as_str(), name)
            };
            if hit {
                return Option::Some(c);
            }
        }
        c += 1;
    }
    Option::None
}

/// One path per declared name: `r[i]` is the index of the candidate
/// consumed for `names[i]`.  Which index that is, and when resolution
/// fails instead, is pinned by the greedy specification under the
/// documented processing order.
pub fn resolve(names: &Vec<String>, cands: &Vec<String>) -> (r: Result<Vec<usize>, BuildError>)
    ensures
        exists|order: Seq<int>|
            #[trigger] is_length_order(str_views(names@), order) && resolve_post(
                str_views(names@),
                str_views(cands@),
                r,
                order,
            ),
        match r {
            Result::Ok(v) => {
                &&& v@.len() == names@.len()
                &&& (forall|i: int|
                    0 <= i < v@.len() ==> ((#[trigger] v@[i]) as int) < cands@.len()
                        && cand_matches(str_views(cands@)[v@[i] as int], str_views(names@)[i]))
                &&& (forall|i1: int, i2: int|
                    0 <= i1 < i2 < v@.len() ==> v@[i1] != v@[i2])
            },
            Result::Err(be) => be matches BuildError::ArtifactNotFound(_),
        },
{
    let ghost dn = str_views(names@);
    let ghost dc = str_views(cands@);
    let order = order_indices(names);
    let ghost ov = idx_views(order@);
    proof {
        lemma_order_injective(dn, ov);
    }
    let mut used: Vec<bool> = Vec::new();
    while used.len() < cands.len()
        invariant
            used@.len() <= cands@.len(),
            forall|j: int| 0 <= j < used@.len() ==> !(#[trigger] used@[j]),
        decreases cands@.len() - used@.len(),
    {
        used.push(false);
    }
    let mut res: Vec<usize> = Vec::new();
    while res.len() < names.len()
        invariant
            res@.len() <= names@.len(),
        decreases names@.len() - res@.len(),
    {
        res.push(0);
    }
    let ghost mut assigned: Map<int, int> = Map::empty();
    proof {
        assert(used@ =~= unused_row(dc.len() as int));
        let g = greedy_assign(dn, ov, dc, used@, 0);
        if g is Ok {
            assert(g->Ok_0.union_prefer_right(assigned) =~= g->Ok_0);
        }
    }
    let mut k: usize = 0;
    while k < order.len()
        invariant
            k <= order@.len(),
            dn == str_views(names@),
            dc == str_views(cands@),
            ov == idx_views(order@),
            dn.len() == names@.len(),
            dc.len() == cands@.len(),
            is_length_order(dn, ov),
            forall|k1: int, k2: int| 0 <= k1 < k2 < ov.len() ==> ov[k1] != ov[k2],
            used@.len() == cands@.len(),
            res@.len() == names@.len(),
            forall|j: int| 0 <= j < k ==> assigned.contains_key(#[trigger] ov[j]),
            forall|i: int|
                #[trigger] assigned.contains_key(i) ==> ov.subrange(0, k as int).contains(i),
            forall|i: int|
                #[trigger] assigned.contains_key(i) ==> 0 <= i < dn.len() && 0 <= assigned[i]
                    < dc.len() && res@[i] as int == assigned[i] && used@[assigned[i]]
                    && cand_matches(dc[assigned[i]], dn[i]),
            forall|i1: int, i2: int|
                assigned.contains_key(i1) && assigned.contains_key(i2) && i1 != i2
                    ==> assigned[i1] != assigned[i2],
            match greedy_assign(dn, ov, dc, used@, k as int) {
                Result::Ok(m) => greedy_assign(dn, ov, dc, unused_row(dc.len() as int), 0)
                    == Result::Ok::<Map<int, int>, int>(m.union_prefer_right(assigned)),
                Result::Err(e) => greedy_assign(dn, ov, dc, unused_row(dc.len() as int), 0)
                    == Result::Err::<Map<int, int>, int>(e),
            },
        decreases order@.len() - k,
    {
        let ni = order[k];
        proof {
            assert(ov[k as int] == ni as int);
            assert(0 <= ov[k as int] < dn.len());
            assert(dn[ni as int] == names@[ni as int]@);
        }
        let exact_hit = find_candidate(cands, &used, names[ni].as_str(), true);
        let pick = match exact_hit {
            Option::Some(c) => Option::Some(c),
            Option::None => find_candidate(cands, &used, names[ni].as_str(), false),
        };
        match pick {
            Option::None => {
                proof {
                    assert(pick_candidate(dc, used@, dn[ni as int]) == Option::None::<int>);
                    assert(greedy_assign(dn, ov, dc, used@, k as int) == Result::Err::<
                        Map<int, int>,
                        int,
                    >(ni as int));
                }
                let nm = names[ni].clone();
                proof {
                    assert(resolve_post(
                        dn,
                        dc,
                        Result::Err::<Vec<usize>, BuildError>(BuildError::ArtifactNotFound(nm)),
                        ov,
                    ));
                }
                return Result::Err(BuildError::ArtifactNotFound(nm));
            },
            Option::Some(c) => {
                proof {
                    assert(pick_candidate(dc, used@, dn[ni as int]) == Option::Some(c as int));
                    assert((c as int) < dc.len() && !used@[c as int] && cand_matches(
                        dc[c as int],
                        dn[ni as int],
                    )) by {
                        lemma_first_match_found_props(dc, used@, dn[ni as int], 0, true);
                        lemma_first_match_found_props(dc, used@, dn[ni as int], 0, false);
                        if first_match_from(dc, used@, dn[ni as int], 0, true) is Some {
                            lemma_exact_implies_matches(dc[c as int], dn[ni as int]);
                        }
                    }
                    assert(!assigned.contains_key(ni as int)) by {
                        if assigned.contains_key(ni as int) {
                            let j = choose|j: int|
                                0 <= j < ov.subrange(0, k as int).len() && ov.subrange(
                                    0,
                                    k as int,
                                )[j] == ni as int;
                            assert(ov[j] == ni as int);
                        }
                    }
                }
                used[c] = true;
                res[ni] = c;
                proof {
                    let prev = assigned;
                    assigned = assigned.insert(ni as int, c as int);
                    assert(ov.subrange(0, k as int).push(ni as int) =~= ov.subrange(0, k + 1));
                    assert forall|i: int| #[trigger] assigned.contains_key(i) implies ov.subrange(
                        0,
                        k + 1,
                    ).contains(i) by {
                        if i == ni as int {
                            assert(ov.subrange(0, k + 1)[k as int] == i);
                        } else {
                            let j = choose|j: int|
                                0 <= j < ov.subrange(0, k as int).len() && ov.subrange(
                                    0,
                                    k as int,
                                )[j] == i;
                            assert(ov.subrange(0, k + 1)[j] == i);
                        }
                    }
                    match greedy_assign(dn, ov, dc, used@, k + 1) {
                        Result::Ok(m2) => {
                            assert(greedy_assign(dn, ov, dc, used@, k + 1) == Result::Ok::<
                                Map<int, int>,
                                int,
                            >(m2));
                            assert(m2.insert(ni as int, c as int).union_prefer_right(prev)
                                =~= m2.union_prefer_right(assigned));
                        },
                        Result::Err(_) => {},
                    }
                }
                k += 1;
            },
        }
    }
    proof {
        let g_end = greedy_assign(dn, ov, dc, used@, k as int);
        assert(g_end == Result::Ok::<Map<int, int>, int>(Map::empty()));
        let g0 = greedy_assign(dn, ov, dc, unused_row(dc.len() as int), 0);
        assert(g0 == Result::Ok::<Map<int, int>, int>(
            Map::<int, int>::empty().union_prefer_right(assigned),
        ));
        assert(Map::<int, int>::empty().union_prefer_right(assigned) =~= assigned);
        assert(g0 == Result::Ok::<Map<int, int>, int>(assigned));
        assert forall|i: int| 0 <= i < dn.len() implies #[trigger] assigned.contains_key(i) && (
        res@[i] as int == assigned[i]) by {
            assert(ov.contains(i));
            let j = choose|j: int| 0 <= j < ov.len() && ov[j] == i;
            assert(assigned.contains_key(ov[j]));
        }
        assert(resolve_post(dn, dc, Result::Ok::<Vec<usize>, BuildError>(res), ov));
        assert forall|i1: int, i2: int| 0 <= i1 < i2 < res@.len() implies res@[i1] != res@[i2] by {
            assert(res@[i1] as int == assigned[i1]);
            assert(res@[i2] as int == assigned[i2]);
            assert(assigned[i1] != assigned[i2]);
        }
    }
    Result::Ok(res)
}

/// The outcome of matching one streamed announcement to one declared
/// target: the declared name, and the discovered path consumed for it.
#[derive(Debug)]
pub struct DiscoveredArtifact {
    pub declared_name: String,
    pub discovered_path: String,
}

/// What resolving into artifact pairs returns, pinned to the greedy
/// specification under the given processing order.
pub open spec fn artifacts_post(
    dn: Seq<Seq<char>>,
    dc: Seq<Seq<char>>,
    r: Result<Vec<DiscoveredArtifact>, BuildError>,
    order: Seq<int>,
) -> bool {
    match greedy_assign(dn, order, dc, unused_row(dc.len() as int), 0) {
        Result::Ok(m) => match r {
            Result::Ok(v) => v@.len() == dn.len() && (forall|i: int|
                0 <= i < dn.len() ==> #[trigger] m.contains_key(i) && v@[i].declared_name@ == dn[i]
                    && v@[i].discovered_path@ == dc[m[i]]),
            Result::Err(_) => false,
        },
        Result::Err(e) => match r {
            Result::Err(be) => match be {
                BuildError::ArtifactNotFound(nm) => 0 <= e < dn.len() && nm@ == dn[e],
                _ => false,
            },
            Result::Ok(_) => false,
        },
    }
}

/// One discovered path per declared name, paired up: the resolver's
/// outcome in its final shape.
pub fn resolve_artifacts(names: &Vec<String>, cands: &Vec<String>) -> (r: Result<
    Vec<DiscoveredArtifact>,
    BuildError,
>)
    ensures
        exists|order: Seq<int>|
            #[trigger] is_length_order(str_views(names@), order) && artifacts_post(
                str_views(names@),
                str_views(cands@),
                r,
                order,
            ),
{
    let ghost dn = str_views(names@);
    let ghost dc = str_views(cands@);
    match resolve(names, cands) {
        Result::Ok(idx) => {
            let mut out: Vec<DiscoveredArtifact> = Vec::new();
            let mut j: usize = 0;
            while j < idx.len()
                invariant
                    j <= idx@.len(),
                    idx@.len() <= names@.len(),
                    out@.len() == j,
                    forall|k: int| 0 <= k < idx@.len() ==> (#[trigger] idx@[k]) < cands@.len(),
                    forall|k: int|
                        0 <= k < j ==> (#[trigger] out@[k]).declared_name == names@[k]
                            && out@[k].discovered_path == candidates_at(cands@, idx@[k] as int),
                decreases idx@.len() - j,
            {
                out.push(
                    DiscoveredArtifact {
                        declared_name: names[j].clone(),
                        discovered_path: cands[idx[j]].clone(),
                    },
                );
                j += 1;
            }
            proof {
                let order = choose|order: Seq<int>|
                    #[trigger] is_length_order(dn, order) && resolve_post(
                        dn,
                        dc,
                        Result::Ok::<Vec<usize>, BuildError>(idx),
                        order,
                    );
                assert(artifacts_post(
                    dn,
                    dc,
                    Result::Ok::<Vec<DiscoveredArtifact>, BuildError>(out),
                    order,
                )) by {
                    match greedy_assign(dn, order, dc, unused_row(dc.len() as int), 0) {
                        Result::Ok(m) => {
                            assert forall|k: int| 0 <= k < dn.len() implies #[trigger] m.contains_key(
                                k,
                            ) && out@[k].declared_name@ == dn[k] && out@[k].discovered_path@
                                == dc[m[k]] by {
                                assert(idx@[k] as int == m[k]);
                                assert(out@[k].discovered_path == candidates_at(
                                    cands@,
                                    idx@[k] as int,
                                ));
                            }
                        },
                        Result::Err(_) => {
                            assert(false);
                        },
                    }
                }
            }
            Result::Ok(out)
        },
        Result::Err(e) => {
            proof {
                let order = choose|order: Seq<int>|
                    #[trigger] is_length_order(dn, order) && resolve_post(
                        dn,
                        dc,
                        Result::Err::<Vec<usize>, BuildError>(e),
                        order,
                    );
                assert(artifacts_post(
                    dn,
                    dc,
                    Result::Err::<Vec<DiscoveredArtifact>, BuildError>(e),
                    order,
                ));
            }
            Result::Err(e)
        },
    }
}

/// The candidate at one index, as a value the loop invariant can name.
pub open spec fn candidates_at(cands: Seq<String>, i: int) -> String {
    cands[i]
}

/// A found first match is unconsumed and passes the match test.
proof fn lemma_first_match_found_props(
    dc: Seq<Seq<char>>,
    used: Seq<bool>,
    name: Seq<char>,
    i: int,
    exact: bool,
)
    ensures
        match first_match_from(dc, used, name, i, exact) {
            Option::Some(c) => i <= c < dc.len() && !used[c] && match_kind(dc[c], name, exact),
            Option::None => true,
        },
    decreases dc.len() - i,
{
    if i < 0 || i >= dc.len() {
    } else if !used[i] && match_kind(dc[i], name, exact) {
    } else {
        lemma_first_match_found_props(dc, used, name, i + 1, exact);
    }
}

/// Some unconsumed candidate at or past `i` passes the match test, so
/// the search cannot come back empty.
proof fn lemma_first_match_exists(
    dc: Seq<Seq<char>>,
    used: Seq<bool>,
    name: Seq<char>,
    i: int,
    exact: bool,
    c: int,
)
    requires
        0 <= i <= c < dc.len(),
        !used[c],
        match_kind(dc[c], name, exact),
    ensures
        first_match_from(dc, used, name, i, exact) is Some,
    decreases c - i,
{
    if !(!used[i] && match_kind(dc[i], name, exact)) {
        lemma_first_match_exists(dc, used, name, i + 1, exact, c);
    }
}

proof fn lemma_greedy_succeeds(
    dn: Seq<Seq<char>>,
    order: Seq<int>,
    dc: Seq<Seq<char>>,
    used: Seq<bool>,
    k: int,
)
    requires
        order.len() == dn.len(),
        forall|kk: int| 0 <= kk < order.len() ==> 0 <= #[trigger] order[kk] < dn.len(),
        forall|k1: int, k2: int| 0 <= k1 < k2 < order.len() ==> order[k1] != order[k2],
        0 <= k <= order.len(),
        used.len() == dc.len(),
        forall|i: int|
            0 <= i < dn.len() ==> exists|c: int|
                0 <= c < dc.len() && cand_matches(#[trigger] dc[c], #[trigger] dn[i]),
        forall|i1: int, i2: int, c: int|
            0 <= i1 < dn.len() && 0 <= i2 < dn.len() && i1 != i2 && 0 <= c < dc.len()
                && cand_matches(#[trigger] dc[c], #[trigger] dn[i1]) ==> !cand_matches(
                dc[c],
                #[trigger] dn[i2],
            ),
        forall|c: int|
            0 <= c < dc.len() && #[trigger] used[c] ==> exists|j: int|
                0 <= j < k && cand_matches(dc[c], dn[#[trigger] order[j]]),
    ensures
        greedy_assign(dn, order, dc, used, k) is Ok,
    decreases order.len() - k,
{
    if k < order.len() {
        let i = order[k];
        let c0 = choose|c: int| 0 <= c < dc.len() && cand_matches(#[trigger] dc[c], dn[i]);
        assert(!used[c0]) by {
            if used[c0] {
                let j = choose|j: int|
                    0 <= j < k && cand_matches(dc[c0], dn[#[trigger] order[j]]);
                assert(order[j] != i);
                assert(!cand_matches(dc[c0], dn[i]));
            }
        }
        assert(pick_candidate(dc, used, dn[i]) is Some) by {
            if first_match_from(dc, used, dn[i], 0, true) is None {
                lemma_first_match_exists(dc, used, dn[i], 0, false, c0);
            }
        }
        let c1 = pick_candidate(dc, used, dn[i])->Some_0;
        assert(0 <= c1 < dc.len() && !used[c1] && cand_matches(dc[c1], dn[i])) by {
            lemma_first_match_found_props(dc, used, dn[i], 0, true);
            lemma_first_match_found_props(dc, used, dn[i], 0, false);
            if first_match_from(dc, used, dn[i], 0, true) is Some {
                lemma_exact_implies_matches(dc[c1], dn[i]);
            }
        }
        let used2 = used.update(c1, true);
        assert forall|c: int| 0 <= c < dc.len() && #[trigger] used2[c] implies exists|j: int|
            0 <= j < k + 1 && cand_matches(dc[c], dn[#[trigger] order[j]]) by {
            if c == c1 {
                assert(0 <= k < k + 1 && cand_matches(dc[c], dn[order[k]]));
            } else {
                assert(used[c]);
                let j = choose|j: int|
                    0 <= j < k && cand_matches(dc[c], dn[#[trigger] order[j]]);
                assert(0 <= j < k + 1 && cand_matches(dc[c], dn[order[j]]));
            }
        }
        lemma_greedy_succeeds(dn, order, dc, used2, k + 1);
    }
}

/// The law of complete resolution: where every declared name is
/// contained in some discovered file name, and no discovered file name
/// contains two different declared names, resolution cannot fail: the
/// greedy assignment pairs every declared target with a candidate.
pub proof fn lemma_resolution_complete(dn: Seq<Seq<char>>, dc: Seq<Seq<char>>, order: Seq<int>)
    requires
        is_length_order(dn, order),
        forall|i: int|
            0 <= i < dn.len() ==> exists|c: int|
                0 <= c < dc.len() && cand_matches(#[trigger] dc[c], #[trigger] dn[i]),
        forall|i1: int, i2: int, c: int|
            0 <= i1 < dn.len() && 0 <= i2 < dn.len() && i1 != i2 && 0 <= c < dc.len()
                && cand_matches(#[trigger] dc[c], #[trigger] dn[i1]) ==> !cand_matches(
                dc[c],
                #[trigger] dn[i2],
            ),
    ensures
        greedy_assign(dn, order, dc, unused_row(dc.len() as int), 0) is Ok,
{
    lemma_order_injective(dn, order);
    lemma_greedy_succeeds(dn, order, dc, unused_row(dc.len() as int), 0);
}

proof fn lemma_greedy_ok_all_matched(
    dn: Seq<Seq<char>>,
    order: Seq<int>,
    dc: Seq<Seq<char>>,
    used: Seq<bool>,
    k: int,
)
    requires
        forall|kk: int| 0 <= kk < order.len() ==> 0 <= #[trigger] order[kk] < dn.len(),
        0 <= k <= order.len(),
        greedy_assign(dn, order, dc, used, k) is Ok,
    ensures
        forall|j: int|
            k <= j < order.len() ==> exists|c: int|
                0 <= c < dc.len() && cand_matches(dc[c], dn[#[trigger] order[j]]),
    decreases order.len() - k,
{
    if k < order.len() {
        let i = order[k];
        let c1 = pick_candidate(dc, used, dn[i])->Some_0;
        assert(0 <= c1 < dc.len() && cand_matches(dc[c1], dn[i])) by {
            lemma_first_match_found_props(dc, used, dn[i], 0, true);
            lemma_first_match_found_props(dc, used, dn[i], 0, false);
            if first_match_from(dc, used, dn[i], 0, true) is Some {
                lemma_exact_implies_matches(dc[c1], dn[i]);
            }
        }
        lemma_greedy_ok_all_matched(dn, order, dc, used.update(c1, true), k + 1);
        assert forall|j: int| k <= j < order.len() implies exists|c: int|
            0 <= c < dc.len() && cand_matches(dc[c], dn[#[trigger] order[j]]) by {
            if j == k {
                assert(0 <= c1 < dc.len() && cand_matches(dc[c1], dn[order[j]]));
            }
        }
    }
}

/// The law of loud failure: where some declared name is contained in no
/// discovered file name, the greedy assignment ends in the missing-
/// artifact error rather than a silent partial result.
pub proof fn lemma_resolution_missing(
    dn: Seq<Seq<char>>,
    dc: Seq<Seq<char>>,
    order: Seq<int>,
    i: int,
)
    requires
        is_length_order(dn, order),
        0 <= i < dn.len(),
        forall|c: int| 0 <= c < dc.len() ==> !cand_matches(#[trigger] dc[c], dn[i]),
    ensures
        greedy_assign(dn, order, dc, unused_row(dc.len() as int), 0) is Err,
{
    if greedy_assign(dn, order, dc, unused_row(dc.len() as int), 0) is Ok {
        lemma_greedy_ok_all_matched(dn, order, dc, unused_row(dc.len() as int), 0);
        assert(order.contains(i));
        let j = choose|j: int| 0 <= j < order.len() && order[j] == i;
        let c = choose|c: int| 0 <= c < dc.len() && cand_matches(dc[c], dn[order[j]]);
        assert(!cand_matches(dc[c], dn[i]));
    }
}

/// An exact file-name match is in particular a containment match.
proof fn lemma_exact_implies_matches(cand: Seq<char>, name: Seq<char>)
    requires
        cand_exact(cand, name),
    ensures
        cand_matches(cand, name),
{
    let fname = file_name_spec(cand);
    assert(fname.subrange(0, name.len() as int) =~= name);
    assert(crate::text::matches_at(fname, 0, name));
}

} // verus!
