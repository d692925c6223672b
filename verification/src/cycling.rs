//! The cycle scheduler: picking the next theme of a collection under an
//! optional dark/light constraint, sequentially or shuffled.
//!
//! This decides only *which* index comes next; loading the collection,
//! applying the chosen theme and persisting the new index are the
//! surrounding application's business.

use vstd::prelude::*;
use crate::collection::{Collection, CollectionTheme, CycleOrder};

verus! {

/// The indices below `n` whose theme's dark flag equals `want`, in
/// ascending order.
pub open spec fn spec_matching(themes: Seq<CollectionTheme>, want: bool, n: int) -> Seq<usize>
    decreases n,
{
    if n <= 0 {
        Seq::empty()
    } else if themes[n - 1].is_dark == want {
        spec_matching(themes, want, n - 1) + seq![(n - 1) as usize]
    } else {
        spec_matching(themes, want, n - 1)
    }
}

/// All indices below `n`, in ascending order.
pub open spec fn spec_iota(n: int) -> Seq<usize> {
    Seq::new(n as nat, |i: int| i as usize)
}

/// The matching indices are exactly the indices of themes with the wanted
/// flag, listed in strictly ascending order.
pub proof fn lemma_matching_props(themes: Seq<CollectionTheme>, want: bool, n: int)
    requires
        0 <= n <= themes.len(),
        n <= usize::MAX,
    ensures
        forall|p: int|
            0 <= p < spec_matching(themes, want, n).len() ==> ({
                let e = #[trigger] spec_matching(themes, want, n)[p];
                e < n && themes[e as int].is_dark == want && p <= e as int
            }),
        forall|p: int, q: int|
            0 <= p < q < spec_matching(themes, want, n).len() ==> spec_matching(themes, want, n)[p]
                < spec_matching(themes, want, n)[q],
        forall|i: int|
            0 <= i < n && themes[i].is_dark == want ==> spec_matching(themes, want, n).contains(
                i as usize,
            ),
    decreases n,
{
    if n > 0 {
        lemma_matching_props(themes, want, n - 1);
        let prev = spec_matching(themes, want, n - 1);
        let cur = spec_matching(themes, want, n);
        assert(prev.len() <= n - 1) by {
            if prev.len() > 0 {
                assert(prev.len() - 1 <= prev[prev.len() - 1] as int);
                assert((prev[prev.len() - 1] as int) < n - 1);
            }
        }
        if themes[n - 1].is_dark == want {
            assert(cur == prev + seq![(n - 1) as usize]);
            assert(forall|p: int| 0 <= p < prev.len() ==> cur[p] == prev[p]);
            assert(cur[cur.len() - 1] == (n - 1) as usize);
        } else {
            assert(cur == prev);
        }
        assert forall|p: int| 0 <= p < cur.len() implies (#[trigger] cur[p]) < n
            && themes[cur[p] as int].is_dark == want && p <= cur[p] as int by {
            if p < prev.len() {
                assert(cur[p] == prev[p]);
                assert(prev[p] < n - 1 && themes[prev[p] as int].is_dark == want && p <= prev[p] as int);
            } else {
                assert(cur[p] == (n - 1) as usize);
            }
        }
        assert forall|p: int, q: int| 0 <= p < q < cur.len() implies cur[p] < cur[q] by {
            if q < prev.len() {
                assert(cur[p] == prev[p] && cur[q] == prev[q]);
            } else {
                assert(cur[q] == (n - 1) as usize);
                assert(cur[p] == prev[p]);
                assert((prev[p] as int) < n - 1);
            }
        }
        assert forall|i: int|
            0 <= i < n && themes[i].is_dark == want implies cur.contains(i as usize) by {
            if i < n - 1 {
                assert(prev.contains(i as usize));
                let w = choose|w: int| 0 <= w < prev.len() && prev[w] == i as usize;
                assert(cur[w] == i as usize);
            } else {
                assert(themes[n - 1].is_dark == want);
                assert(cur[cur.len() - 1] == (n - 1) as usize);
            }
        }
    }
}

/// The eligible positions of a collection's themes under an optional
/// constraint: all indices when there is no constraint or no theme
/// matches it, otherwise exactly the matching indices.
pub open spec fn spec_eligible(themes: Seq<CollectionTheme>, want: Option<bool>) -> Seq<usize> {
    match want {
        Option::None => spec_iota(themes.len() as int),
        Option::Some(w) => {
            let m = spec_matching(themes, w, themes.len() as int);
            if m.len() == 0 {
                spec_iota(themes.len() as int)
            } else {
                m
            }
        },
    }
}

/// Whether the constraint had to be dropped for this call: it was present
/// but no theme satisfies it.
pub open spec fn spec_constraint_dropped(themes: Seq<CollectionTheme>, want: Option<bool>) -> bool {
    match want {
        Option::None => false,
        Option::Some(w) => spec_matching(themes, w, themes.len() as int).len() == 0,
    }
}

/// The stored index, clamped to the start when the collection shrank
/// under it.
pub open spec fn spec_clamped_index(c: Collection) -> usize {
    if c.current_index < c.themes@.len() {
        c.current_index
    } else {
        0
    }
}

/// The position of the clamped current index within the eligible list, or
/// position zero when the current index is not itself eligible.
pub open spec fn spec_current_pos(elig: Seq<usize>, ci: usize) -> int {
    if elig.contains(ci) {
        elig.index_of(ci)
    } else {
        0
    }
}

/// What one scheduling step decided: the collection index to apply next,
/// and whether the mode constraint had to be dropped to decide it.
#[derive(Debug, Clone, Copy, PartialEq, Eq, Structural)]
pub struct Advance {
    pub next_index: usize,
    pub constraint_dropped: bool,
}

/// Relies on rand::random_range: a uniform draw from a nonempty half-open
/// range lies in that range.
#[verifier::external_body]
fn rand_below(n: usize) -> (r: usize)
    requires
        n > 0,
    ensures
        r < n,
{
    rand::random_range(0..n)
}

/// Pick the next theme of a collection under an optional dark/light
/// constraint.
///
/// The stored index is clamped if the collection shrank since the last
/// advance. Under a constraint the walk stays within the themes whose
/// dark flag matches, unless none does: then the constraint is dropped
/// for this call rather than making cycling impossible. The sequential
/// order steps to the next eligible position; the shuffled order draws a
/// uniformly random eligible position different from the current one
/// whenever there is more than one choice. An empty collection is the one
/// error.
pub fn advance(coll: &Collection, want_dark: Option<bool>) -> (r: Result<Advance, String>)
    ensures
        r is Ok <==> coll.themes@.len() > 0,
        r matches Err(e) ==> e@ == "Collection '"@ + coll.name@ + "' is empty"@,
        r matches Ok(a) ==> ({
            let elig = spec_eligible(coll.themes@, want_dark);
            let pos = spec_current_pos(elig, spec_clamped_index(*coll));
            &&& a.constraint_dropped == spec_constraint_dropped(coll.themes@, want_dark)
            &&& (a.next_index as int) < coll.themes@.len()
            &&& elig.contains(a.next_index)
            &&& (want_dark is Some && !a.constraint_dropped ==> coll.themes@[
            a.next_index as int].is_dark == want_dark->0)
            &&& (coll.order is Sequential ==> a.next_index == elig[(pos + 1) % (
            elig.len() as int)])
            &&& (coll.order is Shuffle && elig.len() > 1 ==> a.next_index != elig[pos])
            &&& (coll.order is Shuffle && elig.len() == 1 ==> a.next_index == elig[0])
        }),
{
    let n = coll.themes.len();
    if n == 0 {
        proof {
            reveal_strlit("Collection '");
            reveal_strlit("' is empty");
        }
        let mut msg = String::from_str("Collection '");
        msg.append(coll.name.as_str());
        msg.append("' is empty");
        assert(msg@ =~= "Collection '"@ + coll.name@ + "' is empty"@);
        return Err(msg);
    }
    let ci = if coll.current_index < n {
        coll.current_index
    } else {
        0
    };
    // Build the eligible index list.
    let mut eligible: Vec<usize> = Vec::new();
    let mut dropped = false;
    match want_dark {
        Some(w) => {
            let mut i: usize = 0;
            while i < n
                invariant
                    i <= n,
                    n == coll.themes@.len(),
                    eligible@ == spec_matching(coll.themes@, w, i as int),
                decreases n - i,
            {
                if coll.themes[i].is_dark == w {
                    eligible.push(i);
                }
                i = i + 1;
            }
            if eligible.len() == 0 {
                dropped = true;
                let mut i: usize = 0;
                while i < n
                    invariant
                        i <= n,
                        eligible@.len() == i,
                        forall|j: int| 0 <= j < i ==> eligible@[j] == j as usize,
                    decreases n - i,
                {
                    eligible.push(i);
                    i = i + 1;
                }
                assert(eligible@ =~= spec_iota(n as int));
            }
        },
        None => {
            let mut i: usize = 0;
            while i < n
                invariant
                    i <= n,
                    eligible@.len() == i,
                    forall|j: int| 0 <= j < i ==> eligible@[j] == j as usize,
                decreases n - i,
            {
                eligible.push(i);
                i = i + 1;
            }
            assert(eligible@ =~= spec_iota(n as int));
        },
    }
    proof {
        if want_dark is Some {
            lemma_matching_props(coll.themes@, want_dark->0, n as int);
        }
    }
    assert(eligible@ == spec_eligible(coll.themes@, want_dark));
    assert(dropped == spec_constraint_dropped(coll.themes@, want_dark));
    let len = eligible.len();
    assert(len > 0);
    // The eligible list is strictly ascending, so positions in it are
    // unique and the first find below is the only one.
    assert(forall|p: int, q: int|
        0 <= p < q < eligible@.len() ==> eligible@[p] < eligible@[q]);
    assert(forall|p: int|
        0 <= p < eligible@.len() ==> (#[trigger] eligible@[p] as int) < n);
    // Find the current position within the eligible list.
    let mut pos: usize = 0;
    let mut found = false;
    let mut i: usize = 0;
    while i < len
        invariant
            i <= len,
            len == eligible@.len(),
            !found ==> pos == 0 && (forall|j: int| 0 <= j < i ==> eligible@[j] != ci),
            found ==> pos < i && eligible@[pos as int] == ci,
        decreases len - i,
    {
        if !found && eligible[i] == ci {
            pos = i;
            found = true;
        }
        i = i + 1;
    }
    proof {
        if found {
            assert(eligible@.contains(ci));
            let io = eligible@.index_of(ci);
            assert(eligible@[io] == ci);
            if io != pos as int {
                assert(eligible@[io] != eligible@[pos as int] || io == pos as int);
            }
            assert(spec_current_pos(eligible@, ci) == pos as int);
        } else {
            assert(!eligible@.contains(ci)) by {
                if eligible@.contains(ci) {
                    let w = choose|w: int| 0 <= w < eligible@.len() && eligible@[w] == ci;
                    assert(eligible@[w] == ci);
                }
            }
            assert(spec_current_pos(eligible@, ci) == 0);
        }
    }
    let next_pos: usize = match coll.order {
        CycleOrder::Sequential => (pos + 1) % len,
        CycleOrder::Shuffle => {
            if len == 1 {
                0
            } else {
                let d = rand_below(len - 1);
                if d >= pos {
                    d + 1
                } else {
                    d
                }
            }
        },
    };
    let next_index = eligible[next_pos];
    assert(eligible@.contains(next_index));
    Ok(Advance { next_index, constraint_dropped: dropped })
}

} // verus!
