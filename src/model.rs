use vstd::prelude::*;
use crate::geometry::{Coord, Orientation};
use crate::grid::{slice_content, Grid, TiledGridSlice};

verus! {

/// What extraction knows of one pattern: its samples, where it was seen,
/// how often, and the orientation of its first sighting.
pub struct PatternModel {
    pub content: Seq<u32>,
    pub coords: Seq<Coord>,
    pub count: nat,
    pub orientation: Orientation,
}

/// Number of (orientation, cell) pairs that extraction visits.
pub open spec fn occurrence_count(g: Grid, os: Seq<Orientation>) -> nat {
    os.len() * g.size.count()
}

/// The `k`-th view that extraction visits: orientation by orientation, and
/// for each, every cell of the grid row by row.
pub open spec fn occurrence(g: Grid, n: u32, os: Seq<Orientation>, k: int) -> TiledGridSlice {
    let cells = g.size.count() as int;
    let w = g.size.width as int;
    let c = k % cells;
    TiledGridSlice {
        offset: Coord { x: (c % w) as u32, y: (c / w) as u32 },
        size: n,
        orientation: os[k / cells],
    }
}

/// Samples of the `k`-th visited view.
pub open spec fn occurrence_content(g: Grid, n: u32, os: Seq<Orientation>, k: int) -> Seq<u32> {
    slice_content(g, occurrence(g, n, os, k))
}

/// The last index of table `t` whose pattern holds samples `c`, or -1.
pub open spec fn find_content(t: Seq<PatternModel>, c: Seq<u32>) -> int
    decreases t.len(),
{
    if t.len() == 0 {
        -1
    } else if t.last().content == c {
        t.len() - 1
    } else {
        find_content(t.drop_last(), c)
    }
}

/// Records a sighting of view `v`, holding samples `c`: the pattern with
/// those samples gains the sighting, or a new pattern is appended.
pub open spec fn record(t: Seq<PatternModel>, v: TiledGridSlice, c: Seq<u32>) -> Seq<PatternModel> {
    let f = find_content(t, c);
    if f >= 0 {
        t.update(
            f,
            PatternModel {
                content: t[f].content,
                coords: t[f].coords.push(v.offset),
                count: t[f].count + 1,
                orientation: t[f].orientation,
            },
        )
    } else {
        t.push(PatternModel { content: c, coords: seq![v.offset], count: 1, orientation: v.orientation })
    }
}

/// The pattern table after the first `k` sightings.
pub open spec fn extracted(g: Grid, n: u32, os: Seq<Orientation>, k: nat) -> Seq<PatternModel>
    decreases k,
{
    if k == 0 {
        Seq::empty()
    } else {
        let v = occurrence(g, n, os, k - 1);
        record(extracted(g, n, os, (k - 1) as nat), v, slice_content(g, v))
    }
}

/// The view through which a pattern was first seen.
pub open spec fn canonical_slice(p: PatternModel, n: u32) -> TiledGridSlice {
    TiledGridSlice { offset: p.coords[0], size: n, orientation: p.orientation }
}

/// No two patterns of `t` hold the same samples.
pub open spec fn contents_distinct(t: Seq<PatternModel>) -> bool {
    forall|i: int, j: int| 0 <= i < t.len() && 0 <= j < t.len() && i != j ==> t[i].content != t[j].content
}

/// The samples of every view among the first `k` sightings.
pub open spec fn observed_contents(g: Grid, n: u32, os: Seq<Orientation>, k: nat) -> Set<Seq<u32>> {
    Set::new(|c: Seq<u32>| exists|kk: int| 0 <= kk < k && #[trigger] occurrence_content(g, n, os, kk) == c)
}

/// The samples held by the patterns of `t`.
pub open spec fn table_contents(t: Seq<PatternModel>) -> Set<Seq<u32>> {
    contents_of(t).to_set()
}

/// The samples of each pattern of `t`, by id.
pub open spec fn contents_of(t: Seq<PatternModel>) -> Seq<Seq<u32>> {
    t.map_values(|p: PatternModel| p.content)
}

pub proof fn lemma_find_content(t: Seq<PatternModel>, c: Seq<u32>)
    ensures
        -1 <= find_content(t, c) < t.len(),
        find_content(t, c) >= 0 ==> t[find_content(t, c)].content == c,
        find_content(t, c) < 0 <==> forall|i: int| 0 <= i < t.len() ==> t[i].content != c,
    decreases t.len(),
{
    if t.len() > 0 {
        lemma_find_content(t.drop_last(), c);
        if t.last().content != c {
            assert forall|i: int| 0 <= i < t.len() - 1 implies t[i] == t.drop_last()[i] by {}
        }
    }
}

pub proof fn lemma_find_distinct(t: Seq<PatternModel>, i: int)
    requires
        contents_distinct(t),
        0 <= i < t.len(),
    ensures
        find_content(t, t[i].content) == i,
{
    lemma_find_content(t, t[i].content);
}

/// Facts that hold of the table after every prefix of the sightings.
pub proof fn lemma_extracted(g: Grid, n: u32, os: Seq<Orientation>, k: nat)
    requires
        g.wf(),
        0 < n,
        k <= occurrence_count(g, os),
    ensures
        contents_distinct(extracted(g, n, os, k)),
        extracted(g, n, os, k).len() <= k,
        forall|i: int| 0 <= i < extracted(g, n, os, k).len() ==> {
            let p = #[trigger] extracted(g, n, os, k)[i];
            &&& p.coords.len() == p.count
            &&& 1 <= p.count <= k
            &&& p.content == slice_content(g, canonical_slice(p, n))
        },
    decreases k,
{
    if k > 0 {
        let k1 = (k - 1) as nat;
        lemma_extracted(g, n, os, k1);
        let t = extracted(g, n, os, k1);
        let v = occurrence(g, n, os, k1 as int);
        let c = slice_content(g, v);
        lemma_find_content(t, c);
        let t2 = extracted(g, n, os, k);
        assert(t2 == record(t, v, c));
        let f = find_content(t, c);
        if f >= 0 {
            assert forall|i: int| 0 <= i < t2.len() implies {
                let p = #[trigger] t2[i];
                &&& p.coords.len() == p.count
                &&& 1 <= p.count <= k
                &&& p.content == slice_content(g, canonical_slice(p, n))
            } by {
                if i == f {
                    assert(t2[i].coords[0] == t[i].coords[0]);
                    assert(canonical_slice(t2[i], n) == canonical_slice(t[i], n));
                } else {
                    assert(t2[i] == t[i]);
                }
            }
        } else {
            assert forall|i: int| 0 <= i < t2.len() implies {
                let p = #[trigger] t2[i];
                &&& p.coords.len() == p.count
                &&& 1 <= p.count <= k
                &&& p.content == slice_content(g, canonical_slice(p, n))
            } by {
                if i < t.len() {
                    assert(t2[i] == t[i]);
                } else {
                    assert(canonical_slice(t2[i], n) == v);
                }
            }
        }
    }
}

} // verus!
