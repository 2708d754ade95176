use vstd::prelude::*;
use crate::compatibility::{are_patterns_compatible, lemma_compatible_opposite, lemma_content_at, tiles_compatible};
use crate::geometry::{all_orientations, opposite_of, CardinalDirection, Coord, Orientation};
use crate::grid::{slice_content, Grid, TiledGridSlice};
use crate::model::{
    canonical_slice, contents_distinct, extracted, find_content, lemma_extracted, lemma_find_content,
    lemma_find_distinct, observed_contents, contents_of, occurrence, occurrence_content, occurrence_count, table_contents,
    PatternModel,
};
use crate::pattern_index::{index_entries, PatternIndex};

verus! {

/// Dense identifier of a pattern: its position in the pattern table.
pub type PatternId = usize;

/// Position of an orientation in `Orientation::all()`.
pub open spec fn orientation_index(o: Orientation) -> int {
    match o {
        Orientation::Original => 0,
        Orientation::Clockwise90 => 1,
        Orientation::Clockwise180 => 2,
        Orientation::Clockwise270 => 3,
        Orientation::DiagonallyFlipped => 4,
        Orientation::DiagonallyFlippedClockwise90 => 5,
        Orientation::DiagonallyFlippedClockwise180 => 6,
        Orientation::DiagonallyFlippedClockwise270 => 7,
    }
}

/// The orientation at position `i` of `Orientation::all()`.
pub open spec fn orientation_at(i: int) -> Orientation {
    if i == 0 {
        Orientation::Original
    } else if i == 1 {
        Orientation::Clockwise90
    } else if i == 2 {
        Orientation::Clockwise180
    } else if i == 3 {
        Orientation::Clockwise270
    } else if i == 4 {
        Orientation::DiagonallyFlipped
    } else if i == 5 {
        Orientation::DiagonallyFlippedClockwise90
    } else if i == 6 {
        Orientation::DiagonallyFlippedClockwise180
    } else {
        Orientation::DiagonallyFlippedClockwise270
    }
}

pub fn orientation_slot(o: Orientation) -> (r: usize)
    ensures
        r == orientation_index(o),
        r < 8,
{
    match o {
        Orientation::Original => 0,
        Orientation::Clockwise90 => 1,
        Orientation::Clockwise180 => 2,
        Orientation::Clockwise270 => 3,
        Orientation::DiagonallyFlipped => 4,
        Orientation::DiagonallyFlippedClockwise90 => 5,
        Orientation::DiagonallyFlippedClockwise180 => 6,
        Orientation::DiagonallyFlippedClockwise270 => 7,
    }
}

/// A distinct tile of the input: every place it was seen, how often, and the
/// orientation under which it was first seen.
#[derive(Debug)]
pub struct Pattern {
    pub id: PatternId,
    pub coords: Vec<Coord>,
    pub count: u32,
    pub orientation: Orientation,
}

impl Pattern {
    fn new(id: PatternId, orientation: Orientation) -> (r: Pattern)
        ensures
            r.id == id,
            r.coords@.len() == 0,
            r.count == 0,
            r.orientation == orientation,
    {
        Pattern { id, coords: Vec::new(), count: 0, orientation }
    }

    /// This pattern as the extraction model describes it.
    pub open spec fn matches_model(&self, m: PatternModel) -> bool {
        &&& self.coords@ == m.coords
        &&& self.count as nat == m.count
        &&& self.orientation == m.orientation
    }

    /// Where the pattern was first seen.
    pub fn coord(&self) -> (r: Coord)
        requires
            self.coords@.len() > 0,
        ensures
            r == self.coords@[0],
    {
        self.coords[0]
    }

    /// Forgets how often the pattern was seen.
    pub fn clear_count(&mut self)
        ensures
            final(self).count == 0,
            final(self).id == old(self).id,
            final(self).coords@ == old(self).coords@,
            final(self).orientation == old(self).orientation,
    {
        self.count = 0;
    }
}

/// Why extraction refuses its input.
#[derive(Clone, Copy, Debug, PartialEq, Eq, Structural)]
pub enum InputError {
    /// The pattern size is zero.
    PatternSizeZero,
    /// The pattern is wider or taller than the input grid.
    PatternLargerThanGrid,
    /// No orientation was requested.
    NoOrientations,
}

/// The patterns of an input grid, with the id of the pattern seen at each
/// cell under each requested orientation.
pub struct OverlappingPatterns {
    pub pattern_table: Vec<Pattern>,
    pub pattern_size: u32,
    pub grid: Grid,
    /// Eight slots per cell, one per orientation, row by row.
    pub id_grid: Vec<Option<PatternId>>,
}

/// Slot of `id_grid` for cell `cell` under orientation `o`.
pub open spec fn id_slot(cell: int, o: Orientation) -> int {
    cell * 8 + orientation_index(o)
}

impl OverlappingPatterns {
    /// The pattern table as the extraction model describes it.
    pub open spec fn table_matches(&self, t: Seq<PatternModel>) -> bool {
        &&& self.pattern_table@.len() == t.len()
        &&& forall|i: int| 0 <= i < t.len() ==> (#[trigger] self.pattern_table@[i]).id == i
            && self.pattern_table@[i].matches_model(t[i])
    }

    pub open spec fn wf(&self) -> bool {
        &&& self.grid.wf()
        &&& 0 < self.pattern_size <= self.grid.size.width
        &&& self.pattern_size <= self.grid.size.height
        &&& self.id_grid@.len() == self.grid.size.count() * 8
        &&& forall|i: int| 0 <= i < self.pattern_table@.len() ==> {
            let p = #[trigger] self.pattern_table@[i];
            &&& p.coords@.len() > 0
            &&& p.id == i
        }
        &&& forall|s: int| 0 <= s < self.id_grid@.len() && (#[trigger] self.id_grid@[s]) is Some
            ==> self.id_grid@[s]->0 < self.pattern_table@.len()
    }

    /// The samples of pattern `i`, read through its first sighting.
    pub open spec fn content_of(&self, i: int) -> Seq<u32> {
        let p = self.pattern_table@[i];
        slice_content(self.grid, TiledGridSlice { offset: p.coords@[0], size: self.pattern_size, orientation: p.orientation })
    }

    /// What extraction of `grid` with tiles of side `n` under orientations
    /// `os` produces.
    pub open spec fn extracted_from(&self, grid: Grid, n: u32, os: Seq<Orientation>) -> bool {
        let t = extracted(grid, n, os, occurrence_count(grid, os));
        &&& self.wf()
        &&& self.grid == grid
        &&& self.pattern_size == n
        &&& self.table_matches(t)
        &&& forall|k: int| 0 <= k < occurrence_count(grid, os) ==>
            self.id_grid@[id_slot(k % grid.size.count() as int, os[k / grid.size.count() as int])]
                == Some(find_content(t, #[trigger] occurrence_content(grid, n, os, k)) as usize)
        &&& forall|c: int, o: Orientation| 0 <= c < grid.size.count() && !os.contains(o)
            ==> (#[trigger] self.id_grid@[id_slot(c, o)]) is None
    }

    /// Extracts every `pattern_size` by `pattern_size` tile of `grid` under
    /// each of `orientations`, merging tiles with equal samples into one
    /// pattern; ids follow the order of first sighting.
    pub fn new(grid: Grid, pattern_size: u32, orientations: &Vec<Orientation>) -> (r: Result<OverlappingPatterns, InputError>)
        requires
            grid.wf(),
            occurrence_count(grid, orientations@) <= u32::MAX,
            grid.size.count() * 8 <= usize::MAX,
        ensures
            pattern_size == 0 ==> r == Err::<OverlappingPatterns, InputError>(InputError::PatternSizeZero),
            pattern_size > 0 && (pattern_size > grid.size.width || pattern_size > grid.size.height)
                ==> r == Err::<OverlappingPatterns, InputError>(InputError::PatternLargerThanGrid),
            0 < pattern_size <= grid.size.width && pattern_size <= grid.size.height && orientations@.len() == 0
                ==> r == Err::<OverlappingPatterns, InputError>(InputError::NoOrientations),
            0 < pattern_size <= grid.size.width && pattern_size <= grid.size.height && orientations@.len() > 0
                ==> r is Ok,
            r matches Ok(p) ==> p.extracted_from(grid, pattern_size, orientations@),
    {
        if pattern_size == 0 {
            return Err(InputError::PatternSizeZero);
        }
        if pattern_size > grid.size.width || pattern_size > grid.size.height {
            return Err(InputError::PatternLargerThanGrid);
        }
        if orientations.len() == 0 {
            return Err(InputError::NoOrientations);
        }
        let n = pattern_size;
        let ghost os = orientations@;
        let cells = grid.cells.len();
        let w = grid.size.width as usize;
        let total = orientations.len() * cells;
        proof {
            assert(n as int * n as int <= cells as int) by (nonlinear_arith)
                requires n <= grid.size.width, n <= grid.size.height, cells == grid.size.width as int * grid.size.height as int;
        }
        let mut id_grid: Vec<Option<PatternId>> = Vec::new();
        while id_grid.len() < cells * 8
            invariant
                cells * 8 <= usize::MAX,
                id_grid@.len() <= cells * 8,
                forall|s: int| 0 <= s < id_grid@.len() ==> (#[trigger] id_grid@[s]) is None,
            decreases cells * 8 - id_grid@.len(),
        {
            id_grid.push(None);
        }
        assert forall|cc: int, o: Orientation| 0 <= cc < cells && !orientations@.contains(o)
            implies (#[trigger] id_grid@[id_slot(cc, o)]) is None by {
            assert(0 <= id_slot(cc, o) < cells * 8);
        }
        let mut index = PatternIndex::new();
        let mut patterns: Vec<Pattern> = Vec::new();
        let mut k: usize = 0;
        while k < total
            invariant
                grid.wf(),
                os == orientations@,
                0 < n <= grid.size.width && n <= grid.size.height,
                n as int * n as int <= cells,
                cells == grid.size.count(),
                w == grid.size.width,
                total == occurrence_count(grid, os),
                total <= u32::MAX,
                k <= total,
                id_grid@.len() == cells * 8,
                cells * 8 <= usize::MAX,
                forall|cc: int, o: Orientation| 0 <= cc < cells && !os.contains(o)
                    ==> (#[trigger] id_grid@[id_slot(cc, o)]) is None,
                ({
                    let t = extracted(grid, n, os, k as nat);
                    &&& patterns@.len() == t.len()
                    &&& forall|i: int| 0 <= i < t.len() ==> (#[trigger] patterns@[i]).id == i
                        && patterns@[i].matches_model(t[i])
                    &&& forall|c: Seq<u32>| #[trigger] index_entries(index).contains_key(c) <==> find_content(t, c) >= 0
                    &&& forall|c: Seq<u32>| #[trigger] index_entries(index).contains_key(c) ==> index_entries(index)[c] == find_content(t, c)
                    &&& forall|kk: int| 0 <= kk < k ==>
                        find_content(t, #[trigger] occurrence_content(grid, n, os, kk)) >= 0
                    &&& forall|kk: int| 0 <= kk < k ==>
                        id_grid@[id_slot(kk % cells as int, os[kk / cells as int])]
                            == Some(find_content(t, #[trigger] occurrence_content(grid, n, os, kk)) as usize)
                    &&& forall|s: int| 0 <= s < id_grid@.len() && (#[trigger] id_grid@[s]) is Some
                        ==> id_grid@[s]->0 < t.len()
                }),
            decreases total - k,
        {
            let ghost t = extracted(grid, n, os, k as nat);
            let ghost t2 = extracted(grid, n, os, (k + 1) as nat);
            proof {
                lemma_extracted(grid, n, os, k as nat);
                lemma_extracted(grid, n, os, (k + 1) as nat);
                assert(k / cells < os.len() && k % cells < cells) by (nonlinear_arith)
                    requires k < total, total == os.len() * cells, cells > 0;
            }
            let oi = k / cells;
            let c = k % cells;
            proof {
                assert(c / w < grid.size.height) by (nonlinear_arith)
                    requires c < cells, cells == w * grid.size.height, w > 0;
            }
            let orientation = orientations[oi];
            let slice = TiledGridSlice::new(Coord::new((c % w) as u32, (c / w) as u32), n, orientation);
            assert(slice == occurrence(grid, n, os, k as int));
            let content = slice.content(&grid);
            let ghost cs = content@;
            proof {
                lemma_find_content(t, cs);
            }
            let id: PatternId;
            let ghost before = patterns@;
            match index.get(&content) {
                Some(found) => {
                    id = found;
                    let ghost f = find_content(t, cs);
                    assert(f == id);
                    assert(patterns@[id as int].count <= k) by {
                        assert(patterns@[id as int].matches_model(t[f]));
                    }
                    patterns[id].coords.push(slice.offset);
                    patterns[id].count = patterns[id].count + 1;
                    proof {
                        assert(patterns@[id as int].matches_model(t2[f]));
                        assert forall|i: int| 0 <= i < t2.len() && i != id implies patterns@[i] == before[i] && t2[i] == t[i] by {}
                    }
                },
                None => {
                    id = patterns.len();
                    let mut pattern = Pattern::new(id, orientation);
                    pattern.coords.push(slice.offset);
                    pattern.count = 1;
                    patterns.push(pattern);
                    index.insert(content, id);
                    proof {
                        assert(patterns@[id as int].coords@ =~= t2[id as int].coords);
                        assert forall|i: int| 0 <= i < t.len() implies patterns@[i] == before[i] && t2[i] == t[i] by {}
                    }
                },
            }
            proof {
                assert(t2 == crate::model::record(t, slice, cs));
                lemma_find_content(t2, cs);
                assert(find_content(t2, cs) == id) by {
                    lemma_find_distinct(t2, id as int);
                }
                assert forall|i: int| 0 <= i < t.len() implies #[trigger] t2[i].content == t[i].content by {}
                assert forall|cc: Seq<u32>| find_content(t, cc) >= 0 implies find_content(t2, cc) == find_content(t, cc) by {
                    lemma_find_content(t, cc);
                    let i = find_content(t, cc);
                    lemma_find_distinct(t, i);
                    lemma_find_distinct(t2, i);
                }
                assert forall|cc: Seq<u32>| find_content(t, cc) < 0 && cc != cs implies find_content(t2, cc) < 0 by {
                    lemma_find_content(t, cc);
                    lemma_find_content(t2, cc);
                    if find_content(t2, cc) >= 0 {
                        let i = find_content(t2, cc);
                        if i < t.len() {
                            assert(t[i].content == cc);
                        }
                    }
                }
            }
            let slot = c * 8 + orientation_slot(orientation);
            id_grid.set(slot, Some(id));
            proof {
                assert(os.contains(orientation)) by {
                    assert(os[oi as int] == orientation);
                }
                assert forall|cc: int, o: Orientation| 0 <= cc < cells && !os.contains(o)
                    implies (#[trigger] id_grid@[id_slot(cc, o)]) is None by {
                    assert(o != orientation);
                    assert(0 <= orientation_index(o) < 8);
                    assert(orientation_index(o) != orientation_index(orientation));
                    assert(id_slot(cc, o) != slot as int);
                    assert(0 <= id_slot(cc, o) < cells * 8);
                }
                assert forall|kk: int| 0 <= kk < k + 1 implies
                    id_grid@[id_slot(kk % cells as int, os[kk / cells as int])]
                        == Some(find_content(t2, #[trigger] occurrence_content(grid, n, os, kk)) as usize) by {
                    if kk < k {
                        let ck = occurrence_content(grid, n, os, kk);
                        lemma_find_content(t, ck);
                        assert(find_content(t, ck) >= 0);
                        assert(find_content(t2, ck) == find_content(t, ck));
                        if id_slot(kk % cells as int, os[kk / cells as int]) == slot {
                            assert(kk % cells as int == c);
                            assert(orientation_index(os[kk / cells as int]) == orientation_index(orientation));
                            assert(os[kk / cells as int] == orientation);
                            assert(occurrence(grid, n, os, kk) == occurrence(grid, n, os, k as int));
                        }
                    } else {
                        assert(occurrence_content(grid, n, os, kk) == cs);
                        assert(id_slot(kk % cells as int, os[kk / cells as int]) == slot);
                    }
                }
                assert forall|kk: int| 0 <= kk < k + 1 implies
                    find_content(t2, #[trigger] occurrence_content(grid, n, os, kk)) >= 0 by {
                    if kk < k {
                        let ck = occurrence_content(grid, n, os, kk);
                        assert(find_content(t, ck) >= 0);
                    } else {
                        assert(occurrence_content(grid, n, os, kk) == cs);
                    }
                }
            }
            proof {
                assert(patterns@.len() == t2.len());
                assert(forall|i: int| 0 <= i < t2.len() ==> (#[trigger] patterns@[i]).id == i
                        && patterns@[i].matches_model(t2[i]));
                assert(forall|cc: Seq<u32>| #[trigger] index_entries(index).contains_key(cc) <==> find_content(t2, cc) >= 0);
                assert(forall|cc: Seq<u32>| #[trigger] index_entries(index).contains_key(cc) ==> index_entries(index)[cc] == find_content(t2, cc));
                assert(forall|s: int| 0 <= s < id_grid@.len() && (#[trigger] id_grid@[s]) is Some
                        ==> id_grid@[s]->0 < t2.len());
            }
            k = k + 1;
        }
        proof {
            lemma_extracted(grid, n, os, total as nat);
        }
        Ok(OverlappingPatterns { pattern_table: patterns, pattern_size: n, grid, id_grid })
    }
}


/// The patterns allowed next to one pattern, one list per direction.
pub struct CardinalDirectionTable {
    pub north: Vec<PatternId>,
    pub east: Vec<PatternId>,
    pub south: Vec<PatternId>,
    pub west: Vec<PatternId>,
}

impl CardinalDirectionTable {
    pub open spec fn get(&self, d: CardinalDirection) -> Seq<PatternId> {
        match d {
            CardinalDirection::North => self.north@,
            CardinalDirection::East => self.east@,
            CardinalDirection::South => self.south@,
            CardinalDirection::West => self.west@,
        }
    }
}

/// What the solving engine needs of one pattern: its weight, absent when the
/// pattern was never counted, and its allowed neighbours.
pub struct PatternDescription {
    pub weight: Option<u32>,
    pub allowed_neighbours: CardinalDirectionTable,
}

/// Weights and adjacency rules of every pattern, indexed by pattern id.
pub struct GlobalStats {
    pub pattern_descriptions: Vec<PatternDescription>,
}

impl OverlappingPatterns {
    /// `r` lists, in increasing order, every pattern that may sit in
    /// direction `d` next to a tile holding samples `a`.
    pub open spec fn neighbour_list(&self, a: Seq<u32>, d: CardinalDirection, r: Seq<PatternId>) -> bool {
        &&& forall|x: int, y: int| 0 <= x < y < r.len() ==> r[x] < r[y]
        &&& forall|x: int| 0 <= x < r.len() ==> r[x] < self.pattern_table@.len()
        &&& forall|j: int| 0 <= j < self.pattern_table@.len() ==>
            (r.contains(j as usize) <==> tiles_compatible(a, #[trigger] self.content_of(j), self.pattern_size as int, d))
    }

    /// Extraction under all eight orientations.
    pub fn new_all_orientations(grid: Grid, pattern_size: u32) -> (r: Result<OverlappingPatterns, InputError>)
        requires
            grid.wf(),
            8 * grid.size.count() <= u32::MAX,
            grid.size.count() * 8 <= usize::MAX,
        ensures
            pattern_size == 0 ==> r == Err::<OverlappingPatterns, InputError>(InputError::PatternSizeZero),
            pattern_size > 0 && (pattern_size > grid.size.width || pattern_size > grid.size.height)
                ==> r == Err::<OverlappingPatterns, InputError>(InputError::PatternLargerThanGrid),
            0 < pattern_size <= grid.size.width && pattern_size <= grid.size.height ==> r is Ok,
            r matches Ok(p) ==> p.extracted_from(grid, pattern_size, all_orientations()),
    {
        let os = Orientation::all();
        Self::new(grid, pattern_size, &os)
    }

    /// Extraction under the original orientation only.
    pub fn new_original_orientation(grid: Grid, pattern_size: u32) -> (r: Result<OverlappingPatterns, InputError>)
        requires
            grid.wf(),
            grid.size.count() <= u32::MAX,
            grid.size.count() * 8 <= usize::MAX,
        ensures
            pattern_size == 0 ==> r == Err::<OverlappingPatterns, InputError>(InputError::PatternSizeZero),
            pattern_size > 0 && (pattern_size > grid.size.width || pattern_size > grid.size.height)
                ==> r == Err::<OverlappingPatterns, InputError>(InputError::PatternLargerThanGrid),
            0 < pattern_size <= grid.size.width && pattern_size <= grid.size.height ==> r is Ok,
            r matches Ok(p) ==> p.extracted_from(grid, pattern_size, seq![Orientation::Original]),
    {
        let os = vec![Orientation::Original];
        assert(os@ == seq![Orientation::Original]);
        Self::new(grid, pattern_size, &os)
    }

    pub fn grid(&self) -> (r: &Grid)
        ensures
            r == &self.grid,
    {
        &self.grid
    }

    pub fn pattern(&self, pattern_id: PatternId) -> (r: &Pattern)
        requires
            pattern_id < self.pattern_table@.len(),
        ensures
            r == &self.pattern_table@[pattern_id as int],
    {
        &self.pattern_table[pattern_id]
    }

    pub fn pattern_mut(&mut self, pattern_id: PatternId) -> (r: &mut Pattern)
        requires
            pattern_id < old(self).pattern_table@.len(),
        ensures
            *r == old(self).pattern_table@[pattern_id as int],
            final(self).pattern_table@ == old(self).pattern_table@.update(pattern_id as int, *final(r)),
            final(self).grid == old(self).grid,
            final(self).pattern_size == old(self).pattern_size,
            final(self).id_grid == old(self).id_grid,
    {
        &mut self.pattern_table[pattern_id]
    }

    /// A copy of the pattern ids seen at each cell, eight slots per cell.
    pub fn id_grid(&self) -> (r: Vec<Option<PatternId>>)
        ensures
            r@ == self.id_grid@,
    {
        let mut r: Vec<Option<PatternId>> = Vec::new();
        let mut i: usize = 0;
        while i < self.id_grid.len()
            invariant
                i <= self.id_grid@.len(),
                r@ == self.id_grid@.take(i as int),
            decreases self.id_grid@.len() - i,
        {
            r.push(self.id_grid[i]);
            i = i + 1;
            assert(r@ =~= self.id_grid@.take(i as int));
        }
        assert(self.id_grid@.take(i as int) =~= self.id_grid@);
        r
    }

    /// The id of the pattern seen at cell `cell` (row by row) under
    /// orientation `o`, if `o` was requested.
    pub fn id_at(&self, cell: usize, o: Orientation) -> (r: Option<PatternId>)
        requires
            self.wf(),
            cell < self.grid.size.count(),
        ensures
            r == self.id_grid@[id_slot(cell as int, o)],
    {
        let slots = self.id_grid.len();
        assert(cell * 8 + 8 <= slots);
        self.id_grid[cell * 8 + orientation_slot(o)]
    }

    /// The sample at the top-left cell of a pattern.
    pub fn pattern_top_left_value(&self, pattern_id: PatternId) -> (r: u32)
        requires
            self.wf(),
            pattern_id < self.pattern_table@.len(),
        ensures
            r == self.content_of(pattern_id as int)[0],
    {
        let pattern = &self.pattern_table[pattern_id];
        let slice = TiledGridSlice::new(pattern.coord(), self.pattern_size, pattern.orientation);
        proof {
            lemma_content_at(self.grid, slice, 0, 0);
        }
        slice.get_checked(&self.grid, 0, 0)
    }

    /// The pattern id seen under the original orientation at every cell,
    /// row by row.
    pub fn id_grid_original_orientation(&self) -> (r: Vec<PatternId>)
        requires
            self.wf(),
            forall|c: int| 0 <= c < self.grid.size.count() ==> (#[trigger] self.id_grid@[id_slot(c, Orientation::Original)]) is Some,
        ensures
            r@.len() == self.grid.size.count(),
            forall|c: int| 0 <= c < r@.len() ==> Some(#[trigger] r@[c]) == self.id_grid@[id_slot(c, Orientation::Original)],
    {
        let cells = self.grid.cells.len();
        let slots = self.id_grid.len();
        let mut r: Vec<PatternId> = Vec::new();
        let mut c: usize = 0;
        while c < cells
            invariant
                self.wf(),
                slots == self.id_grid@.len(),
                cells == self.grid.size.count(),
                forall|c: int| 0 <= c < self.grid.size.count() ==> (#[trigger] self.id_grid@[id_slot(c, Orientation::Original)]) is Some,
                c <= cells,
                r@.len() == c,
                forall|x: int| 0 <= x < c ==> Some(#[trigger] r@[x]) == self.id_grid@[id_slot(x, Orientation::Original)],
            decreases cells - c,
        {
            assert(self.id_grid@[id_slot(c as int, Orientation::Original)] is Some);
            assert(c * 8 < self.id_grid@.len());
            match self.id_grid[c * 8] {
                Some(id) => r.push(id),
                None => r.push(0),
            }
            c = c + 1;
        }
        r
    }

    /// Every pattern that may sit in `direction` next to `pattern`, by
    /// increasing id.
    pub fn compatible_patterns(&self, pattern: &Pattern, direction: CardinalDirection) -> (r: Vec<PatternId>)
        requires
            self.wf(),
            pattern.coords@.len() > 0,
        ensures
            self.neighbour_list(
                slice_content(self.grid, TiledGridSlice { offset: pattern.coords@[0], size: self.pattern_size, orientation: pattern.orientation }),
                direction,
                r@,
            ),
    {
        let slice = TiledGridSlice::new(pattern.coord(), self.pattern_size, pattern.orientation);
        let ghost a = slice_content(self.grid, slice);
        let mut r: Vec<PatternId> = Vec::new();
        let mut j: usize = 0;
        while j < self.pattern_table.len()
            invariant
                self.wf(),
                a == slice_content(self.grid, slice),
                slice.size == self.pattern_size,
                j <= self.pattern_table@.len(),
                forall|x: int, y: int| 0 <= x < y < r@.len() ==> r@[x] < r@[y],
                forall|x: int| 0 <= x < r@.len() ==> r@[x] < j,
                forall|i: int| 0 <= i < j ==>
                    (r@.contains(i as usize) <==> tiles_compatible(a, #[trigger] self.content_of(i), self.pattern_size as int, direction)),
            decreases self.pattern_table@.len() - j,
        {
            let other = &self.pattern_table[j];
            let other_slice = TiledGridSlice::new(other.coord(), self.pattern_size, other.orientation);
            let ok = are_patterns_compatible(&self.grid, &slice, &other_slice, direction);
            let ghost before = r@;
            if ok {
                r.push(j);
            }
            proof {
                assert forall|i: int| 0 <= i < j + 1 implies
                    (r@.contains(i as usize) <==> tiles_compatible(a, #[trigger] self.content_of(i), self.pattern_size as int, direction)) by {
                    if i < j {
                        if ok {
                            if r@.contains(i as usize) {
                                let x = choose|x: int| 0 <= x < r@.len() && #[trigger] r@[x] == i as usize;
                                if x == before.len() {
                                    assert(r@[x] == j);
                                } else {
                                    assert(before[x] == i as usize);
                                }
                            }
                            if before.contains(i as usize) {
                                let x = choose|x: int| 0 <= x < before.len() && #[trigger] before[x] == i as usize;
                                assert(r@[x] == i as usize);
                            }
                        }
                    } else {
                        if ok {
                            assert(r@[before.len() as int] == j);
                        } else {
                            if r@.contains(i as usize) {
                                let x = choose|x: int| 0 <= x < r@.len() && #[trigger] r@[x] == i as usize;
                                assert(r@[x] < j);
                            }
                        }
                    }
                }
            }
            j = j + 1;
        }
        r
    }

    /// Weight and allowed neighbours of every pattern, by id.
    pub fn pattern_descriptions(&self) -> (r: Vec<PatternDescription>)
        requires
            self.wf(),
        ensures
            r@.len() == self.pattern_table@.len(),
            forall|i: int| 0 <= i < r@.len() ==> {
                let desc = #[trigger] r@[i];
                let p = self.pattern_table@[i];
                &&& desc.weight == (if p.count > 0 { Some(p.count) } else { None::<u32> })
                &&& forall|d: CardinalDirection| self.neighbour_list(self.content_of(i), d, #[trigger] desc.allowed_neighbours.get(d))
            },
    {
        let mut r: Vec<PatternDescription> = Vec::new();
        let mut i: usize = 0;
        while i < self.pattern_table.len()
            invariant
                self.wf(),
                i <= self.pattern_table@.len(),
                r@.len() == i,
                forall|x: int| 0 <= x < i ==> {
                    let desc = #[trigger] r@[x];
                    let p = self.pattern_table@[x];
                    &&& desc.weight == (if p.count > 0 { Some(p.count) } else { None::<u32> })
                    &&& forall|d: CardinalDirection| self.neighbour_list(self.content_of(x), d, #[trigger] desc.allowed_neighbours.get(d))
                },
            decreases self.pattern_table@.len() - i,
        {
            let pattern = &self.pattern_table[i];
            let weight = if pattern.count > 0 { Some(pattern.count) } else { None };
            let allowed_neighbours = CardinalDirectionTable {
                north: self.compatible_patterns(pattern, CardinalDirection::North),
                east: self.compatible_patterns(pattern, CardinalDirection::East),
                south: self.compatible_patterns(pattern, CardinalDirection::South),
                west: self.compatible_patterns(pattern, CardinalDirection::West),
            };
            let desc = PatternDescription { weight, allowed_neighbours };
            proof {
                assert forall|d: CardinalDirection| self.neighbour_list(self.content_of(i as int), d, #[trigger] desc.allowed_neighbours.get(d)) by {
                    match d {
                        CardinalDirection::North => {},
                        CardinalDirection::East => {},
                        CardinalDirection::South => {},
                        CardinalDirection::West => {},
                    }
                }
            }
            r.push(desc);
            i = i + 1;
        }
        r
    }

    /// The statistics handed to the solving engine.
    pub fn global_stats(&self) -> (r: GlobalStats)
        requires
            self.wf(),
        ensures
            r.pattern_descriptions@.len() == self.pattern_table@.len(),
            forall|i: int| 0 <= i < r.pattern_descriptions@.len() ==> {
                let desc = #[trigger] r.pattern_descriptions@[i];
                let p = self.pattern_table@[i];
                &&& desc.weight == (if p.count > 0 { Some(p.count) } else { None::<u32> })
                &&& forall|d: CardinalDirection| self.neighbour_list(self.content_of(i), d, #[trigger] desc.allowed_neighbours.get(d))
            },
    {
        GlobalStats { pattern_descriptions: self.pattern_descriptions() }
    }
}

/// Whether pattern `j` may sit in direction `d` next to pattern `i` depends
/// only on their samples, and is the same question as whether `i` may sit
/// in the opposite direction next to `j`.
pub proof fn lemma_neighbours_symmetric(p: OverlappingPatterns, i: int, j: int, d: CardinalDirection)
    ensures
        tiles_compatible(p.content_of(i), p.content_of(j), p.pattern_size as int, d)
            == tiles_compatible(p.content_of(j), p.content_of(i), p.pattern_size as int, opposite_of(d)),
{
    lemma_compatible_opposite(p.content_of(i), p.content_of(j), p.pattern_size as int, d);
}

/// Extraction assigns one id to each distinct tile it sees: the patterns hold
/// pairwise different samples, every sighted tile is held by a pattern, every
/// pattern holds a sighted tile, so there are as many ids as distinct tiles.
pub proof fn lemma_one_id_per_distinct_tile(grid: Grid, n: u32, os: Seq<Orientation>, k: nat)
    requires
        grid.wf(),
        0 < n,
        k <= occurrence_count(grid, os),
    ensures
        contents_distinct(extracted(grid, n, os, k)),
        table_contents(extracted(grid, n, os, k)) == observed_contents(grid, n, os, k),
        extracted(grid, n, os, k).len() == observed_contents(grid, n, os, k).len(),
    decreases k,
{
    let t = extracted(grid, n, os, k);
    lemma_extracted(grid, n, os, k);
    if k > 0 {
        let k1 = (k - 1) as nat;
        lemma_one_id_per_distinct_tile(grid, n, os, k1);
        lemma_extracted(grid, n, os, k1);
        let t1 = extracted(grid, n, os, k1);
        let c = occurrence_content(grid, n, os, k1 as int);
        lemma_find_content(t1, c);
        assert forall|i: int| 0 <= i < t1.len() implies #[trigger] t[i].content == t1[i].content by {}
        assert(table_contents(t) =~= table_contents(t1).insert(c)) by {
            assert forall|x: Seq<u32>| table_contents(t).contains(x) implies table_contents(t1).insert(c).contains(x) by {
                let i = choose|i: int| 0 <= i < t.len() && #[trigger] contents_of(t)[i] == x;
                if i < t1.len() {
                    assert(contents_of(t1)[i] == x);
                }
            }
            assert forall|x: Seq<u32>| table_contents(t1).insert(c).contains(x) implies table_contents(t).contains(x) by {
                if x == c {
                    let f = find_content(t1, c);
                    if f >= 0 {
                        assert(contents_of(t)[f] == x);
                    } else {
                        assert(contents_of(t)[t1.len() as int] == x);
                    }
                } else {
                    let i = choose|i: int| 0 <= i < t1.len() && #[trigger] contents_of(t1)[i] == x;
                    assert(contents_of(t)[i] == x);
                }
            }
        }
        assert(observed_contents(grid, n, os, k) =~= observed_contents(grid, n, os, k1).insert(c)) by {
            assert forall|x: Seq<u32>| observed_contents(grid, n, os, k).contains(x) implies observed_contents(grid, n, os, k1).insert(c).contains(x) by {
                let kk = choose|kk: int| 0 <= kk < k && #[trigger] occurrence_content(grid, n, os, kk) == x;
                if kk < k1 {
                    assert(observed_contents(grid, n, os, k1).contains(x));
                }
            }
            assert(occurrence_content(grid, n, os, k1 as int) == c);
        }
    }
    let m = contents_of(t);
    assert(m.no_duplicates()) by {
        assert forall|i: int, j: int| 0 <= i < m.len() && 0 <= j < m.len() && i != j implies m[i] != m[j] by {
            assert(t[i].content != t[j].content);
        }
    }
    m.unique_seq_to_set();
}

/// Two extractions of the same input under the same pattern size and
/// orientations produce the same pattern table and the same id grid.
pub proof fn lemma_extraction_deterministic(p: OverlappingPatterns, q: OverlappingPatterns, grid: Grid, n: u32, os: Seq<Orientation>)
    requires
        p.extracted_from(grid, n, os),
        q.extracted_from(grid, n, os),
    ensures
        p.pattern_table@.len() == q.pattern_table@.len(),
        forall|i: int| 0 <= i < p.pattern_table@.len() ==> {
            let a = #[trigger] p.pattern_table@[i];
            let b = q.pattern_table@[i];
            &&& a.id == b.id
            &&& a.coords@ == b.coords@
            &&& a.count == b.count
            &&& a.orientation == b.orientation
        },
        p.id_grid@ == q.id_grid@,
{
    let t = extracted(grid, n, os, occurrence_count(grid, os));
    let cells = grid.size.count() as int;
    assert forall|s: int| 0 <= s < p.id_grid@.len() implies p.id_grid@[s] == q.id_grid@[s] by {
        let c = s / 8;
        let o = orientation_at(s % 8);
        assert(orientation_index(o) == s % 8);
        assert(id_slot(c, o) == s);
        assert(0 <= c < cells);
        if os.contains(o) {
            let i = choose|i: int| 0 <= i < os.len() && os[i] == o;
            let k = i * cells + c;
            assert(0 <= k < occurrence_count(grid, os) && k % cells == c && k / cells == i) by (nonlinear_arith)
                requires k == i * cells + c, 0 <= i < os.len(), 0 <= c < cells,
                    occurrence_count(grid, os) == os.len() * cells;
            let ck = occurrence_content(grid, n, os, k);
            assert(p.id_grid@[s] == Some(find_content(t, ck) as usize));
            assert(q.id_grid@[s] == Some(find_content(t, ck) as usize));
        } else {
            assert(p.id_grid@[id_slot(c, o)] is None);
            assert(q.id_grid@[id_slot(c, o)] is None);
        }
    }
    assert(p.id_grid@ =~= q.id_grid@);
    assert forall|i: int| 0 <= i < p.pattern_table@.len() implies {
        let a = #[trigger] p.pattern_table@[i];
        let b = q.pattern_table@[i];
        &&& a.id == b.id
        &&& a.coords@ == b.coords@
        &&& a.count == b.count
        &&& a.orientation == b.orientation
    } by {
        assert(p.pattern_table@[i].matches_model(t[i]));
        assert(q.pattern_table@[i].matches_model(t[i]));
    }
}

/// An extraction has exactly one pattern per distinct tile it saw, and no two
/// of its patterns hold the same samples.
pub proof fn lemma_extraction_counts_distinct_tiles(p: OverlappingPatterns, grid: Grid, n: u32, os: Seq<Orientation>)
    requires
        p.extracted_from(grid, n, os),
    ensures
        p.pattern_table@.len() == observed_contents(grid, n, os, occurrence_count(grid, os)).len(),
        forall|i: int, j: int| 0 <= i < p.pattern_table@.len() && 0 <= j < p.pattern_table@.len() && i != j
            ==> p.content_of(i) != p.content_of(j),
{
    let k = occurrence_count(grid, os);
    let t = extracted(grid, n, os, k);
    lemma_one_id_per_distinct_tile(grid, n, os, k);
    lemma_extracted(grid, n, os, k);
    assert forall|i: int| 0 <= i < t.len() implies #[trigger] p.content_of(i) == t[i].content by {
        assert(p.pattern_table@[i].matches_model(t[i]));
        assert(canonical_slice(t[i], n) == TiledGridSlice {
            offset: p.pattern_table@[i].coords@[0],
            size: p.pattern_size,
            orientation: p.pattern_table@[i].orientation,
        });
    }
}

/// Patterns one cell wide never overlap their neighbours, so each of them
/// may sit next to every pattern in every direction.
pub proof fn lemma_single_cell_patterns_fit_everywhere(p: OverlappingPatterns, i: int, j: int, d: CardinalDirection)
    requires
        p.pattern_size == 1,
    ensures
        tiles_compatible(p.content_of(i), p.content_of(j), p.pattern_size as int, d),
{
}

} // verus!
