use vstd::prelude::*;
use crate::geometry::{Orientation, Size};
use crate::grid::Grid;
use crate::model::occurrence_count;
use crate::overlapping::{GlobalStats, InputError, OverlappingPatterns, Pattern, PatternId};

verus! {

/// Red channel of a colour packed as `r + 256 g + 65536 b + 16777216 a`.
pub open spec fn red(c: u32) -> int {
    c as int % 256
}

pub open spec fn green(c: u32) -> int {
    (c as int / 256) % 256
}

pub open spec fn blue(c: u32) -> int {
    (c as int / 65536) % 256
}

pub open spec fn alpha(c: u32) -> int {
    (c as int / 16777216) % 256
}

/// Channel `k` of a packed colour: 0 red, 1 green, 2 blue, 3 alpha.
pub open spec fn channel(c: u32, k: int) -> int {
    if k == 0 {
        red(c)
    } else if k == 1 {
        green(c)
    } else if k == 2 {
        blue(c)
    } else {
        alpha(c)
    }
}

pub open spec fn pack(r: int, g: int, b: int, a: int) -> int {
    r + 256 * g + 65536 * b + 16777216 * a
}

/// Packs four channels into one sample.
pub fn rgba(r: u8, g: u8, b: u8, a: u8) -> (c: u32)
    ensures
        c as int == pack(r as int, g as int, b as int, a as int),
        red(c) == r,
        green(c) == g,
        blue(c) == b,
        alpha(c) == a,
{
    r as u32 + 256 * g as u32 + 65536 * b as u32 + 16777216 * a as u32
}

/// The four channels of a packed sample.
pub fn channels(c: u32) -> (r: (u8, u8, u8, u8))
    ensures
        r.0 == red(c),
        r.1 == green(c),
        r.2 == blue(c),
        r.3 == alpha(c),
        c as int == pack(r.0 as int, r.1 as int, r.2 as int, r.3 as int),
{
    ((c % 256) as u8, (c / 256 % 256) as u8, (c / 65536 % 256) as u8, (c / 16777216 % 256) as u8)
}

/// What the solving engine holds for one cell, as it enumerates the
/// patterns still compatible with it.
pub enum EnumerateCompatiblePatternWeights {
    NoCompatiblePattern,
    SingleCompatiblePatternWithoutWeight(PatternId),
    MultipleCompatiblePatternsWithoutWeights,
    CompatiblePatternsWithWeights(Vec<(PatternId, u32)>),
}

/// A solver result: for each output cell, row by row, the pattern it was
/// collapsed to, if any.
pub struct Wave {
    pub size: Size,
    pub cells: Vec<Option<PatternId>>,
}

impl Wave {
    pub open spec fn wf(&self) -> bool {
        self.cells@.len() == self.size.count()
    }

    /// Every chosen pattern is one of `n` patterns.
    pub open spec fn ids_below(&self, n: nat) -> bool {
        forall|i: int| 0 <= i < self.cells@.len() && (#[trigger] self.cells@[i]) is Some ==> self.cells@[i]->0 < n
    }
}

/// Sum of the weights in `ws`.
pub open spec fn total_weight(ws: Seq<(PatternId, u32)>) -> int
    decreases ws.len(),
{
    if ws.len() == 0 {
        0
    } else {
        total_weight(ws.drop_last()) + ws.last().1
    }
}

pub proof fn lemma_total_weight_nonnegative(ws: Seq<(PatternId, u32)>)
    ensures
        total_weight(ws) >= 0,
    decreases ws.len(),
{
    if ws.len() > 0 {
        lemma_total_weight_nonnegative(ws.drop_last());
    }
}

/// Patterns extracted from an image, and the colour shown where no single
/// pattern is known.
pub struct ImagePatterns {
    pub overlapping_patterns: OverlappingPatterns,
    pub empty_colour: u32,
}

impl ImagePatterns {
    pub open spec fn wf(&self) -> bool {
        self.overlapping_patterns.wf()
    }

    pub open spec fn num_patterns(&self) -> nat {
        self.overlapping_patterns.pattern_table@.len()
    }

    /// Top-left sample of pattern `id`.
    pub open spec fn top_left(&self, id: int) -> u32 {
        self.overlapping_patterns.content_of(id)[0]
    }

    /// Sum over `ws` of channel `k` of each pattern's top-left sample times
    /// its weight.
    pub open spec fn weighted_sum(&self, ws: Seq<(PatternId, u32)>, k: int) -> int
        decreases ws.len(),
    {
        if ws.len() == 0 {
            0
        } else {
            self.weighted_sum(ws.drop_last(), k) + channel(self.top_left(ws.last().0 as int), k) * ws.last().1
        }
    }

    /// The weighted mean colour of `ws`, channel by channel, rounded down.
    pub open spec fn weighted_mean(&self, ws: Seq<(PatternId, u32)>) -> int {
        let t = total_weight(ws);
        pack(
            self.weighted_sum(ws, 0) / t,
            self.weighted_sum(ws, 1) / t,
            self.weighted_sum(ws, 2) / t,
            self.weighted_sum(ws, 3) / t,
        )
    }

    /// The colour shown for a cell in state `cell`.
    pub open spec fn cell_colour(&self, cell: EnumerateCompatiblePatternWeights) -> int {
        match cell {
            EnumerateCompatiblePatternWeights::NoCompatiblePattern => self.empty_colour as int,
            EnumerateCompatiblePatternWeights::MultipleCompatiblePatternsWithoutWeights => self.empty_colour as int,
            EnumerateCompatiblePatternWeights::SingleCompatiblePatternWithoutWeight(id) => self.top_left(id as int) as int,
            EnumerateCompatiblePatternWeights::CompatiblePatternsWithWeights(ws) =>
                if total_weight(ws@) == 0 {
                    self.empty_colour as int
                } else {
                    self.weighted_mean(ws@)
                },
        }
    }

    /// `out` shows each cell of `wave`: the top-left sample of its pattern,
    /// or the empty colour.
    pub open spec fn renders(&self, wave: Wave, out: Grid) -> bool {
        &&& out.size == wave.size
        &&& out.cells@.len() == wave.cells@.len()
        &&& forall|i: int| 0 <= i < out.cells@.len() ==> #[trigger] out.cells@[i] == match wave.cells@[i] {
            Some(id) => self.top_left(id as int),
            None => self.empty_colour,
        }
    }

    /// Extracts the patterns of an image held as packed colours; the empty
    /// colour starts fully transparent.
    pub fn new(grid: Grid, pattern_size: u32, orientations: &Vec<Orientation>) -> (r: Result<ImagePatterns, InputError>)
        requires
            grid.wf(),
            occurrence_count(grid, orientations@) <= u32::MAX,
            grid.size.count() * 8 <= usize::MAX,
        ensures
            pattern_size == 0 ==> r == Err::<ImagePatterns, InputError>(InputError::PatternSizeZero),
            pattern_size > 0 && (pattern_size > grid.size.width || pattern_size > grid.size.height)
                ==> r == Err::<ImagePatterns, InputError>(InputError::PatternLargerThanGrid),
            0 < pattern_size <= grid.size.width && pattern_size <= grid.size.height && orientations@.len() == 0
                ==> r == Err::<ImagePatterns, InputError>(InputError::NoOrientations),
            0 < pattern_size <= grid.size.width && pattern_size <= grid.size.height && orientations@.len() > 0
                ==> r is Ok,
            r matches Ok(p) ==> p.overlapping_patterns.extracted_from(grid, pattern_size, orientations@)
                && p.empty_colour == 0 && p.wf(),
    {
        match OverlappingPatterns::new(grid, pattern_size, orientations) {
            Ok(overlapping_patterns) => Ok(ImagePatterns { overlapping_patterns, empty_colour: 0 }),
            Err(e) => Err(e),
        }
    }

    pub fn set_empty_colour(&mut self, empty_colour: u32)
        ensures
            final(self).empty_colour == empty_colour,
            final(self).overlapping_patterns == old(self).overlapping_patterns,
    {
        self.empty_colour = empty_colour;
    }

    /// Shows each cell of `wave` as the top-left sample of the pattern it
    /// collapsed to, or as the empty colour.
    pub fn image_from_wave(&self, wave: &Wave) -> (r: Grid)
        requires
            self.wf(),
            wave.wf(),
            wave.ids_below(self.num_patterns()),
        ensures
            self.renders(*wave, r),
    {
        let mut cells: Vec<u32> = Vec::new();
        let mut i: usize = 0;
        while i < wave.cells.len()
            invariant
                self.wf(),
                wave.ids_below(self.num_patterns()),
                i <= wave.cells@.len(),
                cells@.len() == i,
                forall|x: int| 0 <= x < i ==> #[trigger] cells@[x] == match wave.cells@[x] {
                    Some(id) => self.top_left(id as int),
                    None => self.empty_colour,
                },
            decreases wave.cells@.len() - i,
        {
            let colour = match wave.cells[i] {
                Some(pattern_id) => self.overlapping_patterns.pattern_top_left_value(pattern_id),
                None => self.empty_colour,
            };
            cells.push(colour);
            i = i + 1;
        }
        Grid { size: wave.size, cells }
    }

    pub proof fn lemma_weighted_sum_bounds(&self, ws: Seq<(PatternId, u32)>, k: int)
        ensures
            0 <= self.weighted_sum(ws, k) <= 255 * total_weight(ws),
            0 <= total_weight(ws),
        decreases ws.len(),
    {
        if ws.len() > 0 {
            self.lemma_weighted_sum_bounds(ws.drop_last(), k);
            let c = channel(self.top_left(ws.last().0 as int), k);
            let w = ws.last().1 as int;
            assert(0 <= c * w <= 255 * w) by (nonlinear_arith)
                requires 0 <= c <= 255, 0 <= w;
        }
    }

    pub proof fn lemma_prefix_weight(ws: Seq<(PatternId, u32)>, i: int)
        requires
            0 <= i <= ws.len(),
        ensures
            0 <= total_weight(ws.take(i)) <= total_weight(ws),
        decreases ws.len() - i,
    {
        lemma_total_weight_nonnegative(ws.take(i));
        if i < ws.len() {
            Self::lemma_prefix_weight(ws, i + 1);
            assert(ws.take(i + 1).drop_last() =~= ws.take(i));
        } else {
            assert(ws.take(i) =~= ws);
        }
    }

    /// The colour shown for a cell that the solver has not collapsed: the
    /// single remaining pattern's top-left sample, the weighted mean of the
    /// remaining patterns' top-left samples, or the empty colour when no
    /// pattern or no weight is known.
    pub fn weighted_average_colour(&self, cell: &EnumerateCompatiblePatternWeights) -> (r: u32)
        requires
            self.wf(),
            match *cell {
                EnumerateCompatiblePatternWeights::SingleCompatiblePatternWithoutWeight(id) => id < self.num_patterns(),
                EnumerateCompatiblePatternWeights::CompatiblePatternsWithWeights(ws) =>
                    total_weight(ws@) <= u32::MAX
                    && forall|i: int| 0 <= i < ws@.len() ==> (#[trigger] ws@[i]).0 < self.num_patterns(),
                _ => true,
            },
        ensures
            r as int == self.cell_colour(*cell),
    {
        match cell {
            EnumerateCompatiblePatternWeights::NoCompatiblePattern => self.empty_colour,
            EnumerateCompatiblePatternWeights::MultipleCompatiblePatternsWithoutWeights => self.empty_colour,
            EnumerateCompatiblePatternWeights::SingleCompatiblePatternWithoutWeight(pattern_id) => {
                self.overlapping_patterns.pattern_top_left_value(*pattern_id)
            },
            EnumerateCompatiblePatternWeights::CompatiblePatternsWithWeights(ws) => {
                let ghost s = ws@;
                let mut sums: (u64, u64, u64, u64) = (0, 0, 0, 0);
                let mut total: u64 = 0;
                let mut i: usize = 0;
                while i < ws.len()
                    invariant
                        self.wf(),
                        s == ws@,
                        total_weight(s) <= u32::MAX,
                        forall|x: int| 0 <= x < s.len() ==> (#[trigger] s[x]).0 < self.num_patterns(),
                        i <= s.len(),
                        total as int == total_weight(s.take(i as int)),
                        sums.0 as int == self.weighted_sum(s.take(i as int), 0),
                        sums.1 as int == self.weighted_sum(s.take(i as int), 1),
                        sums.2 as int == self.weighted_sum(s.take(i as int), 2),
                        sums.3 as int == self.weighted_sum(s.take(i as int), 3),
                    decreases s.len() - i,
                {
                    let (pattern_id, weight) = ws[i];
                    let (r, g, b, a) = channels(self.overlapping_patterns.pattern_top_left_value(pattern_id));
                    proof {
                        let next = s.take(i + 1);
                        assert(next.drop_last() =~= s.take(i as int));
                        Self::lemma_prefix_weight(s, i + 1);
                        self.lemma_weighted_sum_bounds(next, 0);
                        self.lemma_weighted_sum_bounds(next, 1);
                        self.lemma_weighted_sum_bounds(next, 2);
                        self.lemma_weighted_sum_bounds(next, 3);
                    }
                    sums = (
                        sums.0 + r as u64 * weight as u64,
                        sums.1 + g as u64 * weight as u64,
                        sums.2 + b as u64 * weight as u64,
                        sums.3 + a as u64 * weight as u64,
                    );
                    total = total + weight as u64;
                    i = i + 1;
                }
                proof {
                    assert(s.take(s.len() as int) =~= s);
                }
                if total == 0 {
                    return self.empty_colour;
                }
                proof {
                    self.lemma_weighted_sum_bounds(s, 0);
                    self.lemma_weighted_sum_bounds(s, 1);
                    self.lemma_weighted_sum_bounds(s, 2);
                    self.lemma_weighted_sum_bounds(s, 3);
                    assert(sums.0 / total <= 255 && sums.1 / total <= 255 && sums.2 / total <= 255 && sums.3 / total <= 255)
                        by (nonlinear_arith)
                        requires
                            sums.0 <= 255 * total, sums.1 <= 255 * total, sums.2 <= 255 * total,
                            sums.3 <= 255 * total, total > 0;
                }
                rgba(
                    (sums.0 / total) as u8,
                    (sums.1 / total) as u8,
                    (sums.2 / total) as u8,
                    (sums.3 / total) as u8,
                )
            },
        }
    }

    pub fn grid(&self) -> (r: &Grid)
        ensures
            r == &self.overlapping_patterns.grid,
    {
        &self.overlapping_patterns.grid
    }

    pub fn id_grid_original_orientation(&self) -> (r: Vec<PatternId>)
        requires
            self.wf(),
            forall|c: int| 0 <= c < self.overlapping_patterns.grid.size.count()
                ==> (#[trigger] self.overlapping_patterns.id_grid@[crate::overlapping::id_slot(c, Orientation::Original)]) is Some,
        ensures
            r@.len() == self.overlapping_patterns.grid.size.count(),
            forall|c: int| 0 <= c < r@.len() ==> Some(#[trigger] r@[c])
                == self.overlapping_patterns.id_grid@[crate::overlapping::id_slot(c, Orientation::Original)],
    {
        self.overlapping_patterns.id_grid_original_orientation()
    }

    pub fn pattern(&self, pattern_id: PatternId) -> (r: &Pattern)
        requires
            pattern_id < self.num_patterns(),
        ensures
            r == &self.overlapping_patterns.pattern_table@[pattern_id as int],
    {
        self.overlapping_patterns.pattern(pattern_id)
    }

    pub fn pattern_mut(&mut self, pattern_id: PatternId) -> (r: &mut Pattern)
        requires
            pattern_id < old(self).num_patterns(),
        ensures
            *r == old(self).overlapping_patterns.pattern_table@[pattern_id as int],
            final(self).overlapping_patterns.pattern_table@
                == old(self).overlapping_patterns.pattern_table@.update(pattern_id as int, *final(r)),
            final(self).overlapping_patterns.grid == old(self).overlapping_patterns.grid,
            final(self).overlapping_patterns.pattern_size == old(self).overlapping_patterns.pattern_size,
            final(self).overlapping_patterns.id_grid == old(self).overlapping_patterns.id_grid,
            final(self).empty_colour == old(self).empty_colour,
    {
        self.overlapping_patterns.pattern_mut(pattern_id)
    }

    pub fn id_grid(&self) -> (r: Vec<Option<PatternId>>)
        ensures
            r@ == self.overlapping_patterns.id_grid@,
    {
        self.overlapping_patterns.id_grid()
    }

    pub fn global_stats(&self) -> (r: GlobalStats)
        requires
            self.wf(),
        ensures
            r.pattern_descriptions@.len() == self.num_patterns(),
            forall|i: int| 0 <= i < r.pattern_descriptions@.len() ==> {
                let desc = #[trigger] r.pattern_descriptions@[i];
                let p = self.overlapping_patterns.pattern_table@[i];
                &&& desc.weight == (if p.count > 0 { Some(p.count) } else { None::<u32> })
                &&& forall|d: crate::geometry::CardinalDirection| self.overlapping_patterns.neighbour_list(
                    self.overlapping_patterns.content_of(i),
                    d,
                    #[trigger] desc.allowed_neighbours.get(d),
                )
            },
    {
        self.overlapping_patterns.global_stats()
    }
}

} // verus!
