//! Clock positions around a cell, the eight terrain colors of a tile, and
//! the per-cell constraint record.

use vstd::prelude::*;

verus! {

/// Terrain color: 0 is "no terrain" (a wildcard), `t + 1` is terrain index `t`.
pub type TerrainId = u8;

/// Positions around a cell, clockwise from the top:
/// ```text
///   7|0|1
///   6|X|2
///   5|4|3
/// ```
/// Even indices are edges, odd indices are corners.
#[derive(Debug, Clone, Copy, PartialEq, Eq, Structural, Hash)]
pub enum WangPosition {
    Top,
    TopRight,
    Right,
    BottomRight,
    Bottom,
    BottomLeft,
    Left,
    TopLeft,
}

impl WangPosition {
    /// The clock index of this position, in `0..8`.
    pub open spec fn index_spec(self) -> nat {
        match self {
            WangPosition::Top => 0,
            WangPosition::TopRight => 1,
            WangPosition::Right => 2,
            WangPosition::BottomRight => 3,
            WangPosition::Bottom => 4,
            WangPosition::BottomLeft => 5,
            WangPosition::Left => 6,
            WangPosition::TopLeft => 7,
        }
    }

    /// The clock index of this position.
    pub fn index(self) -> (r: usize)
        ensures
            r == self.index_spec(),
            r < 8,
    {
        match self {
            WangPosition::Top => 0,
            WangPosition::TopRight => 1,
            WangPosition::Right => 2,
            WangPosition::BottomRight => 3,
            WangPosition::Bottom => 4,
            WangPosition::BottomLeft => 5,
            WangPosition::Left => 6,
            WangPosition::TopLeft => 7,
        }
    }

    /// The position with clock index `i mod 8`.
    pub fn from_index(i: usize) -> (r: Self)
        ensures
            r.index_spec() == i % 8,
    {
        let k = i % 8;
        if k == 0 {
            WangPosition::Top
        } else if k == 1 {
            WangPosition::TopRight
        } else if k == 2 {
            WangPosition::Right
        } else if k == 3 {
            WangPosition::BottomRight
        } else if k == 4 {
            WangPosition::Bottom
        } else if k == 5 {
            WangPosition::BottomLeft
        } else if k == 6 {
            WangPosition::Left
        } else {
            WangPosition::TopLeft
        }
    }

    /// The position across the cell.
    pub fn opposite(self) -> (r: Self)
        ensures
            r.index_spec() == (self.index_spec() + 4) % 8,
    {
        Self::from_index(self.index() + 4)
    }

    /// Whether this is a corner (odd index).
    pub fn is_corner(self) -> (r: bool)
        ensures
            r == (self.index_spec() % 2 == 1),
    {
        self.index() % 2 == 1
    }

    /// The next position clockwise.
    pub fn next(self) -> (r: Self)
        ensures
            r.index_spec() == (self.index_spec() + 1) % 8,
    {
        Self::from_index(self.index() + 1)
    }

    /// The previous position, counter-clockwise.
    pub fn prev(self) -> (r: Self)
        ensures
            r.index_spec() == (self.index_spec() + 7) % 8,
    {
        Self::from_index(self.index() + 7)
    }
}

/// Whether clock index `i` is a corner.
pub open spec fn is_corner_index(i: int) -> bool {
    i % 2 == 1
}

/// The clock index across the cell from `i`.
pub open spec fn opposite_of(i: int) -> int {
    (i + 4) % 8
}

/// Eight terrain colors, indexed by clock position.
/// All zeros is the wildcard, which matches anything.
#[derive(Clone, Copy, Debug, PartialEq, Eq, Hash)]
pub struct WangId {
    pub colors: [TerrainId; 8],
}

impl WangId {
    /// The colors as a sequence of length 8.
    pub open spec fn view(self) -> Seq<u8> {
        self.colors@
    }

    /// Whether some position holds a terrain.
    pub open spec fn has_terrain_spec(self) -> bool {
        exists|i: int| 0 <= i < 8 && #[trigger] self.colors@[i] != 0
    }

    /// The wildcard: no terrain anywhere.
    pub fn wildcard() -> (r: Self)
        ensures
            forall|i: int| 0 <= i < 8 ==> #[trigger] r.colors@[i] == 0,
    {
        WangId { colors: [0u8, 0u8, 0u8, 0u8, 0u8, 0u8, 0u8, 0u8] }
    }

    /// One terrain color at all eight positions.
    pub fn filled(terrain: TerrainId) -> (r: Self)
        ensures
            forall|i: int| 0 <= i < 8 ==> #[trigger] r.colors@[i] == terrain,
    {
        WangId { colors: [terrain, terrain, terrain, terrain, terrain, terrain, terrain, terrain] }
    }

    /// The color at a position.
    pub fn color_at(&self, pos: WangPosition) -> (r: TerrainId)
        ensures
            r == self.colors@[pos.index_spec() as int],
    {
        self.colors[pos.index()]
    }

    /// Sets the color at a position.
    pub fn set_color(&mut self, pos: WangPosition, color: TerrainId)
        ensures
            final(self).colors@ == old(self).colors@.update(pos.index_spec() as int, color),
    {
        let i = pos.index();
        self.colors[i] = color;
    }

    /// The color at clock index `i mod 8`.
    pub fn color_at_index(&self, i: usize) -> (r: TerrainId)
        ensures
            r == self.colors@[(i % 8) as int],
    {
        self.colors[i % 8]
    }

    /// Sets the color at clock index `i mod 8`.
    pub fn set_color_at_index(&mut self, i: usize, color: TerrainId)
        ensures
            final(self).colors@ == old(self).colors@.update((i % 8) as int, color),
    {
        self.colors[i % 8] = color;
    }

    /// The clock index across the cell: the position of a neighbor that faces us.
    pub fn opposite_index(i: usize) -> (r: usize)
        ensures
            r == opposite_of(i as int),
            r < 8,
    {
        (i % 8 + 4) % 8
    }

    /// Whether clock index `i` is a corner.
    pub fn is_corner(i: usize) -> (r: bool)
        ensures
            r == is_corner_index(i as int),
    {
        i % 2 == 1
    }

    /// The next clock index, clockwise.
    pub fn next_index(i: usize) -> (r: usize)
        ensures
            r == (i + 1) % 8,
    {
        (i % 8 + 1) % 8
    }

    /// The previous clock index, counter-clockwise.
    pub fn prev_index(i: usize) -> (r: usize)
        ensures
            r == (i + 7) % 8,
    {
        (i % 8 + 7) % 8
    }

    /// Whether some position holds a terrain.
    pub fn has_any_terrain(&self) -> (r: bool)
        ensures
            r == self.has_terrain_spec(),
    {
        let mut i: usize = 0;
        while i < 8
            invariant
                i <= 8,
                forall|j: int| 0 <= j < i ==> self.colors@[j] == 0,
            decreases 8 - i,
        {
            if self.colors[i] != 0 {
                return true;
            }
            i = i + 1;
        }
        false
    }
}

/// The constraints on one cell: a desired color at each position, and a
/// mask of the positions where that color is required.
#[derive(Clone, Copy, Debug, PartialEq, Eq)]
pub struct CellInfo {
    /// Desired terrain colors at each position.
    pub desired: WangId,
    /// Where `mask[i]` holds, a tile must have `desired.colors[i]` at `i`.
    pub mask: [bool; 8],
}

/// The record of a cell that nothing constrains.
pub open spec fn blank_cell() -> CellInfo {
    CellInfo {
        desired: WangId { colors: [0u8, 0u8, 0u8, 0u8, 0u8, 0u8, 0u8, 0u8] },
        mask: [false, false, false, false, false, false, false, false],
    }
}

/// `c` with a hard constraint of `color` at clock index `i`.
pub open spec fn constrained(c: CellInfo, i: int, color: u8) -> CellInfo {
    CellInfo {
        desired: WangId { colors: vstd::array::spec_array_update(c.desired.colors, i, color) },
        mask: vstd::array::spec_array_update(c.mask, i, true),
    }
}

/// `c` with a preference for `color` at clock index `i`, unless `i` is
/// already required.
pub open spec fn preferred(c: CellInfo, i: int, color: u8) -> CellInfo {
    if c.mask@[i] {
        c
    } else {
        CellInfo {
            desired: WangId { colors: vstd::array::spec_array_update(c.desired.colors, i, color) },
            mask: c.mask,
        }
    }
}

impl CellInfo {
    /// A record with no desired colors and no requirements.
    pub fn new() -> (r: Self)
        ensures
            r == blank_cell(),
    {
        CellInfo {
            desired: WangId { colors: [0u8, 0u8, 0u8, 0u8, 0u8, 0u8, 0u8, 0u8] },
            mask: [false, false, false, false, false, false, false, false],
        }
    }

    /// Requires `color` at a position; this always wins over a preference.
    pub fn set_constraint(&mut self, pos: WangPosition, color: TerrainId)
        ensures
            *final(self) == constrained(*old(self), pos.index_spec() as int, color),
    {
        let idx = pos.index();
        self.desired.colors[idx] = color;
        self.mask[idx] = true;
    }

    /// Requires `color` at clock index `i mod 8`.
    pub fn set_constraint_at_index(&mut self, i: usize, color: TerrainId)
        ensures
            *final(self) == constrained(*old(self), (i % 8) as int, color),
    {
        let idx = i % 8;
        self.desired.colors[idx] = color;
        self.mask[idx] = true;
    }

    /// Prefers `color` at a position, unless the position is already required.
    pub fn set_preference(&mut self, pos: WangPosition, color: TerrainId)
        ensures
            *final(self) == preferred(*old(self), pos.index_spec() as int, color),
    {
        let idx = pos.index();
        if !self.mask[idx] {
            self.desired.colors[idx] = color;
        }
    }

    /// Prefers `color` at clock index `i mod 8`, unless it is already required.
    pub fn set_preference_at_index(&mut self, i: usize, color: TerrainId)
        ensures
            *final(self) == preferred(*old(self), (i % 8) as int, color),
    {
        let idx = i % 8;
        if !self.mask[idx] {
            self.desired.colors[idx] = color;
        }
    }

    /// Whether a position is required.
    pub fn is_constrained(&self, pos: WangPosition) -> (r: bool)
        ensures
            r == self.mask@[pos.index_spec() as int],
    {
        self.mask[pos.index()]
    }

    /// Whether clock index `i mod 8` is required.
    pub fn is_constrained_at_index(&self, i: usize) -> (r: bool)
        ensures
            r == self.mask@[(i % 8) as int],
    {
        self.mask[i % 8]
    }
}

} // verus!
