//! The terrain set: which terrain each tile carries at its corners and edges,
//! the cost of putting one terrain where another is wanted, and how often
//! each tile should be chosen.

use vstd::prelude::*;
use crate::position::{TerrainId, WangId};

verus! {

/// Penalty units: transition costs are given in thousandths, and a position
/// where a tile has no terrain at all, but a terrain is wanted, costs one unit.
pub const UNSET_PENALTY: u32 = 1000;

/// How a terrain set assigns terrain to a tile.
#[derive(Debug, Clone, Copy, PartialEq, Eq, Structural, Hash)]
pub enum TerrainSetType {
    /// Four corners: slots top-left, top-right, bottom-left, bottom-right.
    Corner,
    /// Four edges: slots top, right, bottom, left.
    Edge,
    /// All eight: slots top-left, top, top-right, right, bottom-right,
    /// bottom, bottom-left, left.
    Mixed,
}

/// Whether clock index `i` takes part in matching for a set type.
pub open spec fn is_active(mode: TerrainSetType, i: int) -> bool {
    match mode {
        TerrainSetType::Corner => i % 2 == 1,
        TerrainSetType::Edge => i % 2 == 0,
        TerrainSetType::Mixed => true,
    }
}

/// Whether clock index `i` takes part in matching for a set type.
pub fn is_active_position(mode: TerrainSetType, i: usize) -> (r: bool)
    ensures
        r == is_active(mode, i as int),
{
    match mode {
        TerrainSetType::Corner => i % 2 == 1,
        TerrainSetType::Edge => i % 2 == 0,
        TerrainSetType::Mixed => true,
    }
}

/// The slot of a tile's terrain data that feeds clock index `p`, or -1.
pub open spec fn slot_of(mode: TerrainSetType, p: int) -> int {
    match mode {
        TerrainSetType::Corner => if p == 7 {
            0
        } else if p == 1 {
            1
        } else if p == 5 {
            2
        } else if p == 3 {
            3
        } else {
            -1
        },
        TerrainSetType::Edge => if p % 2 == 0 {
            p / 2
        } else {
            -1
        },
        TerrainSetType::Mixed => (p + 1) % 8,
    }
}

/// The stored color of terrain index `t`: `t + 1`, in eight bits.
pub open spec fn color_of(t: u8) -> u8 {
    ((t + 1) % 256) as u8
}

/// The color that slot `k` of some terrain data gives: 0 where it is empty.
pub open spec fn slot_color(data: Seq<Option<u8>>, k: int) -> u8 {
    if 0 <= k < data.len() {
        match data[k] {
            Some(t) => color_of(t),
            None => 0,
        }
    } else {
        0
    }
}

/// The eight colors that terrain data gives under a set type.
pub open spec fn colors_of(mode: TerrainSetType, data: Seq<Option<u8>>) -> Seq<u8> {
    Seq::new(8, |p: int| slot_color(data, slot_of(mode, p)))
}

/// A tile's terrain per slot (an index into the terrain set's terrains);
/// `None` is no terrain. Slot meaning depends on the set type.
#[derive(Debug, Clone)]
pub struct TileTerrainData {
    pub terrains: Vec<Option<u8>>,
}

impl TileTerrainData {
    /// Every terrain index has a color: it is below 255.
    pub open spec fn valid(self) -> bool {
        forall|k: int| 0 <= k < self.terrains@.len() && #[trigger] self.terrains@[k] is Some ==> self.terrains@[k]->0 < 255
    }

    /// Whether every terrain index is below 255.
    pub fn is_valid(&self) -> (r: bool)
        ensures
            r == self.valid(),
    {
        let mut i: usize = 0;
        while i < self.terrains.len()
            invariant
                i <= self.terrains@.len(),
                forall|k: int| 0 <= k < i && #[trigger] self.terrains@[k] is Some ==> self.terrains@[k]->0 < 255,
            decreases self.terrains@.len() - i,
        {
            if let Some(t) = self.terrains[i] {
                if t == 255 {
                    return false;
                }
            }
            i = i + 1;
        }
        true
    }

    /// The terrain at slot `i`, or `None` past the end.
    pub fn get(&self, i: usize) -> (r: Option<u8>)
        ensures
            r == (if i < self.terrains@.len() {
                self.terrains@[i as int]
            } else {
                None
            }),
    {
        if i < self.terrains.len() {
            self.terrains[i]
        } else {
            None
        }
    }

    /// Whether some slot holds a terrain.
    pub fn has_any_terrain(&self) -> (r: bool)
        ensures
            r == exists|i: int| 0 <= i < self.terrains@.len() && #[trigger] self.terrains@[i] is Some,
    {
        let mut i: usize = 0;
        while i < self.terrains.len()
            invariant
                i <= self.terrains@.len(),
                forall|j: int| 0 <= j < i ==> self.terrains@[j] is None,
            decreases self.terrains@.len() - i,
        {
            if self.terrains[i].is_some() {
                return true;
            }
            i = i + 1;
        }
        false
    }
}

/// One tile of a terrain set.
#[derive(Debug, Clone)]
pub struct TerrainTile {
    pub tile_id: u32,
    pub terrain: TileTerrainData,
    /// Relative selection weight.
    pub probability: u32,
}

/// The tiles of a terrain set with their terrain, and the transition costs.
#[derive(Debug, Clone)]
pub struct TerrainSet {
    pub set_type: TerrainSetType,
    /// The tiles, in the order in which selection visits them.
    pub tiles: Vec<TerrainTile>,
    /// `penalties[from][to]`: the cost of terrain `to` where `from` is wanted.
    pub penalties: Vec<Vec<u32>>,
}

/// The index of the first tile with id `id` among `tiles[from..]`.
pub open spec fn find_tile_from(tiles: Seq<TerrainTile>, id: u32, from: int) -> Option<int>
    decreases tiles.len() - from,
{
    if from < 0 || from >= tiles.len() {
        None
    } else if tiles[from].tile_id == id {
        Some(from)
    } else {
        find_tile_from(tiles, id, from + 1)
    }
}

/// What the first match says: it is in range, it has the id, and no
/// earlier tile from `from` on does.
pub proof fn lemma_find_tile_from(tiles: Seq<TerrainTile>, id: u32, from: int)
    ensures
        match find_tile_from(tiles, id, from) {
            Some(k) => from <= k < tiles.len() && tiles[k].tile_id == id && forall|j: int|
                from <= j < k ==> #[trigger] tiles[j].tile_id != id,
            None => forall|j: int| 0 <= from <= j < tiles.len() ==> #[trigger] tiles[j].tile_id != id,
        },
    decreases tiles.len() - from,
{
    if from >= 0 && from < tiles.len() && tiles[from].tile_id != id {
        lemma_find_tile_from(tiles, id, from + 1);
    }
}

impl TerrainSet {
    /// A usable terrain set: tile ids are distinct, as the keys of a map,
    /// and every terrain index is below 255, so that it has a color.
    pub open spec fn wf(self) -> bool {
        &&& forall|i: int, j: int|
            0 <= i < j < self.tiles@.len() ==> #[trigger] self.tiles@[i].tile_id != #[trigger] self.tiles@[j].tile_id
        &&& forall|k: int| 0 <= k < self.tiles@.len() ==> (#[trigger] self.tiles@[k]).terrain.valid()
    }

    /// Whether the set is usable (see `wf`).
    pub fn is_well_formed(&self) -> (r: bool)
        ensures
            r == self.wf(),
    {
        let mut i: usize = 0;
        while i < self.tiles.len()
            invariant
                i <= self.tiles@.len(),
                forall|a: int, b: int|
                    0 <= a < b < self.tiles@.len() && a < i ==> #[trigger] self.tiles@[a].tile_id
                        != #[trigger] self.tiles@[b].tile_id,
                forall|k: int| 0 <= k < i ==> (#[trigger] self.tiles@[k]).terrain.valid(),
            decreases self.tiles@.len() - i,
        {
            if !self.tiles[i].terrain.is_valid() {
                return false;
            }
            let mut j: usize = i + 1;
            while j < self.tiles.len()
                invariant
                    i < self.tiles@.len(),
                    i + 1 <= j <= self.tiles@.len(),
                    forall|b: int| i < b < j ==> self.tiles@[i as int].tile_id != #[trigger] self.tiles@[b].tile_id,
                decreases self.tiles@.len() - j,
            {
                if self.tiles[i].tile_id == self.tiles[j].tile_id {
                    return false;
                }
                j = j + 1;
            }
            i = i + 1;
        }
        true
    }

    /// The colors of the `k`-th tile.
    pub open spec fn colors_at(self, k: int) -> Seq<u8> {
        colors_of(self.set_type, self.tiles@[k].terrain.terrains@)
    }

    /// The colors of the tile with id `id`, if the set has it.
    pub open spec fn colors_of_tile(self, id: u32) -> Option<Seq<u8>> {
        match find_tile_from(self.tiles@, id, 0) {
            Some(k) => Some(self.colors_at(k)),
            None => None,
        }
    }

    /// The cost of terrain `to` where terrain `from` is wanted; one unit
    /// where the table has no entry.
    pub open spec fn penalty_spec(self, from: int, to: int) -> int {
        if 0 <= from < self.penalties@.len() && 0 <= to < self.penalties@[from]@.len() {
            self.penalties@[from]@[to] as int
        } else {
            UNSET_PENALTY as int
        }
    }

    /// An empty set of the given type.
    pub fn new(set_type: TerrainSetType) -> (r: Self)
        ensures
            r.set_type == set_type,
            r.tiles@.len() == 0,
            r.penalties@.len() == 0,
    {
        TerrainSet { set_type, tiles: Vec::new(), penalties: Vec::new() }
    }

    /// Gives tile `tile_id` its terrain data and weight, replacing what the
    /// first entry of that id held, or adding an entry at the end.
    pub fn add_tile(&mut self, tile_id: u32, terrain: TileTerrainData, probability: u32)
        ensures
            final(self).set_type == old(self).set_type,
            final(self).penalties == old(self).penalties,
            old(self).wf() && terrain.valid() ==> final(self).wf(),
            match find_tile_from(old(self).tiles@, tile_id, 0) {
                Some(k) => final(self).tiles@ == old(self).tiles@.update(
                    k,
                    TerrainTile { tile_id, terrain, probability },
                ),
                None => final(self).tiles@ == old(self).tiles@.push(
                    TerrainTile { tile_id, terrain, probability },
                ),
            },
    {
        proof {
            lemma_find_tile_from(self.tiles@, tile_id, 0);
        }
        match self.find_tile(tile_id) {
            Some(k) => {
                self.tiles.set(k, TerrainTile { tile_id, terrain, probability });
            },
            None => {
                self.tiles.push(TerrainTile { tile_id, terrain, probability });
            },
        }
    }

    /// Sets the cost of terrain `to` where `from` is wanted, growing the
    /// table as needed (new entries cost one unit).
    pub fn set_transition_penalty(&mut self, from: usize, to: usize, cost: u32)
        ensures
            final(self).set_type == old(self).set_type,
            final(self).tiles == old(self).tiles,
            final(self).penalty_spec(from as int, to as int) == cost,
            forall|f: int, t: int|
                !(f == from && t == to) ==> #[trigger] final(self).penalty_spec(f, t)
                    == old(self).penalty_spec(f, t),
    {
        while self.penalties.len() <= from
            invariant
                self.set_type == old(self).set_type,
                self.tiles == old(self).tiles,
                forall|f: int, t: int| #[trigger] self.penalty_spec(f, t) == old(self).penalty_spec(f, t),
                old(self).penalties@.len() <= self.penalties@.len(),
            decreases from + 1 - self.penalties@.len(),
        {
            let ghost before = *self;
            self.penalties.push(Vec::new());
            assert forall|f: int, t: int| #[trigger] self.penalty_spec(f, t) == before.penalty_spec(f, t) by {
                if 0 <= f < before.penalties@.len() {
                    assert(self.penalties@[f] == before.penalties@[f]);
                }
            }
        }
        let mut row = self.penalties[from].clone();
        while row.len() <= to
            invariant
                forall|t: int| 0 <= t < row@.len() ==> #[trigger] row@[t] as int == self.penalty_spec(from as int, t),
                forall|t: int| row@.len() <= t ==> #[trigger] self.penalty_spec(from as int, t) == UNSET_PENALTY,
            decreases to + 1 - row@.len(),
        {
            row.push(UNSET_PENALTY);
        }
        row.set(to, cost);
        let ghost before = *self;
        self.penalties.set(from, row);
        assert forall|f: int, t: int| !(f == from && t == to) implies #[trigger] self.penalty_spec(f, t)
            == old(self).penalty_spec(f, t) by {
            assert(self.penalty_spec(f, t) == before.penalty_spec(f, t));
        }
    }

    /// The index of the first tile with id `id`.
    pub fn find_tile(&self, id: u32) -> (r: Option<usize>)
        ensures
            match r {
                Some(k) => find_tile_from(self.tiles@, id, 0) == Some(k as int),
                None => find_tile_from(self.tiles@, id, 0) is None,
            },
    {
        let mut i: usize = 0;
        while i < self.tiles.len()
            invariant
                i <= self.tiles@.len(),
                find_tile_from(self.tiles@, id, 0) == find_tile_from(self.tiles@, id, i as int),
            decreases self.tiles@.len() - i,
        {
            if self.tiles[i].tile_id == id {
                return Some(i);
            }
            i = i + 1;
        }
        None
    }

    /// The terrain data of tile `id`, if the set has it.
    pub fn get_tile_terrain(&self, id: u32) -> (r: Option<&TileTerrainData>)
        ensures
            match find_tile_from(self.tiles@, id, 0) {
                Some(k) => r == Some(&self.tiles@[k].terrain),
                None => r is None,
            },
    {
        proof {
            lemma_find_tile_from(self.tiles@, id, 0);
        }
        match self.find_tile(id) {
            Some(k) => Some(&self.tiles[k].terrain),
            None => None,
        }
    }

    /// The selection weight of tile `id`; 0 if the set lacks it.
    pub fn get_tile_probability(&self, id: u32) -> (r: u32)
        ensures
            match find_tile_from(self.tiles@, id, 0) {
                Some(k) => r == self.tiles@[k].probability,
                None => r == 0,
            },
    {
        proof {
            lemma_find_tile_from(self.tiles@, id, 0);
        }
        match self.find_tile(id) {
            Some(k) => self.tiles[k].probability,
            None => 0,
        }
    }

    /// The cost of terrain `to` where terrain `from` is wanted.
    pub fn transition_penalty(&self, from: usize, to: usize) -> (r: u32)
        ensures
            r == self.penalty_spec(from as int, to as int),
    {
        if from < self.penalties.len() && to < self.penalties[from].len() {
            self.penalties[from][to]
        } else {
            UNSET_PENALTY
        }
    }

    /// The colors that terrain data gives under this set's type.
    pub fn tile_terrain_to_wang_id(&self, data: &TileTerrainData) -> (r: WangId)
        ensures
            r.colors@ == colors_of(self.set_type, data.terrains@),
    {
        let mut wang = WangId::wildcard();
        let mut p: usize = 0;
        while p < 8
            invariant
                p <= 8,
                forall|q: int| 0 <= q < p ==> wang.colors@[q] == slot_color(data.terrains@, slot_of(self.set_type, q)),
            decreases 8 - p,
        {
            let slot = slot_index(self.set_type, p);
            let color: TerrainId = match slot {
                Some(k) => match data.get(k) {
                    Some(t) => t.wrapping_add(1),
                    None => 0,
                },
                None => 0,
            };
            wang.colors[p] = color;
            p = p + 1;
        }
        assert(wang.colors@ =~= colors_of(self.set_type, data.terrains@));
        wang
    }

    /// The colors of tile `id`, if the set has it.
    pub fn tile_wang(&self, id: u32) -> (r: Option<WangId>)
        ensures
            match self.colors_of_tile(id) {
                Some(c) => r is Some && r->0.colors@ == c,
                None => r is None,
            },
    {
        match self.get_tile_terrain(id) {
            Some(data) => Some(self.tile_terrain_to_wang_id(data)),
            None => None,
        }
    }
}

/// The slot that feeds clock index `p` (`p < 8`).
fn slot_index(mode: TerrainSetType, p: usize) -> (r: Option<usize>)
    requires
        p < 8,
    ensures
        match r {
            Some(k) => k as int == slot_of(mode, p as int) && k < 8,
            None => slot_of(mode, p as int) == -1,
        },
{
    match mode {
        TerrainSetType::Corner => if p == 7 {
            Some(0)
        } else if p == 1 {
            Some(1)
        } else if p == 5 {
            Some(2)
        } else if p == 3 {
            Some(3)
        } else {
            None
        },
        TerrainSetType::Edge => if p % 2 == 0 {
            Some(p / 2)
        } else {
            None
        },
        TerrainSetType::Mixed => Some((p + 1) % 8),
    }
}

} // verus!
