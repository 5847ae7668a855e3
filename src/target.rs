//! From a brush position to a paint target: the nearest corner, the nearer
//! edge, or (mixed sets) a zone of a three by three split of the cell.

use vstd::prelude::*;
use vstd::arithmetic::div_mod::{lemma_fundamental_div_mod, lemma_fundamental_div_mod_converse};
use crate::paint::PaintTarget;
use crate::terrain::TerrainSetType;

verus! {

/// A cell coordinate clamped into `u32`.
pub open spec fn clamp_coord(v: int) -> u32 {
    if v < 0 {
        0
    } else if v > u32::MAX {
        u32::MAX
    } else {
        v as u32
    }
}

/// Which third of the cell an offset `r` (of `size`) falls in, split at
/// 0.33 and 0.67.
pub open spec fn zone(r: int, size: int) -> int {
    if 100 * r < 33 * size {
        0
    } else if 100 * r < 67 * size {
        1
    } else {
        2
    }
}

/// The paint target under world position `(world_x, world_y)` with cells
/// `tile_size` wide (y grows upward). The cell is `world / tile_size`
/// rounded down and the offset within it `world mod tile_size`, in
/// `[0, tile_size)` also for negative positions.
pub open spec fn paint_target_spec(world_x: i64, world_y: i64, tile_size: u32, set_type: TerrainSetType) -> PaintTarget {
    let s = tile_size as int;
    let tx = world_x as int / s;
    let ty = world_y as int / s;
    let rx = world_x as int % s;
    let ry = world_y as int % s;
    let near_x = if 2 * rx < s {
        tx
    } else {
        tx + 1
    };
    let near_y = if 2 * ry < s {
        ty
    } else {
        ty + 1
    };
    match set_type {
        TerrainSetType::Corner => PaintTarget::Corner { corner_x: clamp_coord(near_x), corner_y: clamp_coord(near_y) },
        TerrainSetType::Edge => {
            let dist_h = if 2 * ry >= s {
                2 * ry - s
            } else {
                s - 2 * ry
            };
            let dist_v = if 2 * rx >= s {
                2 * rx - s
            } else {
                s - 2 * rx
            };
            if dist_h < dist_v {
                PaintTarget::HorizontalEdge { tile_x: clamp_coord(tx), edge_y: clamp_coord(near_y) }
            } else {
                PaintTarget::VerticalEdge { edge_x: clamp_coord(near_x), tile_y: clamp_coord(ty) }
            }
        },
        TerrainSetType::Mixed => {
            let zx = zone(rx, s);
            let zy = zone(ry, s);
            if zx == 1 && zy == 1 {
                PaintTarget::Corner { corner_x: clamp_coord(near_x), corner_y: clamp_coord(near_y) }
            } else if zx == 1 {
                PaintTarget::HorizontalEdge {
                    tile_x: clamp_coord(tx),
                    edge_y: clamp_coord(
                        if zy == 0 {
                            ty
                        } else {
                            ty + 1
                        },
                    ),
                }
            } else if zy == 1 {
                PaintTarget::VerticalEdge {
                    edge_x: clamp_coord(
                        if zx == 0 {
                            tx
                        } else {
                            tx + 1
                        },
                    ),
                    tile_y: clamp_coord(ty),
                }
            } else {
                PaintTarget::Corner {
                    corner_x: clamp_coord(
                        if zx == 0 {
                            tx
                        } else {
                            tx + 1
                        },
                    ),
                    corner_y: clamp_coord(
                        if zy == 0 {
                            ty
                        } else {
                            ty + 1
                        },
                    ),
                }
            }
        },
    }
}

/// `v` divided by `size`, rounded down, and the remainder in `[0, size)`.
fn floor_div_rem(v: i64, size: u32) -> (r: (i64, u64))
    requires
        size > 0,
    ensures
        r.0 as int == v as int / size as int,
        r.1 as int == v as int % size as int,
        r.1 < size,
{
    let s = size as u64;
    if v >= 0 {
        let a = v as u64;
        proof {
            lemma_fundamental_div_mod(a as int, s as int);
        }
        ((a / s) as i64, a % s)
    } else {
        let a = (-(v + 1)) as u64;
        let qa = a / s;
        let ra = a % s;
        proof {
            lemma_fundamental_div_mod(a as int, s as int);
            assert(qa * s <= a) by (nonlinear_arith)
                requires
                    a == qa * s + ra,
                    0 <= ra,
            ;
            assert(v as int == (-(qa as int) - 1) * (s as int) + (s - 1 - ra)) by (nonlinear_arith)
                requires
                    a == qa * s + ra,
                    v == -(a + 1),
            ;
            lemma_fundamental_div_mod_converse(v as int, s as int, -(qa as int) - 1, s - 1 - ra);
            assert(qa <= a) by (nonlinear_arith)
                requires
                    qa * s <= a,
                    s >= 1,
                    qa >= 0,
            ;
        }
        (-(qa as i64) - 1, s - 1 - ra)
    }
}

/// A cell coordinate clamped into `u32`.
fn clamp_exec(v: i64) -> (r: u32)
    ensures
        r == clamp_coord(v as int),
{
    if v < 0 {
        0
    } else if v > u32::MAX as i64 {
        u32::MAX
    } else {
        v as u32
    }
}

/// The coordinate after `v`, clamped into `u32`.
fn clamp_next(v: i64) -> (r: u32)
    ensures
        r == clamp_coord(v + 1),
{
    if v >= u32::MAX as i64 {
        u32::MAX
    } else {
        clamp_exec(v + 1)
    }
}

/// Which third of the cell an offset falls in.
fn zone_exec(r: u64, size: u32) -> (z: u8)
    requires
        r < size,
    ensures
        z as int == zone(r as int, size as int),
{
    let s = size as u64;
    if 100 * r < 33 * s {
        0
    } else if 100 * r < 67 * s {
        1
    } else {
        2
    }
}

/// The paint target under a world position, for cells `tile_size` wide:
/// corner sets take the nearest corner; edge sets the nearer of the
/// horizontal and vertical edges, on the nearer side; mixed sets split the
/// cell into thirds each way, with corner zones giving corners, side zones
/// edges, and the middle the nearest corner. Coordinates below zero become 0.
pub fn get_paint_target(world_x: i64, world_y: i64, tile_size: u32, set_type: TerrainSetType) -> (r: PaintTarget)
    requires
        tile_size > 0,
    ensures
        r == paint_target_spec(world_x, world_y, tile_size, set_type),
{
    let (tx, rx) = floor_div_rem(world_x, tile_size);
    let (ty, ry) = floor_div_rem(world_y, tile_size);
    let s = tile_size as u64;
    let near_x = if 2 * rx < s {
        clamp_exec(tx)
    } else {
        clamp_next(tx)
    };
    let near_y = if 2 * ry < s {
        clamp_exec(ty)
    } else {
        clamp_next(ty)
    };
    match set_type {
        TerrainSetType::Corner => PaintTarget::Corner { corner_x: near_x, corner_y: near_y },
        TerrainSetType::Edge => {
            let dist_h = if 2 * ry >= s {
                2 * ry - s
            } else {
                s - 2 * ry
            };
            let dist_v = if 2 * rx >= s {
                2 * rx - s
            } else {
                s - 2 * rx
            };
            if dist_h < dist_v {
                PaintTarget::HorizontalEdge { tile_x: clamp_exec(tx), edge_y: near_y }
            } else {
                PaintTarget::VerticalEdge { edge_x: near_x, tile_y: clamp_exec(ty) }
            }
        },
        TerrainSetType::Mixed => {
            let zx = zone_exec(rx, tile_size);
            let zy = zone_exec(ry, tile_size);
            let low_x = clamp_exec(tx);
            let high_x = clamp_next(tx);
            let low_y = clamp_exec(ty);
            let high_y = clamp_next(ty);
            if zx == 1 && zy == 1 {
                PaintTarget::Corner { corner_x: near_x, corner_y: near_y }
            } else if zx == 1 {
                PaintTarget::HorizontalEdge {
                    tile_x: low_x,
                    edge_y: if zy == 0 {
                        low_y
                    } else {
                        high_y
                    },
                }
            } else if zy == 1 {
                PaintTarget::VerticalEdge {
                    edge_x: if zx == 0 {
                        low_x
                    } else {
                        high_x
                    },
                    tile_y: low_y,
                }
            } else {
                PaintTarget::Corner {
                    corner_x: if zx == 0 {
                        low_x
                    } else {
                        high_x
                    },
                    corner_y: if zy == 0 {
                        low_y
                    } else {
                        high_y
                    },
                }
            }
        },
    }
}

} // verus!
