use wang_autotile::filler::WangFiller;
use wang_autotile::paint::{
    paint_terrain, paint_terrain_at_target, paint_terrain_horizontal_edge, paint_terrain_vertical_edge,
    paint_terrain_with_debug, preview_terrain_at_target, preview_terrain_at_targets, update_tile_with_neighbors,
    PaintTarget,
};
use wang_autotile::position::{CellInfo, WangId, WangPosition};
use wang_autotile::select::{collect_candidates, pick_weighted, score_tile};
use wang_autotile::target::get_paint_target;
use wang_autotile::terrain::{TerrainSet, TerrainSetType, TileTerrainData};

fn uniform(slots: usize, terrain: u8) -> TileTerrainData {
    TileTerrainData { terrains: vec![Some(terrain); slots] }
}

fn one_tile_mixed() -> TerrainSet {
    let mut ts = TerrainSet::new(TerrainSetType::Mixed);
    ts.add_tile(7, uniform(8, 0), 1);
    ts
}

#[test]
fn corner_paint_fills_four_cells() {
    let ts = one_tile_mixed();
    let mut tiles: Vec<Option<u32>> = vec![None; 9];
    paint_terrain_at_target(&mut tiles, 3, 3, PaintTarget::Corner { corner_x: 1, corner_y: 1 }, &ts, 0);
    let expected = vec![Some(7), Some(7), None, Some(7), Some(7), None, None, None, None];
    assert_eq!(tiles, expected);
}

#[test]
fn edge_paint_selects_matching_tile() {
    let mut ts = TerrainSet::new(TerrainSetType::Edge);
    ts.add_tile(10, uniform(4, 0), 1);
    ts.add_tile(20, uniform(4, 1), 1);
    ts.set_transition_penalty(0, 1, 0);
    ts.set_transition_penalty(1, 0, 0);
    let mut tiles: Vec<Option<u32>> = vec![None; 2];
    paint_terrain_horizontal_edge(&mut tiles, 1, 2, 0, 1, &ts, 0);
    assert_eq!(tiles, vec![Some(10), Some(10)]);
}

#[test]
fn paint_is_deterministic() {
    let mut ts = TerrainSet::new(TerrainSetType::Mixed);
    for id in 0..6u32 {
        ts.add_tile(id, uniform(8, 0), id + 1);
    }
    let start: Vec<Option<u32>> = vec![None; 16];
    let mut a = start.clone();
    let mut b = start.clone();
    paint_terrain(&mut a, 4, 4, 2, 2, &ts, 0);
    paint_terrain(&mut b, 4, 4, 2, 2, &ts, 0);
    assert_eq!(a, b);
    assert_eq!(a.iter().filter(|t| t.is_some()).count(), 4);
}

#[test]
fn placed_tiles_meet_hard_constraints() {
    let mut ts = TerrainSet::new(TerrainSetType::Corner);
    ts.add_tile(1, uniform(4, 0), 1);
    ts.add_tile(2, uniform(4, 1), 1);
    ts.add_tile(3, TileTerrainData { terrains: vec![Some(1), Some(0), Some(1), Some(1)] }, 1);
    let mut tiles: Vec<Option<u32>> = vec![Some(2); 9];
    paint_terrain(&mut tiles, 3, 3, 1, 1, &ts, 0);
    // The cell above-right of corner (1, 1) must show terrain 0 at its
    // bottom-left corner: only tile 1 does.
    assert_eq!(tiles[4], Some(1));
    let wang = ts.tile_wang(1).unwrap();
    assert_eq!(wang.color_at(WangPosition::BottomLeft), 1);
}

#[test]
fn no_acceptable_tile_leaves_cells_alone() {
    let mut ts = TerrainSet::new(TerrainSetType::Edge);
    ts.add_tile(20, uniform(4, 1), 1);
    let mut tiles: Vec<Option<u32>> = vec![None; 2];
    paint_terrain_horizontal_edge(&mut tiles, 1, 2, 0, 1, &ts, 0);
    assert_eq!(tiles, vec![None, None]);
}

#[test]
fn neighbor_outside_region_is_corrected_once() {
    let mut ts = TerrainSet::new(TerrainSetType::Mixed);
    ts.add_tile(1, uniform(8, 0), 1);
    ts.add_tile(2, uniform(8, 1), 1);
    let mut tiles: Vec<Option<u32>> = vec![Some(2); 3];
    paint_terrain_vertical_edge(&mut tiles, 3, 1, 1, 0, &ts, 0);
    assert_eq!(tiles, vec![Some(1), Some(1), Some(1)]);
}

#[test]
fn out_of_range_targets_touch_nothing() {
    let ts = one_tile_mixed();
    let mut tiles: Vec<Option<u32>> = vec![None; 4];
    paint_terrain_at_target(&mut tiles, 2, 2, PaintTarget::Corner { corner_x: 9, corner_y: 9 }, &ts, 0);
    paint_terrain_at_target(&mut tiles, 2, 2, PaintTarget::HorizontalEdge { tile_x: 5, edge_y: 0 }, &ts, 0);
    paint_terrain_at_target(&mut tiles, 2, 2, PaintTarget::VerticalEdge { edge_x: 0, tile_y: 7 }, &ts, 0);
    assert_eq!(tiles, vec![None; 4]);
    // A corner on the grid's edge touches only the cells that exist.
    paint_terrain_with_debug(&mut tiles, 2, 2, 2, 0, &ts, 0, true);
    assert_eq!(tiles, vec![None, Some(7), None, None]);
}

#[test]
fn preview_matches_paint_without_changing_grid() {
    let ts = one_tile_mixed();
    let tiles: Vec<Option<u32>> = vec![None; 9];
    let target = PaintTarget::Corner { corner_x: 1, corner_y: 1 };
    let preview = preview_terrain_at_target(&tiles, 3, 3, target, &ts, 0);
    assert_eq!(tiles, vec![None; 9]);
    assert_eq!(preview, vec![((0, 0), 7), ((1, 0), 7), ((0, 1), 7), ((1, 1), 7)]);
    let mut painted = tiles.clone();
    paint_terrain_at_target(&mut painted, 3, 3, target, &ts, 0);
    for ((x, y), t) in &preview {
        assert_eq!(painted[(*y as usize) * 3 + *x as usize], Some(*t));
    }
}

#[test]
fn preview_of_several_targets_lists_each_cell_once() {
    let ts = one_tile_mixed();
    let tiles: Vec<Option<u32>> = vec![None; 9];
    let targets = vec![
        PaintTarget::Corner { corner_x: 1, corner_y: 1 },
        PaintTarget::Corner { corner_x: 2, corner_y: 1 },
    ];
    let preview = preview_terrain_at_targets(&tiles, 3, 3, &targets, &ts, 0);
    assert_eq!(
        preview,
        vec![((0, 0), 7), ((1, 0), 7), ((2, 0), 7), ((0, 1), 7), ((1, 1), 7), ((2, 1), 7)]
    );
    assert!(preview_terrain_at_targets(&tiles, 3, 3, &[], &ts, 0).is_empty());
    let unchanged = preview_terrain_at_target(&vec![Some(7); 9], 3, 3, targets[0], &ts, 0);
    assert!(unchanged.is_empty());
}

#[test]
fn update_single_tile_prefers_terrain() {
    let mut ts = TerrainSet::new(TerrainSetType::Mixed);
    ts.add_tile(1, uniform(8, 0), 1);
    ts.add_tile(2, uniform(8, 1), 1);
    let mut tiles: Vec<Option<u32>> = vec![None; 4];
    update_tile_with_neighbors(&mut tiles, 2, 2, 1, 0, &ts, 1);
    assert_eq!(tiles, vec![None, Some(2), None, None]);
    update_tile_with_neighbors(&mut tiles, 2, 2, -1, 0, &ts, 0);
    assert_eq!(tiles, vec![None, Some(2), None, None]);
}

#[test]
fn filler_with_preset_constraint() {
    let mut ts = TerrainSet::new(TerrainSetType::Edge);
    ts.add_tile(10, uniform(4, 0), 1);
    ts.add_tile(20, uniform(4, 1), 1);
    let mut tiles: Vec<Option<u32>> = vec![None; 1];
    let mut filler = WangFiller::with_seed(&ts, 5);
    filler.get_cell_mut(0, 0).set_constraint(WangPosition::Left, 2);
    filler.apply(&mut tiles, 1, 1, &[(0, 0), (3, 3), (-1, 0)]);
    assert_eq!(tiles, vec![Some(20)]);
    let mut other = WangFiller::new(&ts);
    other.get_cell_mut(0, 0).set_constraint_at_index(8, 1);
    other.apply(&mut tiles, 1, 1, &[(0, 0)]);
    assert_eq!(tiles, vec![Some(10)]);
}

#[test]
fn scoring_hard_and_soft() {
    let mut ts = TerrainSet::new(TerrainSetType::Mixed);
    ts.set_transition_penalty(0, 1, 250);
    let mut cell = CellInfo::new();
    cell.set_constraint(WangPosition::Top, 1);
    cell.set_preference(WangPosition::Right, 1);
    let mut tile = WangId::filled(1);
    assert_eq!(score_tile(&ts, &cell, &tile), Some(0));
    tile.set_color(WangPosition::Right, 0);
    assert_eq!(score_tile(&ts, &cell, &tile), Some(1000));
    tile.set_color(WangPosition::Right, 2);
    assert_eq!(score_tile(&ts, &cell, &tile), Some(250));
    tile.set_color(WangPosition::Top, 2);
    assert_eq!(score_tile(&ts, &cell, &tile), None);
    // In corner mode the top edge does not count.
    let corner = TerrainSet::new(TerrainSetType::Corner);
    assert_eq!(score_tile(&corner, &cell, &tile), Some(0));
}

#[test]
fn candidates_are_least_penalty_tiles() {
    let mut ts = TerrainSet::new(TerrainSetType::Edge);
    ts.add_tile(1, uniform(4, 0), 3);
    ts.add_tile(2, uniform(4, 1), 5);
    ts.add_tile(3, uniform(4, 0), 2);
    ts.add_tile(4, TileTerrainData { terrains: vec![None; 4] }, 9);
    let mut cell = CellInfo::new();
    cell.set_preference_at_index(0, 1);
    assert_eq!(collect_candidates(&ts, &cell), vec![(1, 3), (3, 2)]);
    let blank = CellInfo::new();
    assert_eq!(collect_candidates(&ts, &blank), vec![(1, 3), (2, 5), (3, 2)]);
}

#[test]
fn weighted_pick_exact_values() {
    let c = vec![(1u32, 1u32), (2, 3)];
    assert_eq!(pick_weighted(&c, 0), Some(1));
    assert_eq!(pick_weighted(&c, 0x3fff_ffff), Some(1));
    assert_eq!(pick_weighted(&c, 0x4000_0000), Some(2));
    assert_eq!(pick_weighted(&c, u32::MAX), Some(2));
    assert_eq!(pick_weighted(&vec![(9, 0)], 123), Some(9));
    assert_eq!(pick_weighted(&vec![(4, 0), (5, 0)], 123), Some(4));
    assert_eq!(pick_weighted(&vec![], 123), None);
}

#[test]
fn paint_targets_by_mode() {
    assert_eq!(get_paint_target(10, 10, 32, TerrainSetType::Corner), PaintTarget::Corner { corner_x: 0, corner_y: 0 });
    assert_eq!(get_paint_target(20, 10, 32, TerrainSetType::Corner), PaintTarget::Corner { corner_x: 1, corner_y: 0 });
    assert_eq!(get_paint_target(-5, 5, 32, TerrainSetType::Corner), PaintTarget::Corner { corner_x: 0, corner_y: 0 });
    assert_eq!(get_paint_target(70, 5, 32, TerrainSetType::Corner), PaintTarget::Corner { corner_x: 2, corner_y: 0 });
    assert_eq!(get_paint_target(16, 2, 32, TerrainSetType::Edge), PaintTarget::VerticalEdge { edge_x: 1, tile_y: 0 });
    assert_eq!(get_paint_target(2, 16, 32, TerrainSetType::Edge), PaintTarget::HorizontalEdge { tile_x: 0, edge_y: 1 });
    assert_eq!(get_paint_target(16, 2, 32, TerrainSetType::Mixed), PaintTarget::HorizontalEdge { tile_x: 0, edge_y: 0 });
    assert_eq!(get_paint_target(16, 16, 32, TerrainSetType::Mixed), PaintTarget::Corner { corner_x: 1, corner_y: 1 });
    assert_eq!(get_paint_target(12, 12, 32, TerrainSetType::Mixed), PaintTarget::Corner { corner_x: 0, corner_y: 0 });
    assert_eq!(get_paint_target(1, 1, 32, TerrainSetType::Mixed), PaintTarget::Corner { corner_x: 0, corner_y: 0 });
    assert_eq!(get_paint_target(31, 16, 32, TerrainSetType::Mixed), PaintTarget::VerticalEdge { edge_x: 1, tile_y: 0 });
    assert_eq!(get_paint_target(31, 31, 32, TerrainSetType::Mixed), PaintTarget::Corner { corner_x: 1, corner_y: 1 });
    assert_eq!(get_paint_target(-40, -40, 32, TerrainSetType::Mixed), PaintTarget::Corner { corner_x: 0, corner_y: 0 });
}

#[test]
fn positions_and_colors() {
    assert_eq!(WangPosition::from_index(9), WangPosition::TopRight);
    assert_eq!(WangPosition::Top.opposite(), WangPosition::Bottom);
    assert_eq!(WangPosition::TopLeft.next(), WangPosition::Top);
    assert_eq!(WangPosition::Top.prev(), WangPosition::TopLeft);
    assert!(WangPosition::BottomRight.is_corner());
    assert!(!WangPosition::Left.is_corner());
    assert_eq!(WangId::opposite_index(6), 2);
    assert_eq!(WangId::opposite_index(usize::MAX), 3);
    assert_eq!(WangId::next_index(7), 0);
    assert_eq!(WangId::prev_index(0), 7);
    assert!(WangId::is_corner(3));
    let mut w = WangId::wildcard();
    assert!(!w.has_any_terrain());
    w.set_color_at_index(10, 4);
    assert_eq!(w.color_at_index(2), 4);
    assert_eq!(w.color_at(WangPosition::Right), 4);
    assert!(w.has_any_terrain());
}

#[test]
fn constraints_win_over_preferences() {
    let mut cell = CellInfo::new();
    cell.set_constraint(WangPosition::Top, 3);
    cell.set_preference(WangPosition::Top, 5);
    assert_eq!(cell.desired.color_at(WangPosition::Top), 3);
    assert!(cell.is_constrained(WangPosition::Top));
    cell.set_preference_at_index(1, 5);
    assert_eq!(cell.desired.color_at_index(1), 5);
    assert!(!cell.is_constrained_at_index(1));
    cell.set_constraint_at_index(1, 6);
    assert_eq!(cell.desired.color_at_index(1), 6);
    assert!(cell.is_constrained_at_index(9));
}

#[test]
fn terrain_data_maps_slots_per_mode() {
    let data = TileTerrainData { terrains: vec![Some(0), Some(1), Some(2), Some(3)] };
    let corner = TerrainSet::new(TerrainSetType::Corner);
    let w = corner.tile_terrain_to_wang_id(&data);
    assert_eq!(w.colors, [0, 2, 0, 4, 0, 3, 0, 1]);
    let edge = TerrainSet::new(TerrainSetType::Edge);
    let w = edge.tile_terrain_to_wang_id(&data);
    assert_eq!(w.colors, [1, 0, 2, 0, 3, 0, 4, 0]);
    let full = TileTerrainData { terrains: vec![Some(0), Some(1), Some(2), Some(3), Some(4), Some(5), Some(6), None] };
    let mixed = TerrainSet::new(TerrainSetType::Mixed);
    let w = mixed.tile_terrain_to_wang_id(&full);
    assert_eq!(w.colors, [2, 3, 4, 5, 6, 7, 0, 1]);
    assert_eq!(data.get(9), None);
    assert!(data.has_any_terrain());
}

#[test]
fn terrain_set_lookups() {
    let mut ts = TerrainSet::new(TerrainSetType::Mixed);
    ts.add_tile(4, uniform(8, 0), 2);
    ts.add_tile(4, uniform(8, 1), 6);
    assert_eq!(ts.tiles.len(), 1);
    assert_eq!(ts.get_tile_probability(4), 6);
    assert_eq!(ts.get_tile_probability(5), 0);
    assert!(ts.get_tile_terrain(5).is_none());
    assert_eq!(ts.transition_penalty(3, 3), 1000);
    ts.set_transition_penalty(2, 1, 40);
    assert_eq!(ts.transition_penalty(2, 1), 40);
    assert_eq!(ts.transition_penalty(2, 0), 1000);
}

#[test]
fn existing_tile_only_prefers() {
    let mut ts = TerrainSet::new(TerrainSetType::Mixed);
    ts.add_tile(1, uniform(8, 0), 1);
    ts.add_tile(2, uniform(8, 1), 1);
    // The cell holds tile 2; painting terrain 0 at its corner replaces it,
    // since its own colors were only preferences.
    let mut tiles: Vec<Option<u32>> = vec![Some(2)];
    paint_terrain(&mut tiles, 1, 1, 0, 0, &ts, 0);
    assert_eq!(tiles, vec![Some(1)]);
}

#[test]
fn corners_and_edges_paint_independently() {
    // Corners of terrain 0 with edges of terrain 1: a corner paint of
    // terrain 0 must not require the edges.
    let corners_only = TileTerrainData { terrains: vec![Some(0), Some(1), Some(0), Some(1), Some(0), Some(1), Some(0), Some(1)] };
    let mut ts = TerrainSet::new(TerrainSetType::Mixed);
    ts.add_tile(5, corners_only, 1);
    let mut tiles: Vec<Option<u32>> = vec![None; 4];
    paint_terrain(&mut tiles, 2, 2, 1, 1, &ts, 0);
    assert_eq!(tiles, vec![Some(5); 4]);
    // Edges of terrain 0 with corners of terrain 1: an edge paint of
    // terrain 0 must not require the corners.
    let edges_only = TileTerrainData { terrains: vec![Some(1), Some(0), Some(1), Some(0), Some(1), Some(0), Some(1), Some(0)] };
    let mut ts = TerrainSet::new(TerrainSetType::Mixed);
    ts.add_tile(6, edges_only, 1);
    let mut tiles: Vec<Option<u32>> = vec![None; 2];
    paint_terrain_vertical_edge(&mut tiles, 2, 1, 1, 0, &ts, 0);
    assert_eq!(tiles, vec![Some(6), Some(6)]);
}

#[test]
fn random_choice_varies_with_seed() {
    let mut ts = TerrainSet::new(TerrainSetType::Mixed);
    ts.add_tile(1, uniform(8, 0), 1);
    ts.add_tile(2, uniform(8, 0), 1);
    let mut seen = [false, false];
    for seed in 0..32u64 {
        let mut tiles: Vec<Option<u32>> = vec![None];
        let mut filler = WangFiller::with_seed(&ts, seed);
        filler.apply(&mut tiles, 1, 1, &[(0, 0)]);
        let t = tiles[0].unwrap();
        seen[(t - 1) as usize] = true;
        let mut again: Vec<Option<u32>> = vec![None];
        let mut same = WangFiller::with_seed(&ts, seed);
        same.apply(&mut again, 1, 1, &[(0, 0)]);
        assert_eq!(tiles, again);
    }
    assert!(seen[0] && seen[1]);
}

#[test]
fn preview_lists_corrected_neighbors() {
    let mut ts = TerrainSet::new(TerrainSetType::Mixed);
    ts.add_tile(1, uniform(8, 0), 1);
    ts.add_tile(2, uniform(8, 1), 1);
    let tiles: Vec<Option<u32>> = vec![Some(2); 3];
    let target = PaintTarget::VerticalEdge { edge_x: 1, tile_y: 0 };
    let preview = preview_terrain_at_target(&tiles, 3, 1, target, &ts, 0);
    assert_eq!(preview, vec![((0, 0), 1), ((1, 0), 1), ((2, 0), 1)]);
    assert_eq!(tiles, vec![Some(2); 3]);
}

#[test]
fn well_formed_sets() {
    let mut ts = TerrainSet::new(TerrainSetType::Mixed);
    ts.add_tile(1, uniform(8, 0), 1);
    ts.add_tile(2, uniform(8, 254), 1);
    assert!(ts.is_well_formed());
    ts.tiles.push(ts.tiles[0].clone());
    assert!(!ts.is_well_formed());
    let mut bad = TerrainSet::new(TerrainSetType::Edge);
    bad.add_tile(1, uniform(4, 255), 1);
    assert!(!bad.is_well_formed());
    assert!(!uniform(4, 255).is_valid());
}
