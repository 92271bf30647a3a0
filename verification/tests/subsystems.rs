use foragers::band::{BandCenter, BandCenterMode, update_band_center_system};
use foragers::entities::{ActionEat, Calories, Creature, Goal, Plant, PlantType, FoodSource};
use foragers::grid::{GameGrid, Position, Tile, TileKind, is_outside_band_radius, manhattan};
use foragers::pathfind::{compute_waypoints, successors};
use foragers::planner::{idle_goal_selection_system, procreation_system, pregnancy_system};
use foragers::spatial::{SpatialGrid, spatial_grid_system};
use foragers::vitals::{calorie_burn_system, death_system};
use foragers::world::Config;
use foragers::{
    BAND_RADIUS, HUMAN_MAX_CALORIES, HUMAN_PREGNANCY_DURATION, LIVE_COST, MOVE_COST,
    PREGNANT_COST, WORK_COST,
};

fn grid_of(rows: Vec<Vec<Tile>>) -> GameGrid {
    GameGrid { tiles: rows }
}

fn dirt(cost: i32) -> Tile {
    Tile { kind: TileKind::Dirt, move_cost: cost }
}

fn uniform_grid(w: usize, h: usize, cost: i32) -> GameGrid {
    grid_of(vec![vec![dirt(cost); w]; h])
}

fn pos(x: i32, y: i32) -> Position {
    Position { x, y }
}

fn bare_creature(id: u64, p: Position, current: i64) -> Creature {
    Creature {
        id,
        pos: p,
        calories: Calories { current, max: HUMAN_MAX_CALORIES },
        goal: None,
        travel: None,
        path: None,
        requires_at: None,
        outside_band: false,
        pregnancy: None,
    }
}

fn wheat(id: u64, p: Position, nutrition: i64) -> Plant {
    Plant {
        id,
        pos: p,
        plant_type: PlantType::Wheat,
        food: FoodSource { nutrition_value: nutrition },
        harvestable: true,
        edible: true,
    }
}

#[test]
fn standard_config_matches_species_constants() {
    let c = Config::standard();
    assert_eq!(c.move_cost, MOVE_COST);
    assert_eq!(c.live_cost, LIVE_COST);
    assert_eq!(c.work_cost, WORK_COST);
    assert_eq!(c.pregnant_cost, PREGNANT_COST);
    assert_eq!(c.max_calories, HUMAN_MAX_CALORIES);
    assert_eq!(c.pregnancy_duration, HUMAN_PREGNANCY_DURATION);
    assert_eq!(c.band_radius, BAND_RADIUS);
    assert_eq!(MOVE_COST, 2);
    assert_eq!(LIVE_COST, 1);
    assert_eq!(WORK_COST, 20);
    assert_eq!(PREGNANT_COST, 1000);
    assert_eq!(HUMAN_MAX_CALORIES, 2500);
    assert_eq!(HUMAN_PREGNANCY_DURATION, 75);
    assert_eq!(BAND_RADIUS, 10);
}

#[test]
fn manhattan_distance_is_exact() {
    assert_eq!(manhattan(pos(0, 0), pos(3, 4)), 7);
    assert_eq!(manhattan(pos(-2, 5), pos(2, 1)), 8);
    assert_eq!(manhattan(pos(7, 7), pos(7, 7)), 0);
}

#[test]
fn band_radius_test_is_squared_euclidean() {
    // Distance 10 exactly is inside; anything beyond is out.
    assert!(!is_outside_band_radius(pos(10, 0), pos(0, 0), 10));
    assert!(is_outside_band_radius(pos(10, 1), pos(0, 0), 10));
    assert!(!is_outside_band_radius(pos(6, 8), pos(0, 0), 10));
    assert!(is_outside_band_radius(pos(7, 8), pos(0, 0), 10));
}

#[test]
fn step_costs_follow_tile_kind() {
    let g = grid_of(vec![vec![
        Tile { kind: TileKind::Empty, move_cost: 7 },
        Tile { kind: TileKind::Dirt, move_cost: 7 },
        Tile { kind: TileKind::Water, move_cost: 7 },
    ]]);
    // Open terrain is flat cost 10; dirt uses the stored cost; water
    // multiplies it by ten.
    assert_eq!(g.step_cost(pos(0, 0)), 10);
    assert_eq!(g.step_cost(pos(1, 0)), 7);
    assert_eq!(g.step_cost(pos(2, 0)), 70);
}

#[test]
fn successors_filter_bounds_and_cost_cap() {
    let mut g = uniform_grid(3, 3, 1);
    g.tiles[1][2] = dirt(2000);
    // Corner cell: two in-bounds neighbors, one of them impassable.
    let s = successors(&g, pos(2, 0));
    let cells: Vec<Position> = s.iter().map(|e| e.0).collect();
    assert!(cells.contains(&pos(1, 0)));
    assert!(!cells.contains(&pos(2, 1)));
    assert_eq!(s.len(), 1);
    assert_eq!(s[0].1, 1);
}

#[test]
fn waypoint_count_equals_minimal_steps_on_uniform_grid() {
    let g = uniform_grid(10, 10, 1);
    let r = compute_waypoints(&g, pos(2, 2), pos(5, 6)).expect("reachable");
    assert_eq!(r.len(), 7);
    assert_eq!(*r.last().unwrap(), pos(5, 6));
    for w in r.iter() {
        assert!(0 <= w.x && w.x < 10 && 0 <= w.y && w.y < 10);
    }
}

#[test]
fn pathfinder_prefers_cheap_detour_over_water() {
    // A river of water (cost 50 each) crosses the direct route; a dirt
    // detour is cheaper and must be taken.
    let mut g = uniform_grid(5, 5, 1);
    for y in 0..4 {
        g.tiles[y][2] = Tile { kind: TileKind::Water, move_cost: 5 };
    }
    let r = compute_waypoints(&g, pos(0, 0), pos(4, 0)).expect("reachable");
    // Around the river: down to row 4, across, and back up: 12 steps of
    // cost 1 beat 4 steps containing one 50-cost water crossing... the
    // water crossing costs 50 + 3 = 53 versus the detour's 12.
    assert_eq!(r.len(), 12);
    assert!(r.iter().all(|p| g.tiles[p.y as usize][p.x as usize].kind == TileKind::Dirt));
}

#[test]
fn spatial_index_reflects_all_entities_in_order() {
    let mut index = SpatialGrid::new();
    let creatures = vec![
        bare_creature(0, pos(2, 2), 100),
        bare_creature(1, pos(2, 2), 100),
        bare_creature(2, pos(4, 1), 100),
    ];
    let plants = vec![wheat(3, pos(2, 2), 10)];
    spatial_grid_system(&mut index, &creatures, &plants);
    let cell = index.lookup(pos(2, 2)).expect("occupied");
    assert_eq!(cell.as_slice(), &[0, 1, 3]);
    let other = index.lookup(pos(4, 1)).expect("occupied");
    assert_eq!(other.as_slice(), &[2]);
    assert!(index.lookup(pos(0, 0)).map(|v| v.len()).unwrap_or(0) == 0);
    // A rebuild discards the previous mapping entirely.
    let moved = vec![bare_creature(0, pos(3, 3), 100)];
    spatial_grid_system(&mut index, &moved, &Vec::new());
    assert!(index.lookup(pos(2, 2)).map(|v| v.len()).unwrap_or(0) == 0);
    assert_eq!(index.lookup(pos(3, 3)).expect("occupied").as_slice(), &[0]);
}

#[test]
fn idle_resolution_prefers_eating_below_capacity() {
    let mut c = bare_creature(0, pos(5, 5), 100);
    c.goal = Some(Goal::WantsToIdle);
    let (out, _) = idle_goal_selection_system(vec![c], 10, 10);
    assert_eq!(out[0].goal, Some(Goal::WantsToEat));
}

#[test]
fn idle_wander_stays_adjacent_and_in_bounds() {
    for _ in 0..50 {
        let mut c = bare_creature(0, pos(0, 0), HUMAN_MAX_CALORIES);
        c.goal = Some(Goal::WantsToIdle);
        let (out, _) = idle_goal_selection_system(vec![c], 10, 10);
        assert!(out[0].goal.is_none());
        match &out[0].travel {
            None => {}
            Some(t) => {
                let d = t.destination;
                assert!(manhattan(pos(0, 0), d) == 1);
                assert!(d.x >= 0 && d.y >= 0);
            }
        }
    }
}

#[test]
fn procreation_attaches_pregnancy_and_charges_cost() {
    let mut c = bare_creature(0, pos(5, 5), 2400);
    c.goal = Some(Goal::WantsToProcreate);
    let out = procreation_system(vec![c], 1000, 75);
    assert!(out[0].goal.is_none());
    assert_eq!(out[0].calories.current, 1400);
    let g = out[0].pregnancy.expect("pregnant");
    assert_eq!(g.progress, 0);
    assert_eq!(g.max_progress, 75);
}

#[test]
fn birth_probes_south_when_mother_on_top_row() {
    let mut mother = bare_creature(7, pos(4, 0), 2000);
    mother.pregnancy = Some(foragers::entities::Pregnant { progress: 74, max_progress: 75 });
    let (out, next_id) = pregnancy_system(vec![mother], 8, 10, 10, HUMAN_MAX_CALORIES);
    assert_eq!(out.len(), 2);
    assert_eq!(out[1].pos, pos(4, 1));
    assert_eq!(out[1].id, 8);
    assert_eq!(next_id, 9);
    assert_eq!(out[1].calories.current, HUMAN_MAX_CALORIES / 2);
    assert!(out[0].pregnancy.is_none());
}

#[test]
fn burn_and_death_cull_exhausted_creatures() {
    let creatures = vec![
        bare_creature(0, pos(1, 1), 1),
        bare_creature(1, pos(2, 2), 2),
        bare_creature(2, pos(3, 3), 300),
    ];
    let burned = calorie_burn_system(creatures, 1);
    assert_eq!(burned[0].calories.current, 0);
    let alive = death_system(burned);
    assert_eq!(alive.len(), 2);
    assert_eq!(alive[0].id, 1);
    assert_eq!(alive[1].id, 2);
}

#[test]
fn vanished_target_requeues_seeker() {
    let mut c = bare_creature(0, pos(5, 5), 100);
    c.goal = Some(Goal::Eat(ActionEat { target_entity: 99, progress: 1, max_progress: 3 }));
    c.requires_at = Some(foragers::entities::RequiresAt { position: pos(6, 6), radius: 0 });
    let (out, plants) = foragers::feeding::perform_eat_system(
        vec![c],
        Vec::new(),
        &Vec::new(),
        20,
    );
    assert_eq!(out[0].goal, Some(Goal::WantsToEat));
    assert!(out[0].requires_at.is_none());
    assert_eq!(plants.len(), 0);
}

#[test]
fn band_center_is_mean_of_positions() {
    let creatures = vec![
        bare_creature(0, pos(0, 0), 100),
        bare_creature(1, pos(4, 2), 100),
        bare_creature(2, pos(5, 7), 100),
    ];
    let mut center = BandCenter(pos(0, 0));
    update_band_center_system(&creatures, &BandCenterMode::Auto, &mut center);
    assert_eq!(center.0, pos(3, 3));
    update_band_center_system(&creatures, &BandCenterMode::Manual(pos(9, 9)), &mut center);
    assert_eq!(center.0, pos(9, 9));
    // With no creatures the anchor stays put.
    update_band_center_system(&Vec::new(), &BandCenterMode::Auto, &mut center);
    assert_eq!(center.0, pos(9, 9));
}

#[test]
fn propagation_spawns_only_valid_offshoots() {
    let mut index = SpatialGrid::new();
    let plants = vec![wheat(0, pos(5, 5), 100)];
    spatial_grid_system(&mut index, &Vec::new(), &plants);
    // Run many independent rounds: every spawn must sit on an empty
    // neighbor cell of the parent, carry the fixed propagation nutrition,
    // and take the next fresh identifier.
    let mut spawned_once = false;
    for _ in 0..3000 {
        let (out, nid) = foragers::planner::plant_propogation_system(
            plants.clone(),
            &index,
            11,
            11,
            1,
        );
        assert_eq!(nid as usize, out.len());
        for p in out.iter().skip(1) {
            spawned_once = true;
            assert_eq!(p.food.nutrition_value, foragers::planner::PROPAGATED_NUTRIENTS);
            assert!(p.harvestable && p.edible);
            assert_eq!(p.id, 1);
            let d = (p.pos.x - 5).abs().max((p.pos.y - 5).abs());
            assert!(d <= 1 && p.pos != pos(5, 5));
        }
    }
    // With a 1% chance per plant per round, this many rounds virtually
    // always spawn at least once.
    assert!(spawned_once);
}
#[test]
fn astar_accepts_open_tiles_with_zero_stored_cost() {
    // Open tiles have a flat traversal cost; their stored cost is unused
    // and may be zero. On such a uniform grid the path from start to end
    // comprises both endpoints and exactly the Manhattan-distance steps.
    let g = GameGrid {
        tiles: vec![vec![Tile { kind: TileKind::Empty, move_cost: 0 }; 700]; 400],
    };
    let r = foragers::pathfind::calculate_astar_path(pos(0, 0), pos(2, 1), &g)
        .expect("reachable");
    assert_eq!(r.len(), 4);
    assert_eq!(r[0], pos(0, 0));
    assert_eq!(r[3], pos(2, 1));
    for w in r.windows(2) {
        assert_eq!(manhattan(w[0], w[1]), 1);
    }
}
