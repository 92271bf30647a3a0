use foragers::band::BandCenterMode;
use foragers::entities::{ActionEat, ActionTravelTo, Goal, PlantType, Pregnant};
use foragers::grid::{GameGrid, Position, Tile, TileKind};
use foragers::world::{Config, World, tick};

fn dirt_grid(w: usize, h: usize) -> GameGrid {
    let mut rows = Vec::new();
    for _ in 0..h {
        let mut row = Vec::new();
        for _ in 0..w {
            row.push(Tile { kind: TileKind::Dirt, move_cost: 1 });
        }
        rows.push(row);
    }
    GameGrid { tiles: rows }
}

fn pos(x: i32, y: i32) -> Position {
    Position { x, y }
}

#[test]
fn starvation_destroys_creature_at_end_of_tick() {
    // A creature with one calorie and a living cost of two survives no
    // further tick: its pool goes to -1 and it is destroyed.
    let mut config = Config::standard();
    config.live_cost = 2;
    let mut w = World::new(dirt_grid(10, 10), config);
    w.spawn_creature(pos(4, 4));
    w.creatures[0].calories.current = 1;
    let w2 = tick(w);
    assert_eq!(w2.creatures.len(), 0);
    assert_eq!(w2.population.0, 0);
    assert_eq!(w2.tick_count.0, 1);
}

#[test]
fn successful_feeding_takes_six_ticks() {
    // Distance 3 to the food, three ticks of eating: the creature reaches
    // the plant in 3 ticks, eats for 3, and gains the full nutrition at
    // tick 6.
    let config = Config::standard();
    let mut w = World::new(dirt_grid(12, 6), config);
    w.spawn_creature(pos(2, 2));
    w.creatures[0].calories.current = 1000;
    w.spawn_plant(pos(5, 2), PlantType::Wheat, 1000);

    let mut w = w;
    let expected_x = [3, 4, 5];
    for t in 0..3 {
        w = tick(w);
        assert_eq!(w.creatures[0].pos, pos(expected_x[t], 2));
        assert_eq!(w.plants.len(), 1);
    }
    // Arrived; three ticks of eating follow. The plant survives until the
    // last bite.
    w = tick(w);
    assert_eq!(w.plants.len(), 1);
    w = tick(w);
    assert_eq!(w.plants.len(), 1);
    w = tick(w);
    assert_eq!(w.plants.len(), 0);
    assert_eq!(w.tick_count.0, 6);
    // 1000 - 3 ticks of (move 2 + live 1) - 3 ticks of (work 20 + live 1)
    // + nutrition 1000.
    assert_eq!(w.creatures[0].calories.current, 1000 - 9 - 63 + 1000);
}

#[test]
fn territory_recall_interrupts_eating_and_requeues() {
    // A creature displaced outside the pinned territory while mid-eat is
    // redirected to the anchor before its action completes, and on
    // re-entry is re-queued to seek food from scratch.
    let mut config = Config::standard();
    config.band_radius = 2;
    let mut w = World::new(dirt_grid(40, 5), config);
    w.spawn_creature(pos(10, 0));
    w.spawn_plant(pos(30, 0), PlantType::Wheat, 1000);
    let plant_id = w.plants[0].id;
    w.creatures[0].calories.current = 1200;
    w.creatures[0].goal = Some(Goal::Eat(ActionEat {
        target_entity: plant_id,
        progress: 1,
        max_progress: 3,
    }));
    w.creatures[0].requires_at = Some(foragers::entities::RequiresAt {
        position: pos(30, 0),
        radius: 0,
    });
    w.set_band_center_override(pos(0, 0));

    let mut w = tick(w);
    // Redirected toward the anchor, eat action still pending.
    assert!(w.creatures[0].outside_band);
    assert_eq!(w.creatures[0].pos, pos(9, 0));
    assert!(matches!(w.creatures[0].goal, Some(Goal::Eat(a)) if a.progress == 1));
    // Walks home; on crossing the radius the whole chain is torn down and
    // the creature seeks food from scratch.
    for _ in 0..7 {
        w = tick(w);
        assert!(w.creatures[0].outside_band);
    }
    assert_eq!(w.creatures[0].pos, pos(2, 0));
    w = tick(w);
    assert!(!w.creatures[0].outside_band);
    match w.creatures[0].goal {
        Some(Goal::Eat(a)) => {
            assert_eq!(a.progress, 0);
            assert_eq!(a.target_entity, plant_id);
        }
        ref g => panic!("expected a fresh eat action, found {:?}", g),
    }
}

#[test]
fn unreachable_destination_raises_failure_and_clears_travel() {
    // A destination walled off by cost-capped tiles yields a navigation
    // failure; the travel order is cleared, not retried.
    let mut grid = dirt_grid(5, 5);
    for (x, y) in [(1, 1), (1, 2), (1, 3), (2, 1), (2, 3), (3, 1), (3, 2), (3, 3)] {
        grid.tiles[y][x] = Tile { kind: TileKind::Dirt, move_cost: 2000 };
    }
    let config = Config::standard();
    let mut w = World::new(grid, config);
    w.spawn_creature(pos(0, 0));
    w.creatures[0].travel = Some(ActionTravelTo { destination: pos(2, 2) });
    let w2 = tick(w);
    assert!(w2.creatures[0].travel.is_none());
    assert!(w2.creatures[0].path.is_none());
    assert_eq!(w2.creatures.len(), 1);
}

#[test]
fn pathfinding_system_reports_unreachable_destination() {
    let mut grid = dirt_grid(5, 5);
    for (x, y) in [(1, 1), (1, 2), (1, 3), (2, 1), (2, 3), (3, 1), (3, 2), (3, 3)] {
        grid.tiles[y][x] = Tile { kind: TileKind::Dirt, move_cost: 2000 };
    }
    let mut w = World::new(grid, Config::standard());
    w.spawn_creature(pos(0, 0));
    let id = w.creatures[0].id;
    let mut creatures = w.creatures;
    creatures[0].travel = Some(ActionTravelTo { destination: pos(2, 2) });
    let (out, failures) = foragers::motion::pathfinding_system(creatures, &w.grid);
    assert_eq!(failures.len(), 1);
    assert_eq!(failures[0].entity, id);
    assert_eq!(failures[0].destination, pos(2, 2));
    assert!(out[0].travel.is_none());
}

#[test]
fn eat_contention_grants_only_one_creature() {
    // Two creatures standing on the same plant in the same tick: only the
    // first in iteration order gains the nutrition and despawns it; the
    // loser's action is dropped without a grant.
    let config = Config::standard();
    let mut w = World::new(dirt_grid(8, 8), config);
    w.spawn_creature(pos(3, 3));
    w.spawn_creature(pos(3, 3));
    w.spawn_plant(pos(3, 3), PlantType::Wheat, 500);
    let plant_id = w.plants[0].id;
    for c in w.creatures.iter_mut() {
        c.calories.current = 1000;
        c.goal = Some(Goal::Eat(ActionEat {
            target_entity: plant_id,
            progress: 2,
            max_progress: 3,
        }));
    }
    let w2 = tick(w);
    assert_eq!(w2.plants.len(), 0);
    // Winner: -20 work -1 live +500 nutrition. Loser: only the living cost.
    assert_eq!(w2.creatures[0].calories.current, 1000 - 21 + 500);
    assert_eq!(w2.creatures[1].calories.current, 999);
    assert!(w2.creatures[1].goal.is_none());
}

#[test]
fn targeting_claims_exclude_second_seeker() {
    // Two seekers, one plant: the first in iteration order claims it, the
    // second finds nothing and drops its intent for this tick.
    let config = Config::standard();
    let mut w = World::new(dirt_grid(8, 8), config);
    w.spawn_creature(pos(2, 2));
    w.spawn_creature(pos(4, 2));
    w.spawn_plant(pos(3, 2), PlantType::Wheat, 500);
    let plant_id = w.plants[0].id;
    for c in w.creatures.iter_mut() {
        c.calories.current = 1000;
    }
    let w2 = tick(w);
    let eaters: Vec<_> = w2
        .creatures
        .iter()
        .filter(|c| matches!(c.goal, Some(Goal::Eat(a)) if a.target_entity == plant_id))
        .collect();
    assert_eq!(eaters.len(), 1);
}

#[test]
fn pregnancy_short_of_duration_never_spawns() {
    // A record that never reaches the required duration never spawns a
    // child; it only advances.
    let config = Config::standard();
    let mut w = World::new(dirt_grid(10, 10), config);
    w.spawn_creature(pos(5, 5));
    w.creatures[0].pregnancy = Some(Pregnant { progress: 0, max_progress: 75 });
    let mut w = w;
    for _ in 0..10 {
        w = tick(w);
        assert_eq!(w.creatures.len(), 1);
    }
    assert_eq!(w.population.0, 1);
    match w.creatures[0].pregnancy {
        Some(g) => assert_eq!(g.progress, 10),
        None => panic!("pregnancy was lost"),
    }
}

#[test]
fn pregnancy_at_term_spawns_half_capacity_newborn() {
    let config = Config::standard();
    let mut w = World::new(dirt_grid(10, 10), config);
    w.spawn_creature(pos(5, 5));
    w.creatures[0].calories.current = 2000;
    w.creatures[0].pregnancy = Some(Pregnant { progress: 73, max_progress: 75 });
    let w = tick(w);
    let w = tick(w);
    assert_eq!(w.creatures.len(), 2);
    assert_eq!(w.population.0, 2);
    // Probed north first: the cell above the mother.
    assert_eq!(w.creatures[1].pos, pos(5, 4));
    // Half the species capacity, minus the living cost of its first tick.
    assert_eq!(w.creatures[1].calories.current, 2500 / 2 - 1);
    assert!(w.creatures[0].pregnancy.is_none());
}

#[test]
fn manual_band_override_is_durable_and_clearable() {
    let config = Config::standard();
    let mut w = World::new(dirt_grid(30, 30), config);
    w.spawn_creature(pos(20, 20));
    w.set_band_center_override(pos(3, 3));
    let w2 = tick(w);
    assert_eq!(w2.band_center.0, pos(3, 3));
    assert_eq!(w2.band_mode, BandCenterMode::Manual(pos(3, 3)));
    let mut w3 = tick(w2);
    assert_eq!(w3.band_center.0, pos(3, 3));
    w3.clear_band_center_override();
    let w4 = tick(w3);
    // Auto mode: the anchor follows the (single) creature.
    assert_eq!(w4.band_center.0, w4.creatures[0].pos);
}

#[test]
fn territory_safety_outranks_hunger() {
    // A creature both hungry and outside territory returns to band first:
    // after one tick it is flagged and traveling toward the anchor, not
    // seeking food.
    let mut config = Config::standard();
    config.band_radius = 2;
    let mut w = World::new(dirt_grid(30, 5), config);
    w.spawn_creature(pos(20, 0));
    w.creatures[0].calories.current = 100;
    w.spawn_plant(pos(21, 0), PlantType::Wheat, 1000);
    w.set_band_center_override(pos(0, 0));
    let w2 = tick(w);
    assert!(w2.creatures[0].outside_band);
    assert!(w2.creatures[0].goal.is_none());
    assert_eq!(w2.creatures[0].pos, pos(19, 0));
    assert!(!matches!(w2.creatures[0].goal, Some(Goal::Eat(_))));
}
#[test]
fn targeting_tie_break_scans_ascending_dx_then_dy() {
    // Two plants on the same ring around the seeker: the scan order
    // (ascending dx, then ascending dy) decides, so the north-west one is
    // chosen over the south-east one.
    let config = Config::standard();
    let mut w = World::new(dirt_grid(12, 12), config);
    w.spawn_creature(pos(5, 5));
    w.creatures[0].calories.current = 1000;
    w.spawn_plant(pos(6, 6), PlantType::Wheat, 500);
    w.spawn_plant(pos(4, 4), PlantType::Wheat, 500);
    let north_west = w.plants[1].id;
    let w2 = tick(w);
    match w2.creatures[0].goal {
        Some(Goal::Eat(a)) => assert_eq!(a.target_entity, north_west),
        ref g => panic!("expected an eat action, found {:?}", g),
    }
}
