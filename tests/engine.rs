use gameoflife::engine::GameOfLife;
use gameoflife::in_mem_world::InMemWorld;
use gameoflife::pattern::EntityFactory;
use gameoflife::recorder::{iteration_key, MemoryRecorder, Recorder, StubRecorder};
use gameoflife::world::World;

fn live_cells(world: &InMemWorld) -> Vec<(usize, usize)> {
    let (w, h) = world.get_bounds();
    let mut out = Vec::new();
    for r in 0..w {
        for c in 0..h {
            if world.get(&(r, c)).unwrap() {
                out.push((r, c));
            }
        }
    }
    out
}

const GLIDER: [(usize, usize); 5] = [(0, 1), (1, 2), (2, 0), (2, 1), (2, 2)];

#[test]
fn new_engine_is_dead_at_generation_zero() {
    let gol = GameOfLife::new((16, 12), StubRecorder::new());
    assert_eq!(gol.state(), 0);
    assert_eq!(gol.world().get_bounds(), (16, 12));
    assert!(live_cells(gol.world()).is_empty());
}

#[test]
fn new_engine_gets_a_uuid_id() {
    let gol = GameOfLife::new((4, 4), StubRecorder::new());
    let id = gol.world().get_id();
    assert_eq!(id.len(), 36);
    assert_eq!(id.matches('-').count(), 4);
    let other = GameOfLife::new((4, 4), StubRecorder::new());
    assert_ne!(other.world().get_id(), id);
}

#[test]
fn with_id_keeps_the_id() {
    let gol = GameOfLife::with_id("world-1".to_string(), (2, 3), StubRecorder::new());
    assert_eq!(gol.world().get_id(), "world-1");
    assert_eq!(gol.world().get_bounds(), (2, 3));
}

#[test]
fn step_on_dead_grid_stays_dead() {
    let mut gol = GameOfLife::with_id("d".to_string(), (6, 5), StubRecorder::new());
    gol.step();
    assert!(live_cells(gol.world()).is_empty());
    assert_eq!(gol.state(), 1);
    gol.step();
    assert!(live_cells(gol.world()).is_empty());
    assert_eq!(gol.state(), 2);
}

#[test]
fn blinker_oscillates() {
    let mut gol = GameOfLife::with_id("b".to_string(), (5, 5), StubRecorder::new());
    gol.world_mut().set_span((2..3, 1..4), true).unwrap();
    gol.step();
    assert_eq!(live_cells(gol.world()), vec![(1, 2), (2, 2), (3, 2)]);
    gol.step();
    assert_eq!(live_cells(gol.world()), vec![(2, 1), (2, 2), (2, 3)]);
}

#[test]
fn block_is_still() {
    let mut gol = GameOfLife::with_id("s".to_string(), (4, 4), StubRecorder::new());
    gol.world_mut().set_span((1..3, 1..3), true).unwrap();
    gol.simulate(3);
    assert_eq!(live_cells(gol.world()), vec![(1, 1), (1, 2), (2, 1), (2, 2)]);
    assert_eq!(gol.state(), 3);
}

#[test]
fn lone_cell_and_pair_die() {
    let mut gol = GameOfLife::with_id("l".to_string(), (6, 6), StubRecorder::new());
    gol.world_mut().set(&(0, 0), true).unwrap();
    gol.world_mut().set(&(4, 4), true).unwrap();
    gol.world_mut().set(&(4, 5), true).unwrap();
    gol.step();
    assert!(live_cells(gol.world()).is_empty());
}

#[test]
fn glider_moves_one_cell_diagonally_every_four_steps() {
    let mut gol = GameOfLife::with_id("g".to_string(), (16, 16), MemoryRecorder::new());
    EntityFactory::glider((0, 0), gol.world_mut()).unwrap();
    assert_eq!(live_cells(gol.world()), GLIDER.to_vec());
    gol.simulate(4);
    let moved: Vec<(usize, usize)> = GLIDER.iter().map(|&(r, c)| (r + 1, c + 1)).collect();
    assert_eq!(live_cells(gol.world()), moved);
    let records = gol.recorder().records();
    assert_eq!(records.len(), 4);
    for (_, snapshot) in records.iter() {
        assert_eq!(live_cells(snapshot).len(), 5);
    }
}

#[test]
fn record_once_per_step_with_generation_and_snapshot() {
    let mut gol = GameOfLife::with_id("r".to_string(), (8, 8), MemoryRecorder::new());
    EntityFactory::glider((1, 1), gol.world_mut()).unwrap();
    let mut expected = Vec::new();
    for g in 0..6u64 {
        gol.step();
        expected.push((g, live_cells(gol.world())));
        let records = gol.recorder().records();
        assert_eq!(records.len(), (g + 1) as usize);
        let (label, snapshot) = &records[g as usize];
        assert_eq!(*label, g);
        assert_eq!(snapshot.get_id(), "r");
        assert_eq!(live_cells(snapshot), live_cells(gol.world()));
    }
    gol.simulate(2);
    let records = gol.recorder().records();
    assert_eq!(records.len(), 8);
    assert_eq!(records[6].0, 6);
    assert_eq!(records[7].0, 7);
    for (g, cells) in expected {
        assert_eq!(live_cells(&records[g as usize].1), cells);
    }
}

#[test]
fn memory_recorder_keeps_independent_copies() {
    let mut rec = MemoryRecorder::new();
    let mut world = InMemWorld::new("m".to_string(), (2, 2));
    rec.record(7, &world);
    world.set(&(1, 1), true).unwrap();
    rec.record(9, &world);
    let records = rec.records();
    assert_eq!(records.len(), 2);
    assert_eq!(records[0].0, 7);
    assert!(live_cells(&records[0].1).is_empty());
    assert_eq!(records[1].0, 9);
    assert_eq!(live_cells(&records[1].1), vec![(1, 1)]);
}

#[test]
fn render_skips_dead_rows() {
    let mut gol = GameOfLife::with_id("t".to_string(), (3, 4), StubRecorder::new());
    gol.world_mut().set(&(0, 1), true).unwrap();
    gol.world_mut().set(&(2, 3), true).unwrap();
    assert_eq!(gol.render(), " \u{2022}  \n   \u{2022}\n");
}

#[test]
fn render_of_dead_grid_is_empty() {
    let gol = GameOfLife::with_id("e".to_string(), (3, 3), StubRecorder::new());
    assert_eq!(gol.render(), "");
}

#[test]
fn render_of_glider() {
    let mut gol = GameOfLife::with_id("g".to_string(), (4, 3), StubRecorder::new());
    EntityFactory::glider((0, 0), gol.world_mut()).unwrap();
    assert_eq!(gol.render(), " \u{2022} \n  \u{2022}\n\u{2022}\u{2022}\u{2022}\n");
}

#[test]
fn iteration_key_layout() {
    assert_eq!(iteration_key("abc", 42), "gameoflife:iteration:abc:42");
    assert_eq!(iteration_key("", 0), "gameoflife:iteration::0");
    assert_eq!(
        iteration_key("4f1c-77", u64::MAX),
        "gameoflife:iteration:4f1c-77:18446744073709551615"
    );
}
