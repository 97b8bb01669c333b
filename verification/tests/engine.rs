use physarum::cell::heading;
use physarum::cell::Cell;
use physarum::cell::CellMap;
use physarum::config::SensorConfig;
use physarum::config::SimulationConfig;
use physarum::diffusion::average_around;
use physarum::diffusion::diffuse_trail;
use physarum::plane::grid_fits;
use physarum::plane::grid_size_fits;
use physarum::plane::Plane;
use physarum::point::Point;
use physarum::scalar::Scalar;
use physarum::schedule::clamp_index;
use physarum::schedule::pick;
use physarum::simulation::Direction;
use physarum::simulation::Simulation;
use physarum::steering::read_sensor;
use physarum::steering::steer;
use physarum::steering::toss;
use physarum::steering::turn;
use physarum::steering::Steering;
use physarum::trail_map::clamp_level;
use physarum::trail_map::level;
use physarum::trail_map::TrailMap;

/// Double-precision numbers as the scalars of the simulation.
#[derive(Clone, Copy, Debug, PartialEq)]
struct Real(f64);

impl Scalar for Real {
    fn from_usize(n: usize) -> Self {
        Real(n as f64)
    }

    fn plus(self, rhs: Self) -> Self {
        Real(self.0 + rhs.0)
    }

    fn minus(self, rhs: Self) -> Self {
        Real(self.0 - rhs.0)
    }

    fn times(self, rhs: Self) -> Self {
        Real(self.0 * rhs.0)
    }

    fn rem_euclid(self, modulus: Self) -> Self {
        Real(self.0.rem_euclid(modulus.0))
    }

    fn less_than(self, rhs: Self) -> bool {
        self.0 < rhs.0
    }

    fn round(self) -> i64 {
        self.0.round() as i64
    }

    fn trunc(self) -> i64 {
        self.0.trunc() as i64
    }

    fn cos_degrees(self) -> Self {
        Real(self.0.to_radians().cos())
    }

    fn sin_degrees(self) -> Self {
        Real(self.0.to_radians().sin())
    }
}

/// A random source that replays `draws` over and over.
fn replay(draws: Vec<f64>) -> impl FnMut() -> Real {
    let mut next = 0usize;
    move || {
        let draw = draws[next % draws.len()];
        next += 1;
        Real(draw)
    }
}

fn config(width: usize, height: usize) -> SimulationConfig<Real> {
    let mut config = SimulationConfig::default();
    config.width = width;
    config.height = height;
    config
}

fn empty_simulation(
    width: usize,
    height: usize,
    draws: Vec<f64>,
) -> Simulation<Real, impl FnMut() -> Real> {
    let config = config(width, height);
    let cell_map = CellMap::new(width, height, config.sensor_config);
    let trail_map = TrailMap::new(width, height);
    Simulation::new(config, cell_map, trail_map, replay(draws))
}

fn headings(simulation: &Simulation<Real, impl FnMut() -> Real>) -> Vec<Option<f64>> {
    simulation.cell_map.cells.iter().map(|held| held.map(|cell| cell.direction.0)).collect()
}

// ---- points ----

#[test]
fn into_discrete() {
    let point = Point { x: Real(3.45f64), y: Real(5.9f64) };

    let discrete: Point<i64> = point.into();

    assert_eq!(discrete.x, 3);
    assert_eq!(discrete.y, 6);
}

#[test]
fn from_degrees() {
    let a: Point<i64> = Point::from_degrees(Real(90f64)).into();
    let b: Point<i64> = Point::from_degrees(Real(180f64)).into();

    assert_eq!(a, Point { x: 0, y: 1 });
    assert_eq!(b, Point { x: -1, y: 0 });
}

#[test]
fn add_point() {
    let start = Point::new(Real(5f64), Real(5f64));
    let delta = Point::from_degrees(Real(180f64)) * Real(2f64);
    let new = start + delta;

    assert_eq!(new, Point { x: Real(3.0f64), y: Real(5.0f64) });
}

#[test]
fn rounding_ties_go_away_from_zero() {
    let point = Point { x: Real(2.5), y: Real(-2.5) };
    let rounded: Point<i64> = point.into();
    assert_eq!(rounded, Point { x: 3, y: -3 });
    assert_eq!(Point { x: Real(0.5), y: Real(1.4999) }.to_discrete(), Some(Point { x: 1, y: 1 }));
}

#[test]
fn a_point_that_rounds_below_zero_names_no_slot() {
    assert_eq!(Point { x: Real(-0.4), y: Real(0.0) }.to_discrete(), Some(Point { x: 0, y: 0 }));
    assert_eq!(Point { x: Real(-0.5), y: Real(0.0) }.to_discrete(), None);
    assert_eq!(Point { x: Real(3.0), y: Real(-7.0) }.to_discrete(), None);
    assert_eq!(Point { x: Real(f64::NAN), y: Real(2.0) }.to_discrete(), Some(Point { x: 0, y: 2 }));
    assert_eq!(Point { x: -1i64, y: 5i64 }.to_slot(), None);
    assert_eq!(Point { x: 4i64, y: 5i64 }.to_slot(), Some(Point { x: 4usize, y: 5usize }));
}

#[test]
fn index_is_row_major_and_checked() {
    assert_eq!(Point::new(0usize, 0usize).get_index(5, 4), Some(0));
    assert_eq!(Point::new(3usize, 2usize).get_index(5, 4), Some(13));
    assert_eq!(Point::new(4usize, 3usize).get_index(5, 4), Some(19));
    assert_eq!(Point::new(5usize, 0usize).get_index(5, 4), None);
    assert_eq!(Point::new(0usize, 4usize).get_index(5, 4), None);
    assert_eq!(Point::new(7usize, 9usize).get_index(5, 4), None);
    assert_eq!(Point::new(0usize, 0usize).get_index(0, 4), None);
    assert_eq!(Point::new(0usize, 1usize).get_index(usize::MAX, usize::MAX), Some(usize::MAX));
    assert_eq!(Point::new(1usize, 1usize).get_index(usize::MAX, usize::MAX), None);
    assert_eq!(Point::new(0usize, 2usize).get_index(usize::MAX, usize::MAX), None);
}

// ---- grid addressing ----

#[test]
fn coords_lead_back_from_an_index() {
    let trail = TrailMap::new(5, 4);
    for index in 0..20usize {
        let slot = trail.get_coords(index);
        assert_eq!(slot, Point { x: index % 5, y: index / 5 });
        assert_eq!(trail.get_index(slot.x, slot.y), Some(index));
    }
    assert_eq!(trail.get_coords(13), Point { x: 3, y: 2 });
    assert_eq!(trail.width(), 5);
    assert_eq!(trail.height(), 4);
    assert_eq!(trail.data().len(), 20);
}

#[test]
fn both_grids_address_alike() {
    let trail = TrailMap::new(7, 3);
    let cells: CellMap<Real> = CellMap::new(7, 3, SensorConfig::default());
    for y in 0..4usize {
        for x in 0..8usize {
            assert_eq!(trail.get_index(x, y), cells.get_index(x, y));
            assert_eq!(trail.get_index(x, y), Point::new(x, y).get_index(7, 3));
        }
    }
}

#[test]
fn values_outside_the_grid_are_none() {
    let mut trail = TrailMap::new(4, 3);
    trail.data[4 * 2 + 3] = 9;
    assert_eq!(trail.get_value(3, 2), Some(&9u8));
    assert_eq!(trail.get_value(2, 3), None);
    assert_eq!(trail.get_value(4, 2), None);
    assert_eq!(trail.get_value(4, 1), None);
    assert_eq!(trail.get_value_point(Point::new(3usize, 2usize)), Some(&9u8));
    assert_eq!(trail.get_value_point(Point::new(3usize, 3usize)), None);
    assert_eq!(trail.level_at(Some(Point::new(3, 2))), 9);
    assert_eq!(trail.level_at(Some(Point::new(4, 2))), 0);
    assert_eq!(trail.level_at(None), 0);
}

#[test]
fn grid_sizes() {
    assert!(grid_size_fits(1, 1));
    assert!(grid_size_fits(500, 500));
    assert!(grid_size_fits(usize::MAX, 1));
    assert!(!grid_size_fits(0, 5));
    assert!(!grid_size_fits(5, 0));
    assert!(!grid_size_fits(usize::MAX, 2));
    assert!(grid_fits(4, 3, 12));
    assert!(!grid_fits(4, 3, 11));
    assert!(!grid_fits(0, 3, 0));
    assert!(!grid_fits(usize::MAX, usize::MAX, 1));
}

#[test]
fn a_grid_that_was_written_to_can_be_checked() {
    let mut trail = TrailMap::new(4, 3);
    assert!(trail.is_well_formed());
    trail.data.push(0);
    assert!(!trail.is_well_formed());
    let mut cells: CellMap<Real> = CellMap::new(4, 3, SensorConfig::default());
    assert!(cells.is_well_formed());
    cells.cells.pop();
    assert!(!cells.is_well_formed());
    let mut simulation = empty_simulation(6, 5, vec![0.5]);
    assert!(simulation.is_consistent());
    simulation.config.width = 5;
    assert!(!simulation.is_consistent());
    simulation.config.width = 6;
    simulation.trail_map = TrailMap::new(5, 6);
    assert!(!simulation.is_consistent());
}

// ---- trail ----

#[test]
fn trail_starts_empty() {
    let trail = TrailMap::new(4, 3);
    assert_eq!(trail.data, vec![0u8; 12]);
    assert_eq!(trail.get_value(3, 2), Some(&0u8));
}

#[test]
fn levels_round_and_stay_within_a_byte() {
    assert_eq!(level(Real(0.0)), 0);
    assert_eq!(level(Real(0.5)), 128);
    assert_eq!(level(Real(0.1)), 26);
    assert_eq!(level(Real(0.999)), 255);
    assert_eq!(level(Real(1.0)), 255);
    assert_eq!(level(Real(7.0)), 255);
    assert_eq!(level(Real(-1.0)), 0);
    assert_eq!(clamp_level(-3), 0);
    assert_eq!(clamp_level(0), 0);
    assert_eq!(clamp_level(200), 200);
    assert_eq!(clamp_level(255), 255);
    assert_eq!(clamp_level(256), 255);
}

#[test]
fn random_trail_draws_once_per_slot_in_row_major_order() {
    let mut calls = 0usize;
    let mut rng = || {
        calls += 1;
        Real((calls - 1) as f64 / 10.0)
    };
    let trail = TrailMap::new_random(3, 2, &mut rng);
    assert_eq!(trail.data, vec![0u8, 26, 51, 77, 102, 128]);
    assert_eq!(trail.width(), 3);
    assert_eq!(trail.height(), 2);
    assert_eq!(calls, 6);
}

#[test]
fn trail_renders_as_opaque_grey() {
    let mut trail = TrailMap::new(2, 2);
    trail.data[0] = 7;
    trail.data[3] = 250;
    let pixels = trail.render();
    assert_eq!(pixels, vec![7, 7, 7, 255, 0, 0, 0, 255, 0, 0, 0, 255, 250, 250, 250, 255]);
    assert_eq!(trail.render(), pixels);
}

#[test]
fn deposit_and_replace_write_the_buffer() {
    let mut trail = TrailMap::new(2, 2);
    trail.deposit(2, 40);
    trail.deposit(2, 41);
    assert_eq!(trail.data, vec![0, 0, 41, 0]);
    trail.replace(vec![1, 2, 3, 4]);
    assert_eq!(trail.data, vec![1, 2, 3, 4]);
    assert_eq!(trail.get_value(1, 1), Some(&4u8));
}

// ---- agents ----

#[test]
fn add_cell() {
    let mut cell_map = CellMap::new(20, 20, SensorConfig::default());
    cell_map.add_cell(Point::new(Real(2f64), Real(4f64)), Real(0f64));

    let res = cell_map.get_cell(Point::new(2, 4));

    assert!(res.is_some());
}

#[test]
fn add_cell_replaces_what_the_slot_held() {
    let mut cell_map = CellMap::new(20, 20, SensorConfig::default());
    cell_map.add_cell(Point::new(Real(2.2), Real(4.0)), Real(10.0));
    cell_map.add_cell(Point::new(Real(7.0), Real(7.0)), Real(20.0));
    assert_eq!(cell_map.live_cells(), 2);
    cell_map.add_cell(Point::new(Real(1.6), Real(4.4)), Real(30.0));
    assert_eq!(cell_map.live_cells(), 2);
    let cell = cell_map.get_cell(Point::new(2, 4)).unwrap();
    assert_eq!(cell.position, Point::new(Real(1.6), Real(4.4)));
    assert_eq!(cell.direction, Real(30.0));
    assert_eq!(cell.position_discrete(), Some(Point::new(2, 4)));
    assert!(cell_map.get_cell(Point::new(4, 2)).is_none());
    assert!(cell_map.get_cell(Point::new(20, 4)).is_none());
}

#[test]
fn add_cell_outside_the_grid_adds_nothing() {
    let mut cell_map = CellMap::new(5, 5, SensorConfig::default());
    cell_map.add_cell(Point::new(Real(5.0), Real(1.0)), Real(0.0));
    cell_map.add_cell(Point::new(Real(1.0), Real(-1.0)), Real(0.0));
    cell_map.add_cell(Point::new(Real(4.6), Real(0.0)), Real(0.0));
    assert_eq!(cell_map.live_cells(), 0);
    cell_map.put_cell(None, Cell { position: Point::new(Real(0.0), Real(0.0)), direction: Real(0.0) });
    cell_map.put_cell(
        Some(Point::new(0, 5)),
        Cell { position: Point::new(Real(0.0), Real(0.0)), direction: Real(0.0) },
    );
    assert_eq!(cell_map.live_cells(), 0);
    cell_map.put_cell(
        Some(Point::new(4, 4)),
        Cell { position: Point::new(Real(0.0), Real(0.0)), direction: Real(0.0) },
    );
    assert_eq!(cell_map.live_cells(), 1);
    assert_eq!(cell_map.occupied(), vec![24]);
}

#[test]
fn a_cell_steps_along_its_heading() {
    let mut cell = Cell { position: Point::new(Real(2.0), Real(4.0)), direction: Real(0.0) };
    cell.step(Real(1.0));
    assert_eq!(cell.position, Point::new(Real(3.0), Real(4.0)));
    assert_eq!(cell.direction, Real(0.0));
    let mut cell = Cell { position: Point::new(Real(2.0), Real(4.0)), direction: Real(90.0) };
    cell.step(Real(3.0));
    assert_eq!(cell.position_discrete(), Some(Point::new(2, 7)));
    assert_eq!(cell.direction, Real(90.0));
}

#[test]
fn headings_span_the_circle() {
    assert_eq!(heading(Real(0.0)), Real(0.0));
    assert_eq!(heading(Real(0.25)), Real(90.0));
    assert_eq!(heading(Real(0.5)), Real(180.0));
}

#[test]
fn random_cells_draw_twice_where_an_agent_is_placed() {
    // draws in the order in which they are used: placement, then heading if placed
    let draws = vec![0.9, 0.1, 0.25, 0.9, 0.05, 0.5, 0.3, 0.2, 0.75, 0.95];
    let mut calls = 0usize;
    let mut rng = || {
        calls += 1;
        Real(draws[calls - 1])
    };
    let cell_map = CellMap::new_random(3, 2, SensorConfig::default(), &mut rng, Real(0.3));
    assert_eq!(calls, 9);
    assert_eq!(cell_map.live_cells(), 3);
    assert_eq!(cell_map.occupied(), vec![1, 3, 5]);
    let held: Vec<Option<(f64, f64, f64)>> = cell_map
        .cells
        .iter()
        .map(|held| held.map(|cell| (cell.position.x.0, cell.position.y.0, cell.direction.0)))
        .collect();
    assert_eq!(
        held,
        vec![
            None,
            Some((1.0, 0.0, 90.0)),
            None,
            Some((0.0, 1.0, 180.0)),
            None,
            Some((2.0, 1.0, 270.0))
        ]
    );
}

#[test]
fn cells_render_white_on_black() {
    let mut cell_map = CellMap::new(2, 2, SensorConfig::default());
    cell_map.add_cell(Point::new(Real(1.0), Real(0.0)), Real(0.0));
    let pixels = cell_map.render();
    assert_eq!(pixels, vec![0, 0, 0, 255, 255, 255, 255, 255, 0, 0, 0, 255, 0, 0, 0, 255]);
    assert_eq!(cell_map.render(), pixels);
}

#[test]
fn free_index_tells_where_an_agent_may_go() {
    let mut cell_map = CellMap::new(3, 3, SensorConfig::default());
    cell_map.add_cell(Point::new(Real(1.0), Real(1.0)), Real(0.0));
    assert_eq!(cell_map.free_index(Some(Point::new(1, 1))), None);
    assert_eq!(cell_map.free_index(Some(Point::new(2, 1))), Some(5));
    assert_eq!(cell_map.free_index(Some(Point::new(3, 1))), None);
    assert_eq!(cell_map.free_index(None), None);
    cell_map.set_slot(4, None);
    assert_eq!(cell_map.free_index(Some(Point::new(1, 1))), Some(4));
}

// ---- configuration ----

#[test]
fn defaults() {
    let sensors: SensorConfig<Real> = SensorConfig::default();
    assert_eq!(sensors.width, 1);
    assert_eq!(sensors.angle, Real(45.0));
    assert_eq!(sensors.offset_distance, 9);
    let config: SimulationConfig<Real> = SimulationConfig::default();
    assert_eq!(config.sensor_config.angle, Real(45.0));
    assert_eq!(config.sensor_config.offset_distance, 9);
    assert_eq!(config.step_size, 1);
    assert_eq!(config.deposition, 255);
    assert_eq!(config.cd_prob, Real(0.0));
    assert_eq!(config.s_min, 50);
    assert_eq!(config.width, 100);
    assert_eq!(config.height, 100);
    assert_eq!(config.rotation_angle, Real(45.0));
}

// ---- steering ----

#[test]
fn steering_rule() {
    assert_eq!(steer(9, 3, 5), Steering::Keep);
    assert_eq!(steer(1, 3, 5), Steering::Toss);
    assert_eq!(steer(1, 5, 5), Steering::Toss);
    assert_eq!(steer(4, 3, 5), Steering::Turn(Direction::RIGHT));
    assert_eq!(steer(4, 5, 3), Steering::Turn(Direction::LEFT));
    assert_eq!(steer(3, 3, 5), Steering::Turn(Direction::RIGHT));
    assert_eq!(steer(5, 3, 5), Steering::Turn(Direction::RIGHT));
    assert_eq!(steer(5, 5, 3), Steering::Turn(Direction::LEFT));
    assert_eq!(steer(2, 7, 7), Steering::Toss);
    assert_eq!(steer(7, 7, 7), Steering::Keep);
    assert_eq!(steer(0, 0, 0), Steering::Keep);
    assert_eq!(steer(7, 2, 2), Steering::Keep);
}

#[test]
fn equal_readings_keep_the_heading() {
    for level in 0..=255u8 {
        assert_eq!(steer(level, level, level), Steering::Keep);
    }
}

#[test]
fn turns_wrap_into_the_circle() {
    assert_eq!(turn(Real(10.0), Real(45.0), Direction::LEFT), Real(325.0));
    assert_eq!(turn(Real(10.0), Real(45.0), Direction::RIGHT), Real(55.0));
    assert_eq!(turn(Real(350.0), Real(45.0), Direction::RIGHT), Real(35.0));
    assert_eq!(turn(Real(45.0), Real(45.0), Direction::LEFT), Real(0.0));
    assert_eq!(turn(Real(-400.0), Real(0.0), Direction::LEFT), Real(320.0));
}

#[test]
fn a_draw_above_one_half_turns_left() {
    assert_eq!(toss(Real(0.75)), Direction::LEFT);
    assert_eq!(toss(Real(0.5000001)), Direction::LEFT);
    assert_eq!(toss(Real(0.5)), Direction::RIGHT);
    assert_eq!(toss(Real(0.25)), Direction::RIGHT);
    assert_eq!(toss(Real(0.0)), Direction::RIGHT);
}

#[test]
fn sensors_read_zero_off_the_grid() {
    let mut trail = TrailMap::new(12, 12);
    for value in trail.data.iter_mut() {
        *value = 77;
    }
    let position = Point::new(Real(2.0), Real(2.0));
    assert_eq!(read_sensor(&trail, position, Real(0.0), Real(9.0)), 77);
    assert_eq!(read_sensor(&trail, position, Real(90.0), Real(9.0)), 77);
    assert_eq!(read_sensor(&trail, position, Real(0.0), Real(10.0)), 0);
    assert_eq!(read_sensor(&trail, position, Real(180.0), Real(9.0)), 0);
    assert_eq!(read_sensor(&trail, position, Real(270.0), Real(3.0)), 0);
    assert_eq!(read_sensor(&trail, position, Real(180.0), Real(2.0)), 77);
}

// ---- the order of the motor phase ----

#[test]
fn picks_stay_within_the_list() {
    assert_eq!(pick(Real(0.0), 4), 0);
    assert_eq!(pick(Real(0.24), 4), 0);
    assert_eq!(pick(Real(0.25), 4), 1);
    assert_eq!(pick(Real(0.6), 4), 2);
    assert_eq!(pick(Real(0.99), 4), 3);
    assert_eq!(pick(Real(1.0), 4), 3);
    assert_eq!(pick(Real(-0.5), 4), 0);
    assert_eq!(pick(Real(0.7), 1), 0);
    assert_eq!(clamp_index(-1, 3), 0);
    assert_eq!(clamp_index(2, 3), 2);
    assert_eq!(clamp_index(3, 3), 2);
    assert_eq!(clamp_index(i64::MAX, 3), 2);
}

// ---- the phases ----

#[test]
fn simulation() {}

#[test]
fn motor_step() {
    let mut cell_map = CellMap::new(20, 20, SensorConfig::default());
    let trail_map = TrailMap::new(20, 20);
    let mut sim_conf = SimulationConfig::default();

    sim_conf.width = 20;
    sim_conf.height = 20;

    cell_map.add_cell(Point::new(Real(2f64), Real(4f64)), Real(0f64));

    let mut simulation = Simulation::new(sim_conf, cell_map, trail_map, replay(vec![0.5]));

    simulation.motor();

    // If we get a cell at this point, it moved correctly
    let cell = simulation.cell_map.get_cell(Point::new(3, 4));
    assert!(cell.is_some());

    // Check that the chemoattractant was deposited at this position
    let val = simulation.trail_map.get_value(3, 4);
    let empty_val = simulation.trail_map.get_value(2, 4);

    assert!(val.is_some());
    assert_eq!(val.unwrap(), &255u8);
    assert_eq!(empty_val.unwrap(), &0u8);

    assert!(simulation.cell_map.get_cell(Point::new(2, 4)).is_none());
    assert_eq!(simulation.cell_map.live_cells(), 1);
    let cell = simulation.cell_map.get_cell(Point::new(3, 4)).unwrap();
    assert_eq!(cell.position, Point::new(Real(3.0), Real(4.0)));
    assert_eq!(cell.direction, Real(0.0));
}

#[test]
fn motor_writes_the_configured_level_and_does_not_add_up() {
    let mut simulation = empty_simulation(20, 20, vec![0.5]);
    simulation.config.deposition = 40;
    simulation.trail_map.deposit(4 * 20 + 3, 200);
    simulation.cell_map.add_cell(Point::new(Real(2.0), Real(4.0)), Real(0.0));
    simulation.motor();
    assert_eq!(simulation.trail_map.get_value(3, 4), Some(&40u8));
    simulation.motor();
    assert_eq!(simulation.trail_map.get_value(3, 4), Some(&40u8));
    assert_eq!(simulation.trail_map.get_value(4, 4), Some(&40u8));
    assert_eq!(simulation.trail_map.data.iter().filter(|level| **level != 0).count(), 2);
}

#[test]
fn a_blocked_agent_stays_and_turns_away() {
    // picks 0.0 and 0.0: first the agent on (2, 4), then the one on (3, 4);
    // the draw in between gives the blocked agent its new heading
    let mut simulation = empty_simulation(20, 20, vec![0.0, 0.25, 0.0]);
    simulation.cell_map.add_cell(Point::new(Real(2.0), Real(4.0)), Real(0.0));
    simulation.cell_map.add_cell(Point::new(Real(3.0), Real(4.0)), Real(0.0));
    simulation.motor();
    let blocked = simulation.cell_map.get_cell(Point::new(2, 4)).unwrap();
    assert_eq!(blocked.position, Point::new(Real(2.0), Real(4.0)));
    assert_eq!(blocked.direction, Real(90.0));
    assert!(simulation.cell_map.get_cell(Point::new(3, 4)).is_none());
    let moved = simulation.cell_map.get_cell(Point::new(4, 4)).unwrap();
    assert_eq!(moved.direction, Real(0.0));
    assert_eq!(simulation.trail_map.get_value(3, 4), Some(&0u8));
    assert_eq!(simulation.trail_map.get_value(4, 4), Some(&255u8));
    assert_eq!(simulation.cell_map.live_cells(), 2);
}

#[test]
fn an_agent_that_was_drawn_before_makes_way() {
    // pick 0.9 of two: first the agent on (3, 4), which moves on; then the one on
    // (2, 4), which finds the slot free
    let mut simulation = empty_simulation(20, 20, vec![0.9, 0.0]);
    simulation.cell_map.add_cell(Point::new(Real(2.0), Real(4.0)), Real(0.0));
    simulation.cell_map.add_cell(Point::new(Real(3.0), Real(4.0)), Real(0.0));
    simulation.motor();
    assert_eq!(simulation.cell_map.occupied(), vec![4 * 20 + 3, 4 * 20 + 4]);
    assert_eq!(headings(&simulation).iter().flatten().count(), 2);
    assert_eq!(simulation.trail_map.get_value(3, 4), Some(&255u8));
    assert_eq!(simulation.trail_map.get_value(4, 4), Some(&255u8));
    assert_eq!(simulation.trail_map.get_value(2, 4), Some(&0u8));
}

#[test]
fn an_agent_at_the_edge_stays_and_turns_away() {
    let mut simulation = empty_simulation(5, 5, vec![0.0, 0.5]);
    simulation.cell_map.add_cell(Point::new(Real(4.0), Real(2.0)), Real(0.0));
    simulation.cell_map.add_cell(Point::new(Real(0.0), Real(0.0)), Real(180.0));
    simulation.motor();
    assert_eq!(simulation.cell_map.occupied(), vec![0, 2 * 5 + 4]);
    let east = simulation.cell_map.get_cell(Point::new(4, 2)).unwrap();
    assert_eq!(east.direction, Real(180.0));
    let west = simulation.cell_map.get_cell(Point::new(0, 0)).unwrap();
    assert_eq!(west.direction, Real(180.0));
    assert_eq!(simulation.trail_map.data, vec![0u8; 25]);
}

#[test]
fn an_agent_that_steps_onto_its_own_slot_turns_away() {
    let mut simulation = empty_simulation(5, 5, vec![0.0, 0.75]);
    simulation.config.step_size = 0;
    simulation.cell_map.add_cell(Point::new(Real(2.0), Real(2.0)), Real(10.0));
    simulation.motor();
    let cell = simulation.cell_map.get_cell(Point::new(2, 2)).unwrap();
    assert_eq!(cell.direction, Real(270.0));
    assert_eq!(simulation.trail_map.data, vec![0u8; 25]);
}

#[test]
fn motor_agent_moves_one_agent() {
    let mut simulation = empty_simulation(6, 6, vec![0.5]);
    simulation.cell_map.add_cell(Point::new(Real(1.0), Real(1.0)), Real(90.0));
    simulation.cell_map.add_cell(Point::new(Real(4.0), Real(4.0)), Real(90.0));
    simulation.motor_agent(6 + 1);
    assert_eq!(simulation.cell_map.occupied(), vec![2 * 6 + 1, 4 * 6 + 4]);
    assert_eq!(simulation.trail_map.get_value(1, 2), Some(&255u8));
}

#[test]
fn motor_keeps_the_number_of_agents() {
    let draws = vec![0.13, 0.71, 0.42, 0.97, 0.05, 0.68, 0.33, 0.56, 0.81, 0.29, 0.61];
    let mut seed = replay(draws.clone());
    let config = config(12, 9);
    let cell_map = CellMap::new_random(12, 9, config.sensor_config, &mut seed, Real(0.5));
    let trail_map = TrailMap::new_random(12, 9, &mut seed);
    let agents = cell_map.live_cells();
    assert!(agents > 10);
    let mut simulation = Simulation::new(config, cell_map, trail_map, replay(draws));
    for _ in 0..20 {
        simulation.motor();
        assert_eq!(simulation.cell_map.live_cells(), agents);
        assert_eq!(simulation.cell_map.occupied().len(), agents);
    }
    simulation.step(15);
    assert_eq!(simulation.cell_map.live_cells(), agents);
}

#[test]
fn sensor_turns_towards_the_trail() {
    let mut simulation = empty_simulation(40, 40, vec![0.5]);
    simulation.config.sensor_config.angle = Real(90.0);
    simulation.cell_map.add_cell(Point::new(Real(20.0), Real(20.0)), Real(0.0));
    // the right sensor, at heading + 90 degrees, sits on (20, 29)
    simulation.trail_map.deposit(29 * 40 + 20, 100);
    simulation.sensor();
    assert_eq!(headings(&simulation)[20 * 40 + 20], Some(45.0));
    // now the trail lies to the left, at heading - 90 degrees
    simulation.trail_map.deposit(29 * 40 + 20, 0);
    simulation.cell_map.add_cell(Point::new(Real(20.0), Real(20.0)), Real(0.0));
    simulation.trail_map.deposit(11 * 40 + 20, 100);
    simulation.sensor();
    assert_eq!(headings(&simulation)[20 * 40 + 20], Some(315.0));
    // with the most trail ahead the agent goes on
    simulation.cell_map.add_cell(Point::new(Real(20.0), Real(20.0)), Real(0.0));
    simulation.trail_map.deposit(20 * 40 + 29, 200);
    simulation.sensor();
    assert_eq!(headings(&simulation)[20 * 40 + 20], Some(0.0));
    assert_eq!(simulation.cell_map.live_cells(), 1);
}

#[test]
fn sensor_tosses_where_the_least_trail_is_ahead() {
    for (draw, expected) in [(0.9, 325.0), (0.1, 55.0)] {
        let mut simulation = empty_simulation(40, 40, vec![draw]);
        simulation.config.sensor_config.angle = Real(90.0);
        simulation.cell_map.add_cell(Point::new(Real(20.0), Real(20.0)), Real(10.0));
        for value in simulation.trail_map.data.iter_mut() {
            *value = 50;
        }
        let forward = Point::new(Real(20.0), Real(20.0)) + Point::from_degrees(Real(10.0)) * Real(9.0);
        let slot = forward.to_discrete().unwrap();
        simulation.trail_map.deposit(slot.y * 40 + slot.x, 3);
        simulation.sensor();
        assert_eq!(headings(&simulation)[20 * 40 + 20], Some(expected));
    }
}

#[test]
fn sensor_keeps_headings_where_all_readings_are_equal() {
    let mut simulation = empty_simulation(30, 30, vec![0.9]);
    simulation.cell_map.add_cell(Point::new(Real(15.0), Real(15.0)), Real(33.0));
    simulation.cell_map.add_cell(Point::new(Real(1.0), Real(1.0)), Real(200.0));
    simulation.cell_map.add_cell(Point::new(Real(29.0), Real(3.0)), Real(359.5));
    simulation.cell_map.add_cell(Point::new(Real(25.0), Real(15.0)), Real(90.0));
    let before = headings(&simulation);
    simulation.sensor();
    assert_eq!(headings(&simulation), before);
    // an even trail reads the same on the grid, but 0 off it
    for value in simulation.trail_map.data.iter_mut() {
        *value = 9;
    }
    simulation.sensor();
    let after = headings(&simulation);
    assert_eq!(after[15 * 30 + 15], Some(33.0));
    // all three sensors of these two are off the grid
    assert_eq!(after[30 + 1], Some(200.0));
    assert_eq!(after[3 * 30 + 29], Some(359.5));
    // ahead and to the right it reads 9, to the left, off the grid, 0
    assert_eq!(after[15 * 30 + 25], Some(135.0));
    assert_eq!(simulation.trail_map.data, vec![9u8; 900]);
}

#[test]
fn sense_turns_one_agent() {
    let mut simulation = empty_simulation(40, 40, vec![0.5]);
    simulation.config.sensor_config.angle = Real(90.0);
    simulation.config.rotation_angle = Real(30.0);
    simulation.trail_map.deposit(29 * 40 + 20, 100);
    let cell = Cell { position: Point::new(Real(20.0), Real(20.0)), direction: Real(0.0) };
    let sensed = simulation.sense(cell);
    assert_eq!(sensed.position, cell.position);
    assert_eq!(sensed.direction, Real(30.0));
    assert_eq!(simulation.cell_map.live_cells(), 0);
}

#[test]
fn diffuse_step() {
    let cell_map = CellMap::new(5, 5, SensorConfig::default());
    let mut trail_map = TrailMap::new(5, 5);
    let mut sim_conf = SimulationConfig::default();

    trail_map.data[0] = 255;

    sim_conf.width = 5;
    sim_conf.height = 5;

    let rand_fn = || Real(0.5f64);

    let mut simulation = Simulation::new(sim_conf, cell_map, trail_map, rand_fn);

    simulation.diffuse();

    let expected = vec![
        63u8, /* 63,75 */ 42u8, /* 42,5 */ 0u8, 0u8, 0u8,
        42u8, /* 42.5 */ 28u8, /* 28,33 */ 0u8, 0u8, 0u8,
        0u8, 0u8, 0u8, 0u8, 0u8,
        0u8, 0u8, 0u8, 0u8, 0u8,
        0u8, 0u8, 0u8, 0u8, 0u8,
    ];

    assert_eq!(simulation.trail_map.data, expected);
}

#[test]
fn diffusion_reads_the_trail_as_it_was() {
    let mut trail = TrailMap::new(3, 3);
    trail.replace(vec![10, 20, 30, 40, 50, 60, 70, 80, 90]);
    // corners divide by 4, edges by 6, the middle by 9
    assert_eq!(average_around(&trail, 0, 0), 30);
    assert_eq!(average_around(&trail, 1, 0), 35);
    assert_eq!(average_around(&trail, 2, 2), 70);
    assert_eq!(average_around(&trail, 0, 1), 45);
    assert_eq!(average_around(&trail, 1, 1), 50);
    assert_eq!(diffuse_trail(&trail), vec![30, 35, 40, 45, 50, 55, 60, 65, 70]);
    assert_eq!(trail.data, vec![10, 20, 30, 40, 50, 60, 70, 80, 90]);
}

#[test]
fn diffusion_on_narrow_grids() {
    let mut trail = TrailMap::new(1, 1);
    trail.replace(vec![201]);
    assert_eq!(diffuse_trail(&trail), vec![201]);
    let mut trail = TrailMap::new(4, 1);
    trail.replace(vec![255, 0, 0, 255]);
    assert_eq!(diffuse_trail(&trail), vec![127, 85, 85, 127]);
    let mut trail = TrailMap::new(1, 3);
    trail.replace(vec![255, 255, 255]);
    assert_eq!(diffuse_trail(&trail), vec![255, 255, 255]);
}

#[test]
fn full_step() {
    let mut config = SimulationConfig::default();

    config.width = 500;
    config.height = 500;

    let mut cell_map = CellMap::new(config.width, config.height, config.sensor_config.clone());
    let trail_map = TrailMap::new(config.width, config.height);

    cell_map.add_cell(Point::new(Real(1f64), Real(1f64)), Real(0f64));
    cell_map.add_cell(Point::new(Real(1f64), Real(2f64)), Real(25f64));
    cell_map.add_cell(Point::new(Real(1f64), Real(3f64)), Real(90f64));

    cell_map.add_cell(Point::new(Real(10f64), Real(1f64)), Real(0f64));
    cell_map.add_cell(Point::new(Real(20f64), Real(2f64)), Real(25f64));
    cell_map.add_cell(Point::new(Real(30f64), Real(3f64)), Real(90f64));

    let mut simulation = Simulation::new(config, cell_map, trail_map, replay(vec![0.3, 0.8, 0.1]));

    simulation.step(1);

    assert_eq!(1, 1);
    assert_eq!(simulation.cell_map.live_cells(), 6);
}

#[test]
fn a_tick_is_motor_then_sensor_then_diffusion() {
    let draws = vec![0.62, 0.07, 0.91, 0.38, 0.55, 0.24, 0.79];
    let build = || {
        let mut simulation = empty_simulation(16, 16, draws.clone());
        simulation.cell_map.add_cell(Point::new(Real(3.0), Real(3.0)), Real(0.0));
        simulation.cell_map.add_cell(Point::new(Real(4.0), Real(3.0)), Real(180.0));
        simulation.cell_map.add_cell(Point::new(Real(8.0), Real(8.0)), Real(45.0));
        simulation.cell_map.add_cell(Point::new(Real(15.0), Real(15.0)), Real(45.0));
        simulation
    };
    let mut whole = build();
    whole.step(1);
    let mut parts = build();
    parts.motor();
    parts.sensor();
    parts.diffuse();
    assert_eq!(whole.trail_map.data, parts.trail_map.data);
    assert_eq!(headings(&whole), headings(&parts));
}

#[test]
fn no_tick_changes_nothing() {
    let mut simulation = empty_simulation(8, 8, vec![0.4]);
    simulation.cell_map.add_cell(Point::new(Real(3.0), Real(3.0)), Real(0.0));
    simulation.trail_map.deposit(5, 99);
    let trail = simulation.trail_map.data.clone();
    let agents = headings(&simulation);
    simulation.step(0);
    assert_eq!(simulation.trail_map.data, trail);
    assert_eq!(headings(&simulation), agents);
}

#[test]
fn the_same_draws_give_the_same_run() {
    let draws = vec![0.62, 0.07, 0.91, 0.38, 0.55, 0.24, 0.79, 0.13, 0.47, 0.86, 0.02];
    let run = |ticks: usize| {
        let mut seed = replay(draws.clone());
        let config = config(24, 18);
        let cell_map = CellMap::new_random(24, 18, config.sensor_config, &mut seed, Real(0.2));
        let trail_map = TrailMap::new_random(24, 18, &mut seed);
        let mut simulation = Simulation::new(config, cell_map, trail_map, replay(draws.clone()));
        simulation.step(ticks);
        let agents: Vec<Option<(u64, u64, u64)>> = simulation
            .cell_map
            .cells
            .iter()
            .map(|held| {
                held.map(|cell| {
                    (cell.position.x.0.to_bits(), cell.position.y.0.to_bits(), cell.direction.0.to_bits())
                })
            })
            .collect();
        (agents, simulation.trail_map.data.clone(), simulation.cell_map.render(), simulation.trail_map.render())
    };
    assert_eq!(run(12), run(12));
    assert_ne!(run(12).1, run(11).1);
}

#[test]
fn rendering_twice_gives_the_same_pixels() {
    let mut seed = replay(vec![0.62, 0.07, 0.91, 0.38, 0.55]);
    let cell_map = CellMap::new_random(9, 7, SensorConfig::default(), &mut seed, Real(0.4));
    let trail_map = TrailMap::new_random(9, 7, &mut seed);
    assert_eq!(cell_map.render(), cell_map.render());
    assert_eq!(trail_map.render(), trail_map.render());
    assert_eq!(cell_map.render().len(), 4 * 9 * 7);
    assert_eq!(trail_map.render().len(), 4 * 9 * 7);
    for (slot, pixel) in trail_map.render().chunks(4).enumerate() {
        let level = trail_map.data[slot];
        assert_eq!(pixel, [level, level, level, 255]);
    }
    for (slot, pixel) in cell_map.render().chunks(4).enumerate() {
        let shade = if cell_map.cells[slot].is_some() { 255 } else { 0 };
        assert_eq!(pixel, [shade, shade, shade, 255]);
    }
}

#[test]
fn trail_levels_stay_bytes_through_diffusion() {
    let mut trail = TrailMap::new(6, 6);
    trail.replace(vec![255u8; 36]);
    assert_eq!(diffuse_trail(&trail), vec![255u8; 36]);
}
