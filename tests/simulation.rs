use euler_grid::{
    add_fluid_source, add_perturbation, apply_boundary_conditions, calculate_fluxes, cell_at,
    cell_of_pixel, create_airfoil, create_solid_object, grid_height, grid_width, initialize_grid,
    Cell, GridError, Inlet, InputEvent, Simulation,
};

const AIR_DENSITY: f64 = 1.225;
const AIR_ENERGY: f64 = 1000.0;

fn ambient() -> Cell<f64> {
    Cell { density: AIR_DENSITY, momentum_x: 0.0, momentum_y: 0.0, energy: AIR_ENERGY }
}

fn fresh(width: usize, height: usize) -> Vec<Vec<Cell<f64>>> {
    initialize_grid(width, height, ambient(), 10.0, 1000.0).unwrap()
}

fn uniform(width: usize, height: usize) -> Vec<Vec<Cell<f64>>> {
    vec![vec![ambient(); width]; height]
}

fn add(a: f64, b: f64) -> f64 {
    a + b
}

fn pressure(c: &Cell<f64>, gamma: f64) -> f64 {
    let kinetic = (c.momentum_x * c.momentum_x + c.momentum_y * c.momentum_y) / (2.0 * c.density);
    (gamma - 1.0) * (c.energy - kinetic)
}

fn euler_update(
    c: Cell<f64>,
    l: Cell<f64>,
    r: Cell<f64>,
    u: Cell<f64>,
    d: Cell<f64>,
) -> Cell<f64> {
    let gamma = 1.4;
    let p = pressure(&c, gamma);
    let pfx = (pressure(&r, gamma) - pressure(&l, gamma)) / 2.0;
    let pfy = 0.1 * (pressure(&d, gamma) - pressure(&u, gamma)) / 2.0;
    let dfx = (r.density - l.density) / 2.0;
    let dfy = (d.density - u.density) / 2.0;
    Cell {
        density: (c.density + l.density + r.density + u.density + d.density) / 5.0,
        momentum_x: c.momentum_x - (pfx + dfx * p / 2.0),
        momentum_y: c.momentum_y - (pfy + dfy * p / 2.0),
        energy: (c.energy + l.energy + r.energy + u.energy + d.energy) / 5.0,
    }
}

fn patterned(width: usize, height: usize) -> Vec<Vec<Cell<f64>>> {
    let mut g = Vec::new();
    for y in 0..height {
        let mut row = Vec::new();
        for x in 0..width {
            let k = (x * 7 + y * 13) as f64;
            row.push(Cell {
                density: 1.0 + k / 10.0,
                momentum_x: k - 20.0,
                momentum_y: 3.0 * k - 50.0,
                energy: 500.0 + 9.0 * k,
            });
        }
        g.push(row);
    }
    g
}

#[test]
fn initialize_sets_ambient_and_hot_centre() {
    let g = fresh(7, 5);
    assert_eq!(g.len(), 5);
    for y in 0..5 {
        assert_eq!(g[y].len(), 7);
        for x in 0..7 {
            let c = g[y][x];
            if x == 3 && y == 2 {
                assert_eq!(c.density, 10.0);
                assert_eq!(c.energy, 1000.0);
            } else {
                assert_eq!(c.density, AIR_DENSITY);
                assert_eq!(c.energy, AIR_ENERGY);
            }
            assert_eq!(c.momentum_x, 0.0);
            assert_eq!(c.momentum_y, 0.0);
        }
    }
    assert_eq!(grid_width(&g), 7);
    assert_eq!(grid_height(&g), 5);
}

#[test]
fn initialize_smallest_grid() {
    let g = fresh(3, 3);
    assert_eq!(g[1][1].density, 10.0);
    assert_eq!(g[0][0].density, AIR_DENSITY);
}

#[test]
fn initialize_refuses_small_grids() {
    assert_eq!(initialize_grid(2, 10, ambient(), 10.0, 1000.0), Err(GridError::TooSmall));
    assert_eq!(initialize_grid(10, 2, ambient(), 10.0, 1000.0), Err(GridError::TooSmall));
    assert_eq!(initialize_grid(0, 0, ambient(), 10.0, 1000.0), Err(GridError::TooSmall));
}

#[test]
fn sweep_leaves_border_and_solid_cells() {
    let g = patterned(8, 6);
    let mut solid = vec![vec![false; 8]; 6];
    solid[2][3] = true;
    solid[3][4] = true;
    let next = calculate_fluxes(&g, &solid, euler_update);
    for y in 0..6 {
        for x in 0..8 {
            let frozen = x == 0 || y == 0 || x == 7 || y == 5 || solid[y][x];
            if frozen {
                assert_eq!(next[y][x], g[y][x]);
            } else {
                let want = euler_update(g[y][x], g[y][x - 1], g[y][x + 1], g[y - 1][x], g[y + 1][x]);
                assert_eq!(next[y][x], want);
            }
        }
    }
}

#[test]
fn sweep_reads_only_the_old_grid() {
    let g = patterned(5, 5);
    let solid = vec![vec![false; 5]; 5];
    let next = calculate_fluxes(&g, &solid, |c: Cell<f64>, l: Cell<f64>, r: Cell<f64>, u: Cell<f64>, d: Cell<f64>| Cell {
        density: c.density + l.density + r.density + u.density + d.density,
        momentum_x: c.momentum_x,
        momentum_y: c.momentum_y,
        energy: c.energy,
    });
    let expect = g[2][2].density + g[2][1].density + g[2][3].density + g[1][2].density + g[3][2].density;
    assert_eq!(next[2][2].density, expect);
}

#[test]
fn boundaries_zero_vertical_momentum_and_copy_scalars() {
    let mut g = patterned(6, 5);
    let old = g.clone();
    apply_boundary_conditions(&mut g, 0.0);
    for y in 0..5 {
        assert_eq!(g[y][0].momentum_y, 0.0);
        assert_eq!(g[y][5].momentum_y, 0.0);
        assert_eq!(g[y][0].momentum_x, old[y][1].momentum_x);
        assert_eq!(g[y][5].momentum_x, old[y][4].momentum_x);
    }
    for x in 0..6 {
        assert_eq!(g[0][x].density, g[1][x].density);
        assert_eq!(g[4][x].density, g[3][x].density);
        assert_eq!(g[0][x].energy, old[1][x].energy);
        assert_eq!(g[4][x].energy, old[3][x].energy);
        assert_eq!(g[0][x].momentum_y, 0.0);
        assert_eq!(g[4][x].momentum_y, 0.0);
    }
    for y in 1..4 {
        for x in 1..5 {
            assert_eq!(g[y][x], old[y][x]);
        }
    }
}

#[test]
fn inlet_accumulates_density_and_overwrites_velocity() {
    let mut g = uniform(10, 10);
    g[5][0].momentum_x = -3.0;
    let inlet = Inlet { width: 4, emission_rate: 1000.0, velocity: 650.0, energy_gain: AIR_ENERGY };
    add_fluid_source(&mut g, &inlet, add);
    add_fluid_source(&mut g, &inlet, add);
    for y in 0..10 {
        let c = g[y][0];
        if (3..7).contains(&y) {
            assert!((c.density - (AIR_DENSITY + 2000.0)).abs() < 1e-9);
            assert_eq!(c.momentum_x, 650.0);
            assert_eq!(c.energy, 3.0 * AIR_ENERGY);
        } else {
            assert_eq!(c.density, AIR_DENSITY);
            assert_eq!(c.energy, AIR_ENERGY);
        }
        for x in 1..10 {
            assert_eq!(g[y][x], ambient());
        }
    }
    assert_eq!(g[2][0].momentum_x, 0.0);
}

#[test]
fn inlet_band_wider_than_grid_is_clipped() {
    let mut g = uniform(4, 5);
    let inlet = Inlet { width: 40, emission_rate: 1.0, velocity: 2.0, energy_gain: 0.0 };
    add_fluid_source(&mut g, &inlet, add);
    for y in 0..5 {
        assert_eq!(g[y][0].momentum_x, 2.0);
        assert_eq!(g[y][0].density, AIR_DENSITY + 1.0);
    }
}

#[test]
fn uniform_field_is_unchanged_by_a_tick() {
    let g = uniform(10, 10);
    let solid = vec![vec![false; 10]; 10];
    let mean = |c: Cell<i64>, l: Cell<i64>, r: Cell<i64>, u: Cell<i64>, d: Cell<i64>| Cell {
        density: (c.density + l.density + r.density + u.density + d.density) / 5,
        momentum_x: c.momentum_x - (r.density - l.density) / 2,
        momentum_y: c.momentum_y - (d.density - u.density) / 2,
        energy: (c.energy + l.energy + r.energy + u.energy + d.energy) / 5,
    };
    let ig: Vec<Vec<Cell<i64>>> = vec![vec![Cell { density: 1225, momentum_x: 0, momentum_y: 0, energy: 1000 }; 10]; 10];
    let mut next = calculate_fluxes(&ig, &solid, mean);
    apply_boundary_conditions(&mut next, 0);
    assert_eq!(next, ig);
    let mut fnext = calculate_fluxes(&g, &solid, euler_update);
    apply_boundary_conditions(&mut fnext, 0.0);
    for y in 0..10 {
        for x in 0..10 {
            assert_eq!(fnext[y][x].momentum_x, 0.0);
            assert_eq!(fnext[y][x].momentum_y, 0.0);
            assert!((fnext[y][x].density - AIR_DENSITY).abs() < 1e-9);
            assert!((fnext[y][x].energy - AIR_ENERGY).abs() < 1e-9);
        }
    }
}

#[test]
fn inlet_full_height_sets_velocity() {
    let mut g = uniform(20, 20);
    let inlet = Inlet { width: 20, emission_rate: 1000.0, velocity: 650.0, energy_gain: AIR_ENERGY };
    add_fluid_source(&mut g, &inlet, add);
    assert_eq!(g[10][0].momentum_x, 650.0);
    for y in 0..20 {
        assert_eq!(g[y][0].momentum_x, 650.0);
        assert_eq!(g[y][0].density, AIR_DENSITY + 1000.0);
    }
}

#[test]
fn interactive_injection_touches_one_cell() {
    let mut g = fresh(10, 10);
    let old = g.clone();
    assert_eq!(add_perturbation(&mut g, 5, 5, 100.0, 10.0, 0.0, add), Ok(()));
    assert_eq!(g[5][5].density, old[5][5].density + 100.0);
    assert_eq!(g[5][5].momentum_x, old[5][5].momentum_x + 10.0);
    assert_eq!(g[5][5].momentum_y, old[5][5].momentum_y);
    assert_eq!(g[5][5].energy, old[5][5].energy);
    for y in 0..10 {
        for x in 0..10 {
            if (x, y) != (5, 5) {
                assert_eq!(g[y][x], old[y][x]);
            }
        }
    }
}

#[test]
fn injection_outside_grid_is_refused() {
    let mut g = fresh(10, 10);
    let old = g.clone();
    assert_eq!(add_perturbation(&mut g, 10, 5, 100.0, 10.0, 0.0, add), Err(GridError::OutOfRange));
    assert_eq!(add_perturbation(&mut g, 5, 10, 100.0, 10.0, 0.0, add), Err(GridError::OutOfRange));
    assert_eq!(g, old);
    assert_eq!(cell_at(&g, 3, 12), Err(GridError::OutOfRange));
    assert_eq!(cell_at(&g, 5, 5), Ok(old[5][5]));
}

#[test]
fn block_obstacle_of_reference_grid() {
    let m = create_solid_object(80, 60);
    assert_eq!(m.len(), 60);
    for y in 0..60 {
        assert_eq!(m[y].len(), 80);
        for x in 0..80 {
            let want = (20..40).contains(&y) && (30..50).contains(&x);
            assert_eq!(m[y][x], want);
        }
    }
}

#[test]
fn block_obstacle_scales() {
    let m = create_solid_object(16, 9);
    assert!(m[3][6]);
    assert!(m[5][9]);
    assert!(!m[6][6]);
    assert!(!m[3][10]);
    assert!(!m[2][6]);
    assert!(!m[3][5]);
}

#[test]
fn disc_obstacle_matches_distance_rule() {
    let (w, h) = (80usize, 60usize);
    let m = create_airfoil(w, h);
    assert_eq!(m.len(), h);
    for y in 0..h {
        for x in 0..w {
            let xf = x as f64 / w as f64;
            let yf = y as f64 / h as f64;
            let dist = ((xf - 0.5).powi(2) + (yf - 0.5).powi(2)).sqrt();
            if (dist - 0.25).abs() > 1e-9 {
                assert_eq!(m[y][x], dist < 0.25, "cell {} {}", x, y);
            }
        }
    }
    assert!(m[30][40]);
    assert!(!m[0][0]);
}

#[test]
fn disc_obstacle_with_an_empty_side() {
    let m = create_airfoil(0, 4);
    assert_eq!(m.len(), 4);
    assert!(m.iter().all(|row| row.is_empty()));
    assert!(create_airfoil(7, 0).is_empty());
    assert!(create_airfoil(0, 0).is_empty());
}

#[test]
fn disc_obstacle_keeps_border_open_and_covers_centre() {
    for (w, h) in [(3usize, 3usize), (4, 4), (5, 9), (80, 60), (1, 7)] {
        let m = create_airfoil(w, h);
        assert_eq!(m.len(), h);
        for y in 0..h {
            assert_eq!(m[y].len(), w);
            assert!(!m[y][0]);
        }
        for x in 0..w {
            assert!(!m[0][x]);
        }
        if w >= 4 && h >= 4 {
            for y in 0..h {
                assert!(!m[y][w - 1]);
            }
            for x in 0..w {
                assert!(!m[h - 1][x]);
            }
        }
        if w >= 3 && h >= 3 {
            assert!(m[h / 2][w / 2]);
        }
    }
}

#[test]
fn pixels_map_to_cells() {
    assert_eq!(cell_of_pixel(57, 123, 10), Some((5, 12)));
    assert_eq!(cell_of_pixel(9, 9, 10), Some((0, 0)));
    assert_eq!(cell_of_pixel(9, 9, 0), None);
}

#[test]
fn simulation_rejects_bad_shapes() {
    assert!(matches!(Simulation::new(uniform(2, 5), vec![vec![false; 2]; 5]), Err(GridError::TooSmall)));
    let mut ragged = uniform(5, 5);
    ragged[2].pop();
    assert!(matches!(Simulation::new(ragged, vec![vec![false; 5]; 5]), Err(GridError::TooSmall)));
    assert!(matches!(Simulation::new(uniform(5, 5), vec![vec![false; 4]; 5]), Err(GridError::MaskMismatch)));
    assert!(matches!(Simulation::new(uniform(5, 5), vec![vec![false; 5]; 6]), Err(GridError::MaskMismatch)));
}

#[test]
fn simulation_tick_and_events() {
    let g = fresh(20, 20);
    let solid = create_solid_object(20, 20);
    let mut sim = Simulation::new(g.clone(), solid.clone()).unwrap();
    assert!(sim.is_running());
    let inlet = Inlet { width: 4, emission_rate: 1000.0, velocity: 650.0, energy_gain: AIR_ENERGY };

    let mut want = g.clone();
    add_fluid_source(&mut want, &inlet, add);
    let mut want = calculate_fluxes(&want, &solid, euler_update);
    apply_boundary_conditions(&mut want, 0.0);
    sim.tick(&inlet, euler_update, add, 0.0);
    assert_eq!(sim.grid(), &want);
    assert_eq!(sim.solid(), &solid);

    let before = sim.grid().clone();
    assert!(sim.handle_event(InputEvent::PointerDown { px: 55, py: 42 }, 10, 100.0, 10.0, 0.0, add));
    assert_eq!(sim.grid()[4][5].density, before[4][5].density + 100.0);
    assert!(!sim.handle_event(InputEvent::PointerDown { px: 5000, py: 42 }, 10, 100.0, 10.0, 0.0, add));
    assert_eq!(sim.inject(30, 1, 1.0, 1.0, 1.0, add), Err(GridError::OutOfRange));

    assert!(!sim.handle_event(InputEvent::Quit, 10, 100.0, 10.0, 0.0, add));
    assert!(!sim.is_running());
    let frozen = sim.grid().clone();
    sim.tick(&inlet, euler_update, add, 0.0);
    assert_eq!(sim.grid(), &frozen);
}
