use lbm2d::cell::GridCell;
use lbm2d::fixed::SCALE;
use lbm2d::sim::{
    bound_check, bound_circle, calc_equilibrium_predict, calc_total_avg_velocity,
    calc_total_density, default_bounds, force_unit_density, relative_index, velocities_i32,
    weights, Sim, SimError, WEIGHT_DENOM,
};

// Direction index of offset (u, v): (u + 1) + (v + 1) * 3.
const EAST: usize = 5;
const WEST: usize = 3;

// Fixed-point weight populations: (n * SCALE) / 36 for n in the weight table.
const W_DIAG: i64 = 1820;
const W_AXIS: i64 = 7281;
const W_CENTER: i64 = 29127;

#[test]
fn weights_sum_to_denominator() {
    let w = weights();
    let mut sum: i64 = 0;
    for i in 0..9 {
        sum += *w.get_idx(i);
    }
    assert_eq!(sum, WEIGHT_DENOM);
}

#[test]
fn weights_sum_to_one_in_floating_point() {
    let w = weights();
    let sum: f32 = w.data().iter().map(|&n| n as f32 / WEIGHT_DENOM as f32).sum();
    assert!((sum - 1.0).abs() < 1e-6);
}

#[test]
fn weights_values() {
    let w = weights();
    let expected: [i64; 9] = [1, 4, 1, 4, 16, 4, 1, 4, 1];
    for i in 0..9 {
        assert_eq!(*w.get_idx(i), expected[i]);
    }
}

#[test]
fn constants_are_idempotent() {
    let w1 = weights();
    let w2 = weights();
    let v1 = velocities_i32();
    let v2 = velocities_i32();
    for i in 0..9 {
        assert_eq!(*w1.get_idx(i), *w2.get_idx(i));
        assert_eq!(*v1.get_idx(i), *v2.get_idx(i));
    }
}

#[test]
fn velocities_are_the_offset_table() {
    let v = velocities_i32();
    for y in 0..3 {
        for x in 0..3 {
            assert_eq!(*v.at((x, y)), (x as i32 - 1, y as i32 - 1));
        }
    }
}

#[test]
fn relative_index_translates() {
    assert_eq!(relative_index((3, 2), (1, 0)), (4, 2));
    assert_eq!(relative_index((3, 2), (-1, -1)), (2, 1));
    assert_eq!(relative_index((0, 0), (0, 0)), (0, 0));
}

#[test]
fn density_of_uniform_site() {
    // A site with every population 1.0: the weighted sum is 36 * SCALE,
    // so the density is exactly 1.0.
    let cell = GridCell::from_data([SCALE; 9]);
    assert_eq!(calc_total_density(&cell), SCALE);
}

#[test]
fn density_of_single_population() {
    // One population of 1.0 in the east slot (weight 4/36).
    let mut cell = GridCell::from_data([0i64; 9]);
    cell.set_idx(EAST, SCALE);
    assert_eq!(calc_total_density(&cell), 4 * SCALE / 36);
}

#[test]
fn momentum_of_single_population() {
    let mut cell = GridCell::from_data([0i64; 9]);
    cell.set_idx(EAST, SCALE);
    assert_eq!(calc_total_avg_velocity(&cell), (SCALE, 0));
    let mut cell = GridCell::from_data([0i64; 9]);
    cell.set_idx(WEST, SCALE);
    assert_eq!(calc_total_avg_velocity(&cell), (-SCALE, 0));
}

#[test]
fn momentum_of_uniform_site_is_zero() {
    let cell = GridCell::from_data([SCALE; 9]);
    assert_eq!(calc_total_avg_velocity(&cell), (0, 0));
}

#[test]
fn equilibrium_at_rest_is_weighted_density() {
    // A uniform site has zero momentum and density 1.0, so the equilibrium
    // is exactly the weight table scaled to populations.
    let cell = GridCell::from_data([SCALE; 9]);
    let eq = calc_equilibrium_predict(&cell);
    let expected: [i64; 9] = [
        W_DIAG, W_AXIS, W_DIAG, W_AXIS, W_CENTER, W_AXIS, W_DIAG, W_AXIS, W_DIAG,
    ];
    for i in 0..9 {
        assert_eq!(*eq.get_idx(i), expected[i]);
    }
}

#[test]
fn equilibrium_of_zero_site_is_zero() {
    let cell = GridCell::from_data([0i64; 9]);
    assert_eq!(calc_total_density(&cell), 0);
    assert_eq!(calc_total_avg_velocity(&cell), (0, 0));
    let eq = calc_equilibrium_predict(&cell);
    for i in 0..9 {
        assert_eq!(*eq.get_idx(i), 0);
    }
}

#[test]
fn new_rejects_degenerate_dimensions() {
    assert!(matches!(Sim::new(2, 5), Err(SimError::InvalidConfig)));
    assert!(matches!(Sim::new(5, 2), Err(SimError::InvalidConfig)));
    assert!(matches!(Sim::new(0, 0), Err(SimError::InvalidConfig)));
    assert!(Sim::new(3, 3).is_ok());
}

#[test]
fn new_engine_is_zero_with_ring_mask() {
    let sim = Sim::new(5, 4).unwrap();
    for y in 0..4 {
        for x in 0..5 {
            for i in 0..9 {
                assert_eq!(*sim.grid().get(x, y).get_idx(i), 0);
            }
            let on_ring = x == 0 || y == 0 || x == 4 || y == 3;
            assert_eq!(*sim.bounds().get(x, y), on_ring);
        }
    }
}

#[test]
fn default_bounds_is_a_ring() {
    let b = default_bounds(6, 5);
    for y in 0..5 {
        for x in 0..6 {
            let on_ring = x == 0 || y == 0 || x == 5 || y == 4;
            assert_eq!(*b.get(x, y), on_ring);
        }
    }
}

#[test]
fn bounce_back_reflects_into_opposite_slot() {
    // A 5x5 engine with the default ring: a population moving east from
    // (3, 2) hits the solid cell (4, 2) and must reappear at (3, 2) in the
    // west slot, and nowhere else.
    let mut sim = Sim::new(5, 5).unwrap();
    let grid = sim.grid_mut();
    let mut cell = *grid.get(3, 2);
    cell.set_idx(EAST, SCALE);
    grid.set(3, 2, cell);
    sim.step(0);
    for y in 0..5 {
        for x in 0..5 {
            for i in 0..9 {
                let expected = if x == 3 && y == 2 && i == WEST { SCALE } else { 0 };
                assert_eq!(*sim.grid().get(x, y).get_idx(i), expected);
            }
        }
    }
}

#[test]
fn plain_streaming_translates_one_cell() {
    // Same setup, but with (4, 2) carved out of the ring: the population
    // must stream east into (4, 2), same slot, and the source slot empties.
    let mut sim = Sim::new(5, 5).unwrap();
    sim.bounds_mut().set(4, 2, false);
    let grid = sim.grid_mut();
    let mut cell = *grid.get(3, 2);
    cell.set_idx(EAST, SCALE);
    grid.set(3, 2, cell);
    sim.step(0);
    for y in 0..5 {
        for x in 0..5 {
            for i in 0..9 {
                let expected = if x == 4 && y == 2 && i == EAST { SCALE } else { 0 };
                assert_eq!(*sim.grid().get(x, y).get_idx(i), expected);
            }
        }
    }
}

#[test]
fn border_cells_are_never_streaming_sources() {
    // After the population has streamed onto the border cell (4, 2), a
    // further tick must not move it anywhere: border cells are only
    // destinations, so the population vanishes from the domain.
    let mut sim = Sim::new(5, 5).unwrap();
    sim.bounds_mut().set(4, 2, false);
    let grid = sim.grid_mut();
    let mut cell = *grid.get(3, 2);
    cell.set_idx(EAST, SCALE);
    grid.set(3, 2, cell);
    sim.step(0);
    sim.step(0);
    for y in 0..5 {
        for x in 0..5 {
            for i in 0..9 {
                assert_eq!(*sim.grid().get(x, y).get_idx(i), 0);
            }
        }
    }
}

#[test]
fn buffers_swap_roles_after_step() {
    // The grid seeded before the step is no longer the one read afterward:
    // the seeded east population is gone from (3, 2) and shows up only as
    // its bounced reflection, and a second step keeps simulating from the
    // streamed buffer rather than the stale one.
    let mut sim = Sim::new(5, 5).unwrap();
    let grid = sim.grid_mut();
    let mut cell = *grid.get(3, 2);
    cell.set_idx(EAST, SCALE);
    grid.set(3, 2, cell);
    sim.step(0);
    assert_eq!(*sim.grid().get(3, 2).get_idx(EAST), 0);
    assert_eq!(*sim.grid().get(3, 2).get_idx(WEST), SCALE);
    sim.step(0);
    // The reflected population now moves west into (2, 2).
    assert_eq!(*sim.grid().get(3, 2).get_idx(WEST), 0);
    assert_eq!(*sim.grid().get(2, 2).get_idx(WEST), SCALE);
}

#[test]
fn full_relaxation_reaches_equilibrium() {
    // With omega = 1.0 the collision replaces every population by its
    // equilibrium value exactly. In a 3x3 engine the single interior cell is
    // surrounded by the ring, so every direction bounces back in place; the
    // equilibrium of a uniform site is symmetric, so the cell must hold
    // exactly the weight-scaled density afterward.
    let mut sim = Sim::new(3, 3).unwrap();
    sim.grid_mut().set(1, 1, GridCell::from_data([SCALE; 9]));
    sim.step(SCALE);
    let expected: [i64; 9] = [
        W_DIAG, W_AXIS, W_DIAG, W_AXIS, W_CENTER, W_AXIS, W_DIAG, W_AXIS, W_DIAG,
    ];
    for i in 0..9 {
        assert_eq!(*sim.grid().get(1, 1).get_idx(i), expected[i]);
    }
    for y in 0..3 {
        for x in 0..3 {
            if x != 1 || y != 1 {
                for i in 0..9 {
                    assert_eq!(*sim.grid().get(x, y).get_idx(i), 0);
                }
            }
        }
    }
}

#[test]
fn step_accepts_any_omega() {
    // Relaxation rates outside [0, 2] are accepted without validation; on an
    // all-zero grid the equilibrium is zero, so any rate leaves it zero.
    let mut sim = Sim::new(4, 4).unwrap();
    sim.step(3 * SCALE);
    sim.step(-2 * SCALE);
    for y in 0..4 {
        for x in 0..4 {
            for i in 0..9 {
                assert_eq!(*sim.grid().get(x, y).get_idx(i), 0);
            }
        }
    }
}

#[test]
fn stream_and_bounce_into_one_slot_saturate() {
    // Cell (1, 2) is made solid and given an eastward population, while the
    // fluid cell (2, 2) holds a westward one. In one tick the eastward
    // population streams into (2, 2) east, and the westward one bounces off
    // the solid neighbor into the same slot; the saturating sum caps at the
    // representable maximum.
    let mut sim = Sim::new(5, 5).unwrap();
    sim.bounds_mut().set(1, 2, true);
    let grid = sim.grid_mut();
    let mut solid_cell = *grid.get(1, 2);
    solid_cell.set_idx(EAST, i64::MAX);
    grid.set(1, 2, solid_cell);
    let mut fluid_cell = *grid.get(2, 2);
    fluid_cell.set_idx(WEST, i64::MAX);
    grid.set(2, 2, fluid_cell);
    sim.step(0);
    for y in 0..5 {
        for x in 0..5 {
            for i in 0..9 {
                let expected = if x == 2 && y == 2 && i == EAST { i64::MAX } else { 0 };
                assert_eq!(*sim.grid().get(x, y).get_idx(i), expected);
            }
        }
    }
}

#[test]
fn force_unit_density_on_zero_site_gives_weights() {
    let out = force_unit_density(GridCell::from_data([0i64; 9]));
    let expected: [i64; 9] = [
        W_DIAG, W_AXIS, W_DIAG, W_AXIS, W_CENTER, W_AXIS, W_DIAG, W_AXIS, W_DIAG,
    ];
    for i in 0..9 {
        assert_eq!(*out.get_idx(i), expected[i]);
    }
}

#[test]
fn force_unit_density_rescales() {
    // A uniform site of 2.0 has density 2.0; rescaling gives 1.0 everywhere.
    let out = force_unit_density(GridCell::from_data([2 * SCALE; 9]));
    for i in 0..9 {
        assert_eq!(*out.get_idx(i), SCALE);
    }
}

#[test]
fn bound_check_accepts_only_in_range() {
    let arr = default_bounds(5, 4);
    assert_eq!(bound_check((0, 0), &arr), Some((0, 0)));
    assert_eq!(bound_check((4, 3), &arr), Some((4, 3)));
    assert_eq!(bound_check((-1, 2), &arr), None);
    assert_eq!(bound_check((2, -1), &arr), None);
    assert_eq!(bound_check((5, 2), &arr), None);
    assert_eq!(bound_check((2, 4), &arr), None);
}

#[test]
fn bound_circle_marks_the_disc() {
    let mut sim = Sim::new(9, 9).unwrap();
    bound_circle(sim.bounds_mut(), (4, 4), 2);
    for y in 0..9i32 {
        for x in 0..9i32 {
            let on_ring = x == 0 || y == 0 || x == 8 || y == 8;
            let in_disc = (x - 4) * (x - 4) + (y - 4) * (y - 4) < 4;
            assert_eq!(
                *sim.bounds().get(x as usize, y as usize),
                on_ring || in_disc
            );
        }
    }
}

#[test]
fn bound_circle_clips_at_the_edge() {
    let mut mask = default_bounds(5, 5);
    bound_circle(&mut mask, (0, 2), 2);
    for y in 0..5i32 {
        for x in 0..5i32 {
            let on_ring = x == 0 || y == 0 || x == 4 || y == 4;
            let in_disc = x * x + (y - 2) * (y - 2) < 4;
            assert_eq!(*mask.get(x as usize, y as usize), on_ring || in_disc);
        }
    }
}
