use hexgrid::hex_coords::{
    axial_round, axial_to_pixel, cube_round, pixel_to_axial, AxialCoord, AxialCoordFloating,
    CubeCoord, CubeCoordFloating, Pixel, HEX_WIDTH,
};

fn cube(q: i64, r: i64, s: i64, den: i64) -> CubeCoord {
    cube_round(CubeCoordFloating { q, r, s, den })
}

fn as_f32(p: Pixel) -> (f32, f32) {
    (p.x as f32 / p.den as f32, p.y as f32 / p.den as f32)
}

#[test]
fn cube_round_ties_q_with_r_rederives_r() {
    // (0.6, 0.6, -1.2): dq and dr tie at 0.4, both above ds = 0.2.
    assert_eq!(cube(3, 3, -6, 5), CubeCoord { q: 1, r: 0, s: -1 });
    assert_eq!(cube(6, 6, -12, 10), CubeCoord { q: 1, r: 0, s: -1 });
}

#[test]
fn cube_round_rederives_q_when_its_error_is_largest() {
    // (0.4, 0.3, -0.7) rounds to (0, 0, -1) with errors 0.4, 0.3, 0.3.
    assert_eq!(cube(4, 3, -7, 10), CubeCoord { q: 1, r: 0, s: -1 });
}

#[test]
fn cube_round_rederives_s_otherwise() {
    // (0.3, 0.3, -0.6) rounds to (0, 0, -1) with errors 0.3, 0.3, 0.4.
    assert_eq!(cube(3, 3, -6, 10), CubeCoord { q: 0, r: 0, s: 0 });
}

#[test]
fn cube_round_halves_go_away_from_zero() {
    // (0.5, -0.5, 0) rounds to (1, -1, 0), already on the plane.
    assert_eq!(cube(1, -1, 0, 2), CubeCoord { q: 1, r: -1, s: 0 });
    // (2.5, -1.5, -1) rounds to (3, -2, -1): dq and dr tie above ds = 0,
    // so r is rederived as -3 - (-1).
    assert_eq!(cube(5, -3, -2, 2), CubeCoord { q: 3, r: -2, s: -1 });
}

#[test]
fn cube_round_outputs_lie_on_the_plane() {
    let inputs = [
        (3, 3, -6, 5),
        (7, -2, -5, 3),
        (-11, 4, 7, 6),
        (100, -37, -63, 9),
        (1, 1, -2, 2),
        (-5, 5, 0, 2),
        (999, -500, -499, 1000),
    ];
    for (q, r, s, den) in inputs {
        let c = cube(q, r, s, den);
        assert_eq!(c.q + c.r + c.s, 0);
    }
}

#[test]
fn axial_round_keeps_integer_coordinates() {
    for (q, r) in [(0, 0), (5, -3), (-7, 2), (1000, 1000), (-1, -1)] {
        for den in [1, 3, 7, 384] {
            let a = axial_round(AxialCoordFloating { q: q * den, r: r * den, den });
            assert_eq!(a, AxialCoord { q: q as i32, r: r as i32 });
        }
    }
}

#[test]
fn axial_round_of_fraction() {
    // (0.6, 0.6) is the cube position (0.6, 0.6, -1.2).
    let a = axial_round(AxialCoordFloating { q: 3, r: 3, den: 5 });
    assert_eq!(a, AxialCoord { q: 1, r: 0 });
}

#[test]
fn origin_maps_to_pixel_origin() {
    let p = axial_to_pixel(AxialCoord { q: 0, r: 0 });
    assert_eq!(p.x, 0);
    assert_eq!(p.y, 0);
    assert_eq!(as_f32(p), (0.0, 0.0));
}

#[test]
fn one_step_along_q_at_width_128() {
    assert_eq!(HEX_WIDTH, 128);
    let p = axial_to_pixel(AxialCoord { q: 1, r: 0 });
    assert_eq!(as_f32(p), (96.0, 32.0));
    let a = pixel_to_axial(Pixel { x: 96, y: 32, den: 1 });
    assert_eq!(a, AxialCoord { q: 1, r: 0 });
}

#[test]
fn axial_to_pixel_exact_values() {
    assert_eq!(as_f32(axial_to_pixel(AxialCoord { q: 0, r: 1 })), (0.0, 64.0));
    assert_eq!(as_f32(axial_to_pixel(AxialCoord { q: 2, r: 3 })), (192.0, 256.0));
    assert_eq!(as_f32(axial_to_pixel(AxialCoord { q: -1, r: 0 })), (-96.0, -32.0));
    assert_eq!(axial_to_pixel(AxialCoord { q: 1, r: 1 }), Pixel { x: 384, y: 384, den: 4 });
}

#[test]
fn pixel_round_trip_for_lattice_points() {
    for q in -20..=20 {
        for r in -20..=20 {
            let a = AxialCoord { q, r };
            assert_eq!(pixel_to_axial(axial_to_pixel(a)), a);
        }
    }
    let far = AxialCoord { q: 1_000_000, r: -3_000_000 };
    assert_eq!(pixel_to_axial(axial_to_pixel(far)), far);
}

#[test]
fn pixel_to_axial_near_a_cell_centre() {
    // A few pixels off the centre of cell (2, -1) at (192, 0).
    assert_eq!(pixel_to_axial(Pixel { x: 200, y: 5, den: 1 }), AxialCoord { q: 2, r: -1 });
    assert_eq!(pixel_to_axial(Pixel { x: 371, y: -13, den: 2 }), AxialCoord { q: 2, r: -1 });
    assert_eq!(pixel_to_axial(Pixel { x: -96, y: -32, den: 1 }), AxialCoord { q: -1, r: 0 });
}

#[test]
fn cube_and_axial_conversions() {
    let c = CubeCoord::from_axial(AxialCoord { q: 4, r: -9 });
    assert_eq!(c, CubeCoord { q: 4, r: -9, s: 5 });
    assert_eq!(AxialCoord::from(c), AxialCoord { q: 4, r: -9 });
    let f = CubeCoordFloating::from_axial(AxialCoordFloating { q: 7, r: -2, den: 3 });
    assert_eq!(f, CubeCoordFloating { q: 7, r: -2, s: -5, den: 3 });
    assert_eq!(AxialCoordFloating::from(f), AxialCoordFloating { q: 7, r: -2, den: 3 });
}
