//! Marching-squares behaviour: edge crossings, triangle topology, anomaly
//! flagging, and a synthetic saddle field.

use uuuddd4::fix::{Fix, FIX_ONE};
use uuuddd4::vec2::Vec2F;
use uuuddd4::model::{Param, System};
use uuuddd4::setting::CalcSetting;
use uuuddd4::util::GridInfo;
use uuuddd4::honeycomb_grids::{BandInfo, Grid, Grids};
use uuuddd4::height_map::{
    div_internal, create_triangle_line, is_crossing_anomaly, AllHeightMaps, Cell, HeightMaps,
};

fn fx(x: f64) -> Fix {
    Fix::new((x * FIX_ONE as f64).round() as i64)
}

fn v(x: f64, y: f64) -> Vec2F {
    Vec2F::new(fx(x), fx(y))
}

fn corner(x: f64, y: f64, eigen: f64) -> BandInfo {
    let mut b = BandInfo::ini();
    b.kk = v(x, y);
    b.eigen = fx(eigen);
    b.berry = Some(Fix::new(0));
    b
}

#[test]
fn edge_crossing_interpolates_linearly() {
    let p1 = corner(0.0, 0.0, 0.0);
    let p2 = corner(1.0, 0.0, 1.0);
    let hit = div_internal(p1, p2, fx(0.25)).expect("the level crosses this edge");
    assert!((hit.x.raw - fx(0.25).raw).abs() <= 2);
    assert_eq!(hit.y.raw, 0);
}

#[test]
fn edge_crossing_absent_when_level_outside() {
    let p1 = corner(0.0, 0.0, 0.0);
    let p2 = corner(1.0, 0.0, 1.0);
    assert!(div_internal(p1, p2, fx(2.0)).is_none());
    // touching an endpoint exactly does not count as a strict crossing
    assert!(div_internal(p1, p2, fx(0.0)).is_none());
}

#[test]
fn triangle_patterns() {
    let e = Some(v(0.5, 0.0));
    let f = Some(v(0.0, 0.5));
    let g = Some(v(0.5, 0.5));
    assert!(create_triangle_line(e, f, None).is_some());
    assert!(create_triangle_line(e, None, f).is_some());
    assert!(create_triangle_line(None, e, f).is_some());
    assert!(create_triangle_line(None, None, None).is_none());
    // one or three crossings produce no segment and are flagged
    assert!(create_triangle_line(e, None, None).is_none());
    assert!(create_triangle_line(e, f, g).is_none());
    assert!(is_crossing_anomaly(&e, &None, &None));
    assert!(is_crossing_anomaly(&e, &f, &g));
    assert!(!is_crossing_anomaly(&e, &f, &None));
    assert!(!is_crossing_anomaly(&None, &None, &None));
}

fn saddle_grids() -> Grids {
    // a 2 x 2 mesh whose single interior cell is a saddle: corners
    // a = 0, b = 1, c = 0, d = 1
    let setting = CalcSetting {
        mesh_kx: 2,
        mesh_ky: 2,
        height_map_div: 2,
        threshold_berry: Fix::new(1),
        main_mesh: 1,
    };
    let mk = |i: usize, j: usize, e: f64| {
        let mut b = corner(i as f64, j as f64, e);
        b.i = Some(i);
        b.j = Some(j);
        b
    };
    // grid[i][j]: a = (0,0) -> 0, b = (1,0) -> 1, c = (1,1) -> 0, d = (0,1) -> 1
    let rows = vec![
        vec![mk(0, 0, 0.0), mk(0, 1, 1.0)],
        vec![mk(1, 0, 1.0), mk(1, 1, 0.0)],
    ];
    let grid = Grid(rows);
    let rows2 = vec![
        vec![mk(0, 0, 0.0), mk(0, 1, 1.0)],
        vec![mk(1, 0, 1.0), mk(1, 1, 0.0)],
    ];
    let grid2 = Grid(rows2);
    Grids {
        u: vec![grid],
        d: vec![grid2],
        system: System::Tmd(Param::new(Fix::new(0), Fix::new(0))),
        calc_setting: setting,
        grid_info: GridInfo::new(
            Fix::new(0),
            Fix::new(0),
            Fix::new(FIX_ONE),
            Fix::new(FIX_ONE),
            Some((fx(0.0), fx(1.0))),
        ),
    }
}

#[test]
fn saddle_level_yields_two_segments() {
    let grids = saddle_grids();
    let maps = AllHeightMaps::build(&grids);
    // level 1 sits at energy 0.5, strictly between every corner pair that
    // differs; both triangles of the cell are cut once
    assert_eq!(maps.line_count(0, 0, 1), 2);
    // level 0 sits at the minimum corner energy and cuts nothing strictly
    assert_eq!(maps.line_count(0, 0, 0), 0);
    // the down channel sees the same synthetic field
    assert_eq!(maps.line_count(1, 0, 1), 2);
    // freshly extracted segments carry no midpoint values yet
    let l = maps.get_line(0, 0, 1, 0);
    assert!(l.berry.is_none());
    assert!(l.anomaly_velocity.is_none());
    // a clean saddle cut flags nothing
    assert_eq!(maps.anomalies, 0);
}

#[test]
fn vertex_coincidence_is_counted_as_anomaly() {
    // corners a = 0.5, b = 0, c = 0.5, d = 1 with the level at 0.5: the
    // level passes exactly through two corners, so each triangle is cut on
    // exactly one edge - the flagged pattern - and no segment is emitted
    let setting = CalcSetting {
        mesh_kx: 2,
        mesh_ky: 2,
        height_map_div: 2,
        threshold_berry: Fix::new(1),
        main_mesh: 1,
    };
    let mk = |i: usize, j: usize, e: f64| {
        let mut b = corner(i as f64, j as f64, e);
        b.i = Some(i);
        b.j = Some(j);
        b
    };
    // grid[i][j]: a = (0,0) -> 0.5, b = (1,0) -> 0, c = (1,1) -> 0.5, d = (0,1) -> 1
    let build_grid = || {
        Grid(vec![
            vec![mk(0, 0, 0.5), mk(0, 1, 1.0)],
            vec![mk(1, 0, 0.0), mk(1, 1, 0.5)],
        ])
    };
    let grids = Grids {
        u: vec![build_grid()],
        d: vec![build_grid()],
        system: System::Tmd(Param::new(Fix::new(0), Fix::new(0))),
        calc_setting: setting,
        grid_info: GridInfo::new(
            Fix::new(0),
            Fix::new(0),
            Fix::new(FIX_ONE),
            Fix::new(FIX_ONE),
            Some((fx(0.0), fx(1.0))),
        ),
    };
    let maps = AllHeightMaps::build(&grids);
    // both triangles of the one cell, in both spin channels
    assert_eq!(maps.anomalies, 4);
    assert_eq!(maps.line_count(0, 0, 1), 0);
}

#[test]
fn set_line_values_attaches_all_fields() {
    let grids = saddle_grids();
    let mut maps = AllHeightMaps::build(&grids);
    maps.set_line_values(
        0,
        0,
        1,
        0,
        fx(0.5),
        v(1.0, -1.0),
        fx(0.1),
        fx(0.2),
        fx(0.3),
    );
    let l = maps.get_line(0, 0, 1, 0);
    assert_eq!(l.berry.unwrap().raw, fx(0.5).raw);
    assert_eq!(l.anomaly_velocity.unwrap().x.raw, fx(1.0).raw);
    assert_eq!(l.gm_yy.unwrap().raw, fx(0.3).raw);
    // the neighbouring segment is untouched
    assert!(maps.get_line(0, 0, 1, 1).berry.is_none());
}

#[test]
fn cell_index_range_spans_corner_levels() {
    let grids = saddle_grids();
    let hm = HeightMaps::initialize(fx(0.0), fx(1.0), 2);
    let cell = Cell::from_grid(&grids.u[0], 0, 0, 2, 2);
    let (mn, mx) = cell.index_range(&hm);
    assert_eq!(mn, 0);
    assert_eq!(mx, 1);
}
