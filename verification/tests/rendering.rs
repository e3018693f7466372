use tilespin::state::App;
use tilespin::tiles::{DrawOp, TileLayer, TileSheet};

fn demo_app() -> App {
    let layer = TileLayer::new(vec![vec![0, 1], vec![2, 0]]).unwrap();
    let sheet = TileSheet::new(32, 16, 16).unwrap();
    App::new(layer, sheet).unwrap()
}

#[test]
fn update_adds_twice_dt() {
    let mut app = demo_app();
    app.update(100_000);
    assert_eq!(app.rotation, 200_000);
    app.update(0);
    assert_eq!(app.rotation, 200_000);
}

#[test]
fn update_accumulates_exactly() {
    let mut app = demo_app();
    app.update(100_000);
    app.update(200_000);
    app.update(50_000);
    assert_eq!(app.rotation, 700_000);
    assert_eq!(app.rotation as f64 / 1_000_000.0, 0.7);
}

#[test]
fn render_draws_nonzero_cells() {
    let app = demo_app();
    let ops = app.render();
    let expected = vec![
        DrawOp { src_x: 0, src_y: 0, src_w: 16, src_h: 16, dest_x: 16, dest_y: 0 },
        DrawOp { src_x: 16, src_y: 0, src_w: 16, src_h: 16, dest_x: 0, dest_y: 16 },
    ];
    assert_eq!(ops, expected);
}

#[test]
fn render_skips_empty_cells() {
    let layer = TileLayer::new(vec![vec![0, 0], vec![0, 0]]).unwrap();
    let sheet = TileSheet::new(32, 16, 16).unwrap();
    let app = App::new(layer, sheet).unwrap();
    assert!(app.render().is_empty());
}

#[test]
fn render_is_row_major() {
    let layer = TileLayer::new(vec![vec![1], vec![], vec![2, 3]]).unwrap();
    let sheet = TileSheet::new(32, 16, 16).unwrap();
    let app = App::new(layer, sheet).unwrap();
    let ops = app.render();
    let expected = vec![
        DrawOp { src_x: 0, src_y: 0, src_w: 16, src_h: 16, dest_x: 0, dest_y: 0 },
        DrawOp { src_x: 16, src_y: 0, src_w: 16, src_h: 16, dest_x: 0, dest_y: 32 },
        DrawOp { src_x: 0, src_y: 16, src_w: 16, src_h: 16, dest_x: 16, dest_y: 32 },
    ];
    assert_eq!(ops, expected);
}

#[test]
fn render_ignores_rotation() {
    let mut app = demo_app();
    let before = app.render();
    app.update(123_456);
    app.update(789);
    let after = app.render();
    assert_eq!(before, after);
}

#[test]
fn source_rect_formula() {
    let sheet = TileSheet::new(32, 16, 16).unwrap();
    assert_eq!(sheet.source_rect(0), None);
    assert_eq!(sheet.source_rect(1), Some((0, 0)));
    assert_eq!(sheet.source_rect(2), Some((16, 0)));
    assert_eq!(sheet.source_rect(3), Some((0, 16)));
    assert_eq!(sheet.source_rect(5), Some((0, 32)));
    let wide = TileSheet::new(48, 16, 16).unwrap();
    assert_eq!(wide.source_rect(5), Some((16, 16)));
    assert_eq!(wide.cols(), 3);
}

#[test]
fn source_rect_is_not_range_checked() {
    // An index beyond the sheet's tile count still computes a rectangle by
    // the same formula; nothing validates it against the sheet's height.
    let sheet = TileSheet::new(32, 16, 16).unwrap();
    assert_eq!(sheet.source_rect(9), Some((0, 64)));
}

#[test]
fn sheet_invariant_checked() {
    assert!(TileSheet::new(33, 16, 16).is_none());
    assert!(TileSheet::new(32, 0, 16).is_none());
    assert!(TileSheet::new(32, 16, 0).is_none());
    assert!(TileSheet::new(0, 16, 16).is_none());
    assert!(TileSheet::new(16, 16, 16).is_some());
}

#[test]
fn layer_accessors() {
    let layer = TileLayer::new(vec![vec![7, 8, 9], vec![1]]).unwrap();
    assert_eq!(layer.rows(), 2);
    assert_eq!(layer.row_len(0), 3);
    assert_eq!(layer.row_len(1), 1);
    assert_eq!(layer.tile_at(0, 2), 9);
    assert_eq!(layer.tile_at(1, 0), 1);
    assert!(layer.is_wf());
}
