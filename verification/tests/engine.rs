//! Engine-level behavior: the cursor protocol, the image cache, the
//! render plan and its cache toggle.

use render_wasm::fills::{Color, Fill, FillError, RawStopData};
use render_wasm::ident::from_quartet;
use render_wasm::render::{DrawStep, RenderResult};
use render_wasm::state::State;

fn enters_of(plan: &[DrawStep]) -> Vec<usize> {
    plan.iter()
        .filter_map(|s| match s {
            DrawStep::Enter { index } => Some(*index),
            DrawStep::Leave => None,
        })
        .collect()
}

#[test]
fn mutations_without_selection_are_silent_no_ops() {
    let mut st = State::new(800, 600);
    st.set_shape_rotation(45.0f32.to_bits());
    st.set_shape_selrect(0, 0, 1, 1);
    st.add_shape_solid_fill(0xff00ff00);
    st.clear_shape_fills();
    st.clear_shape_children();
    st.set_shape_opacity(0);
    assert!(st.shapes.is_empty());
    assert_eq!(st.add_shape_fill_stops(&vec![]), Ok(()));
}

#[test]
fn selecting_materializes_an_empty_shape_once() {
    let mut st = State::new(800, 600);
    let x = from_quartet(0, 0, 0, 7);
    st.use_shape(x);
    assert_eq!(st.shapes.len(), 1);
    assert_eq!(st.shapes[0].id, x);
    st.use_shape(x);
    assert_eq!(st.shapes.len(), 1, "re-selection must not materialize again");
}

#[test]
fn reselection_mutates_the_same_underlying_shape() {
    let mut st = State::new(800, 600);
    let x = from_quartet(0, 0, 0, 1);
    let y = from_quartet(0, 0, 0, 2);
    st.use_shape(y);
    st.use_shape(x);
    st.set_shape_rotation(30.0f32.to_bits());
    st.use_shape(y);
    st.use_shape(x);
    st.set_shape_opacity(0.5f32.to_bits());
    // Both mutations landed on the one shape named x.
    assert_eq!(st.shapes.len(), 2);
    let sx = st.shapes.iter().find(|s| s.id == x).unwrap();
    assert_eq!(sx.rotation, 30.0f32.to_bits());
    assert_eq!(sx.opacity, 0.5f32.to_bits());
    let sy = st.shapes.iter().find(|s| s.id == y).unwrap();
    assert_eq!(sy.rotation, 0);
    assert_eq!(sy.opacity, 1.0f32.to_bits());
}

#[test]
fn store_image_then_cached_and_overwrite_keeps_cached() {
    let mut st = State::new(100, 100);
    let id = from_quartet(1, 1, 2, 2);
    assert!(!st.is_image_cached(id));
    st.store_image(id, vec![1, 2, 3]);
    assert!(st.is_image_cached(id));
    st.store_image(id, vec![9, 9]);
    assert!(st.is_image_cached(id));
    assert_eq!(st.render_state.images.entries.len(), 1);
    assert_eq!(st.render_state.images.entries[0].data, vec![9, 9]);
    assert!(!st.is_image_cached(from_quartet(1, 1, 2, 3)));
}

#[test]
fn end_to_end_solid_red_rectangle() {
    let mut st = State::new(800, 600);
    st.use_shape(from_quartet(0, 0, 0, 1));
    st.set_shape_selrect(
        0.0f32.to_bits(),
        0.0f32.to_bits(),
        100.0f32.to_bits(),
        100.0f32.to_bits(),
    );
    st.add_shape_solid_fill(0xFF0000FF);
    let r = st.render_all(false);
    match r {
        RenderResult::Repainted(plan) => {
            assert_eq!(enters_of(&plan), vec![0], "exactly one shape drawn");
            assert_eq!(plan.len(), 2);
        }
        RenderResult::Reused => panic!("a fresh engine has no raster to reuse"),
    }
    let sh = &st.shapes[0];
    assert_eq!(sh.fills, vec![Fill::Solid(Color::new(0xFF0000FF))]);
    assert_eq!(sh.selrect.right, 100.0f32.to_bits());
    assert_eq!(sh.selrect.bottom, 100.0f32.to_bits());
    // identity view transform
    assert_eq!(st.render_state.viewbox.zoom, 1.0f32.to_bits());
    assert_eq!(st.render_state.viewbox.pan_x, 0);
    assert_eq!(st.render_state.viewbox.pan_y, 0);
}

#[test]
fn end_to_end_gradient_with_two_stops() {
    let mut st = State::new(800, 600);
    st.use_shape(from_quartet(0, 0, 0, 2));
    st.add_shape_linear_fill(
        0.0f32.to_bits(),
        0.0f32.to_bits(),
        100.0f32.to_bits(),
        0.0f32.to_bits(),
        1.0f32.to_bits(),
    );
    let stops = vec![
        RawStopData { r: 0x11, g: 0x22, b: 0x33, a: 0xFF, offset: 0 },
        RawStopData { r: 0x44, g: 0x55, b: 0x66, a: 0xFF, offset: 100 },
    ];
    assert_eq!(st.add_shape_fill_stops(&stops), Ok(()));
    let sh = &st.shapes[0];
    match sh.fills.last() {
        Some(Fill::LinearGradient(g)) => {
            assert_eq!(g.stops.len(), 2);
            assert_eq!(g.stops[0].offset, 0);
            assert_eq!(g.stops[1].offset, 100);
            assert_eq!(g.stops[0].offset as f32 / 100.0, 0.0);
            assert_eq!(g.stops[1].offset as f32 / 100.0, 1.0);
            assert_eq!(g.stops[0].color, Color::from_argb(0xFF, 0x11, 0x22, 0x33));
            assert_eq!(g.stops[1].color, Color::from_argb(0xFF, 0x44, 0x55, 0x66));
        }
        other => panic!("expected a linear gradient fill, got {:?}", other),
    }
}

#[test]
fn fill_stops_fail_as_status_values_and_change_nothing() {
    let mut st = State::new(10, 10);
    st.use_shape(from_quartet(0, 0, 0, 3));
    let stops = vec![RawStopData { r: 1, g: 2, b: 3, a: 4, offset: 50 }];
    assert_eq!(st.add_shape_fill_stops(&stops), Err(FillError::NoFills));
    st.add_shape_solid_fill(0xff000000);
    assert_eq!(st.add_shape_fill_stops(&stops), Err(FillError::NotAGradient));
    assert_eq!(st.shapes[0].fills.len(), 1);
    assert_eq!(st.shapes[0].fills[0], Fill::Solid(Color::new(0xff000000)));
    // An empty batch is a no-op that succeeds even without fills.
    st.clear_shape_fills();
    assert_eq!(st.add_shape_fill_stops(&vec![]), Ok(()));
    assert!(st.shapes[0].fills.is_empty());
}

#[test]
fn render_cache_toggle_reuses_and_recomputes() {
    let mut st = State::new(64, 64);
    st.use_shape(from_quartet(0, 0, 0, 1));
    assert!(matches!(st.render_all(true), RenderResult::Repainted(_)));
    assert_eq!(st.render_all(true), RenderResult::Reused);
    assert!(matches!(st.render_all(false), RenderResult::Repainted(_)));
    assert_eq!(st.navigate(), RenderResult::Reused);
    st.resize(128, 128);
    assert_eq!(st.render_state.width, 128);
    assert!(matches!(st.navigate(), RenderResult::Repainted(_)));
    assert!(matches!(st.render_all(true), RenderResult::Repainted(_)));
    st.render_state.reset_canvas();
    assert!(matches!(st.render_all(true), RenderResult::Repainted(_)));
}

#[test]
fn render_plan_enters_each_shape_once_despite_cycles() {
    let mut st = State::new(64, 64);
    let a = from_quartet(0, 0, 0, 1);
    let b = from_quartet(0, 0, 0, 2);
    let stray_child = from_quartet(9, 9, 9, 9);
    st.use_shape(a);
    st.add_shape_child(b);
    st.add_shape_child(stray_child); // never stored: skipped by the walk
    st.use_shape(b);
    st.add_shape_child(a); // a cycle: a -> b -> a
    match st.render_all(false) {
        RenderResult::Repainted(plan) => {
            let mut entered = enters_of(&plan);
            assert_eq!(entered.len(), 2, "each stored shape entered exactly once");
            entered.sort();
            assert_eq!(entered, vec![0, 1]);
        }
        RenderResult::Reused => panic!("a fresh engine has no raster to reuse"),
    }
}

#[test]
fn set_render_options_and_view_overwrite_without_validation() {
    let mut st = State::new(10, 10);
    st.set_render_options(0b1010, 2.0f32.to_bits());
    assert_eq!(st.render_state.debug_flags, 0b1010);
    assert_eq!(st.render_state.dpr, 2.0f32.to_bits());
    st.render_state.viewbox.set_all(
        2.0f32.to_bits(),
        5.0f32.to_bits(),
        6.0f32.to_bits(),
    );
    assert_eq!(st.render_state.viewbox.zoom, 2.0f32.to_bits());
    st.render_state.viewbox.set_zoom(0.0f32.to_bits());
    assert_eq!(st.render_state.viewbox.zoom, 0, "zero zoom accepted, caller's responsibility");
    st.render_state.viewbox.set_pan_xy(7.0f32.to_bits(), 8.0f32.to_bits());
    assert_eq!(st.render_state.viewbox.pan_x, 7.0f32.to_bits());
    assert_eq!(st.render_state.viewbox.pan_y, 8.0f32.to_bits());
}

#[test]
fn shape_children_and_blend_and_transform_mutations() {
    let mut st = State::new(10, 10);
    let x = from_quartet(0, 0, 0, 1);
    let c1 = from_quartet(0, 0, 0, 2);
    let c2 = from_quartet(0, 0, 0, 3);
    st.use_shape(x);
    st.add_shape_child(c1);
    st.add_shape_child(c2);
    assert_eq!(st.shapes[0].children, vec![c1, c2]);
    st.clear_shape_children();
    assert!(st.shapes[0].children.is_empty());

    st.set_shape_blend_mode(2);
    assert_eq!(st.shapes[0].blend_mode, render_wasm::blend::BlendMode::Multiply);
    st.set_shape_blend_mode(-1);
    assert_eq!(st.shapes[0].blend_mode, render_wasm::blend::BlendMode::Normal);

    st.set_shape_transform(
        1.0f32.to_bits(),
        0.1f32.to_bits(),
        0.2f32.to_bits(),
        1.0f32.to_bits(),
        30.0f32.to_bits(),
        40.0f32.to_bits(),
    );
    let sh = &st.shapes[0];
    assert_eq!(sh.translation(), (30.0f32.to_bits(), 40.0f32.to_bits()));
    assert_eq!(sh.scale(), (1.0f32.to_bits(), 1.0f32.to_bits()));
    assert_eq!(sh.skew(), (0.2f32.to_bits(), 0.1f32.to_bits()));

    st.add_shape_image_fill(c1, 128, 32.0f32.to_bits(), 16.0f32.to_bits());
    match st.shapes[0].fills.last() {
        Some(Fill::Image(img)) => {
            assert_eq!(img.id, c1);
            assert_eq!(img.alpha, 128);
            assert_eq!(img.width, 32.0f32.to_bits());
            assert_eq!(img.height, 16.0f32.to_bits());
        }
        other => panic!("expected an image fill, got {:?}", other),
    }
}
