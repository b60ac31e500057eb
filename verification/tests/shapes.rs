//! Shape-level behavior: fills, gradient stops, transform projections.

use render_wasm::fills::{Color, Fill, FillError, GradientStop};
use render_wasm::ident::from_quartet;
use render_wasm::math::Matrix;
use render_wasm::shapes::Shape;

fn any_shape() -> Shape {
    Shape::new(from_quartet(0, 0, 0, 0))
}

#[test]
fn add_fill_pushes_a_new_fill() {
    let mut shape = any_shape();
    assert_eq!(shape.fills.len(), 0);

    shape.add_fill(Fill::Solid(Color::new(0)));
    assert_eq!(shape.fills.get(0), Some(&Fill::Solid(Color::new(0))))
}

#[test]
fn transform_projections_read_the_transform() {
    let mut shape = any_shape();
    let (a, b, c, d, e, f) = (
        2.0f32.to_bits(),
        0.5f32.to_bits(),
        0.25f32.to_bits(),
        3.0f32.to_bits(),
        10.0f32.to_bits(),
        20.0f32.to_bits(),
    );
    shape.transform = Matrix { a, b, c, d, e, f };
    assert_eq!(shape.translation(), (e, f));
    assert_eq!(shape.scale(), (a, d));
    assert_eq!(shape.skew(), (c, b));

    // The projections are independent of mutation order: mutating
    // other fields in between changes nothing.
    shape.rotation = 45.0f32.to_bits();
    shape.opacity = 0.5f32.to_bits();
    assert_eq!(shape.translation(), (e, f));
    assert_eq!(shape.scale(), (a, d));
    assert_eq!(shape.skew(), (c, b));
}

#[test]
fn gradient_stop_on_empty_fill_list_is_no_fills_error() {
    let mut shape = any_shape();
    let r = shape.add_gradient_stop(Color::new(0xff000000), 50);
    assert_eq!(r, Err(FillError::NoFills));
    assert_eq!(shape.fills.len(), 0);
}

#[test]
fn gradient_stop_on_solid_fill_is_not_a_gradient_error() {
    let mut shape = any_shape();
    shape.add_fill(Fill::Solid(Color::new(0xff0000ff)));
    let r = shape.add_gradient_stop(Color::new(0xff000000), 50);
    assert_eq!(r, Err(FillError::NotAGradient));
    assert_eq!(shape.fills.len(), 1);
    assert_eq!(shape.fills.get(0), Some(&Fill::Solid(Color::new(0xff0000ff))));
}

#[test]
fn gradient_stops_append_in_call_order_after_a_gradient_fill() {
    let mut shape = any_shape();
    let start = (0.0f32.to_bits(), 0.0f32.to_bits());
    let end = (100.0f32.to_bits(), 0.0f32.to_bits());
    shape.add_fill(Fill::new_linear_gradient(start, end, 1.0f32.to_bits()));

    assert_eq!(shape.add_gradient_stop(Color::new(0xff112233), 0), Ok(()));
    assert_eq!(shape.add_gradient_stop(Color::new(0xff445566), 25), Ok(()));
    assert_eq!(shape.add_gradient_stop(Color::new(0xff778899), 100), Ok(()));

    assert_eq!(shape.fills().len(), 1);
    match shape.fills().last() {
        Some(Fill::LinearGradient(g)) => {
            assert_eq!(
                g.stops,
                vec![
                    GradientStop { color: Color::new(0xff112233), offset: 0 },
                    GradientStop { color: Color::new(0xff445566), offset: 25 },
                    GradientStop { color: Color::new(0xff778899), offset: 100 },
                ]
            );
        }
        other => panic!("expected a linear gradient fill, got {:?}", other),
    }
}

#[test]
fn clear_fills_then_add_yields_exactly_the_new_fill() {
    let mut shape = any_shape();
    shape.add_fill(Fill::Solid(Color::new(1)));
    shape.add_fill(Fill::Solid(Color::new(2)));
    shape.add_fill(Fill::new_image_fill(
        from_quartet(9, 9, 9, 9),
        255,
        16.0f32.to_bits(),
        16.0f32.to_bits(),
    ));
    assert_eq!(shape.fills.len(), 3);

    shape.clear_fills();
    shape.add_fill(Fill::Solid(Color::new(0xAABBCCDD)));
    assert_eq!(shape.fills.len(), 1);
    assert_eq!(shape.fills.get(0), Some(&Fill::Solid(Color::new(0xAABBCCDD))));
}

#[test]
fn color_from_argb_packs_channels() {
    let c = Color::from_argb(0xAA, 0xBB, 0xCC, 0xDD);
    assert_eq!(c.argb, 0xAABBCCDD);
    assert_eq!(Color::from_argb(0, 0, 0, 0).argb, 0);
    assert_eq!(Color::from_argb(0xFF, 0xFF, 0xFF, 0xFF).argb, 0xFFFFFFFF);
}

#[test]
fn new_shape_has_documented_defaults() {
    let id = from_quartet(1, 2, 3, 4);
    let shape = Shape::new(id);
    assert_eq!(shape.id, id);
    assert!(shape.children.is_empty());
    assert!(shape.fills.is_empty());
    assert_eq!(shape.transform, Matrix::identity());
    assert_eq!(shape.rotation, 0);
    assert_eq!(shape.opacity, 1.0f32.to_bits());
    assert_eq!(shape.selrect.left, 0);
    assert_eq!(shape.selrect.right, 0);
}
