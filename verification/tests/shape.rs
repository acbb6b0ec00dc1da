use shapes::{Clr, Dim, Len, Op, Prim, Shp};
use std::sync::Arc;

const NIL: f32 = 0.0;
const OVAL: f32 = 1.0;
const ARCH: f32 = 2.0;
const RECT: f32 = 3.0;
const TRIA: f32 = 4.0;
const FILL: f32 = 10.0;
const UNION: f32 = 12.0;

/// The stream as the single-precision numbers its bit patterns stand for.
fn floats(stream: Vec<u32>) -> Vec<f32> {
    stream.into_iter().map(f32::from_bits).collect()
}

#[test]
fn primitives() {
    let size = 0.5_f32;
    let circle = Shp::circ(size.to_bits());
    assert_eq!(
        circle,
        Shp::Pr(Prim::Oval(Dim(Len(size.to_bits()), Len(size.to_bits()))))
    );
    assert_eq!(circle.size(), 1);
    assert_eq!(floats(circle.to_float_vector()), vec![OVAL, size, size]);

    let width = 1.0_f32;
    let height = 0.5_f32;
    let oval = Shp::oval([width.to_bits(), height.to_bits()]);
    assert_eq!(
        oval,
        Shp::Pr(Prim::Oval(Dim(Len(width.to_bits()), Len(height.to_bits()))))
    );
    assert_eq!(oval.size(), 1);
    assert_eq!(floats(oval.to_float_vector()), vec![OVAL, width, height]);

    let arch = Shp::arch([width.to_bits(), height.to_bits()]);
    assert_eq!(
        arch,
        Shp::Pr(Prim::Arch(Dim(Len(width.to_bits()), Len(height.to_bits()))))
    );
    assert_eq!(arch.size(), 1);
    assert_eq!(floats(arch.to_float_vector()), vec![ARCH, width, height]);

    let square = Shp::squa(size.to_bits());
    assert_eq!(
        square,
        Shp::Pr(Prim::Rect(Dim(Len(size.to_bits()), Len(size.to_bits()))))
    );
    assert_eq!(square.size(), 1);
    assert_eq!(floats(square.to_float_vector()), vec![RECT, size, size]);

    let triangle = Shp::tria([width.to_bits(), height.to_bits()]);
    assert_eq!(
        triangle,
        Shp::Pr(Prim::Tria(Dim(Len(width.to_bits()), Len(height.to_bits()))))
    );
    assert_eq!(triangle.size(), 1);
    assert_eq!(floats(triangle.to_float_vector()), vec![TRIA, width, height]);
}

#[test]
fn operations_on_primitives() {
    let width = 0.5_f32;
    let height = 1.0_f32;
    let oval = Shp::oval([width.to_bits(), height.to_bits()]);
    let rectangle = Shp::rect([width.to_bits(), height.to_bits()]);

    let union = Shp::union(vec![oval.clone(), rectangle.clone()]);

    assert_eq!(union, Shp::Op(Arc::new(Op::Union(vec![oval, rectangle]))));
    assert_eq!(union.size(), 3);
    assert_eq!(
        floats(union.to_float_vector()),
        vec![UNION, 1.0, 0.0, OVAL, width, height, RECT, width, height, UNION, 0.0, 0.0]
    );
}

#[test]
fn fill_operations() {
    // The caller converts its floating-point channels to 8-bit ones at the
    // boundary, clamping to the unit interval.
    let channels = [1.0_f32, 0.5_f32, 0.0_f32];
    let clamped = channels.map(|c| if c > 1.0 { 1.0 } else { c });
    let bytes = clamped.map(|c| (c * u8::MAX as f32) as u8);
    let circle = Shp::circ(0.5_f32.to_bits()).fill(bytes);
    let r = u8::MAX;
    let g = u8::MAX / 2;
    let b = 0;

    assert_eq!(
        circle,
        Shp::Op(Arc::new(Op::Fill(
            Clr(r, g, b),
            Shp::Pr(Prim::Oval(Dim(
                Len(0.5_f32.to_bits()),
                Len(0.5_f32.to_bits())
            )))
        )))
    );

    assert_eq!(
        floats(circle.to_float_vector()),
        vec![FILL, 0xFF7F00 as f32, 0.0, OVAL, 0.5, 0.5]
    );
}

#[test]
fn nil_stream() {
    let empty = Shp::nil();
    assert_eq!(empty, Shp::Pr(Prim::Nil));
    assert_eq!(empty.size(), 1);
    assert_eq!(floats(empty.to_float_vector()), vec![NIL, 0.0, 0.0]);
}

#[test]
fn circle_equals_oval_and_square_equals_rectangle() {
    let r = 0.75_f32;
    let circle = Shp::circ(r.to_bits());
    let oval = Shp::oval((r.to_bits(), r.to_bits()));
    assert_eq!(circle, oval);
    assert_eq!(circle.to_float_vector(), oval.to_float_vector());

    let square = Shp::squa(r.to_bits());
    let rectangle = Shp::rect((r.to_bits(), r.to_bits()));
    assert_eq!(square, rectangle);
    assert_eq!(square.to_float_vector(), rectangle.to_float_vector());
}

#[test]
fn clone_equals_source() {
    let shape = Shp::union(vec![
        Shp::circ(0.25_f32.to_bits()).fill((9, 8, 7)),
        Shp::tria([2.0_f32.to_bits(), 3.0_f32.to_bits()])
            .trans((1.5_f32.to_bits(), 2.5_f32.to_bits())),
    ]);
    let copy = shape.clone();
    assert_eq!(copy, shape);
    assert_eq!(copy.size(), shape.size());
    assert_eq!(copy.to_float_vector(), shape.to_float_vector());
}

#[test]
fn equal_trees_built_independently() {
    let a = Shp::circ(0.5_f32.to_bits()).compl();
    let b = Shp::oval((0.5_f32.to_bits(), 0.5_f32.to_bits())).compl();
    assert_eq!(a, b);

    let c = Shp::circ(0.5_f32.to_bits()).compl().compl();
    assert_ne!(a, c);
    assert_ne!(a, Shp::nil());
}
