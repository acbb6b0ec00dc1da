use shapes::{Dlt, Pos, Rot, Scl, Shp, ToClr, ToDim, ToLen, ToPos};

const OVAL: f32 = 1.0;
const TRANS: f32 = 5.0;
const ROTAT: f32 = 6.0;
const ORIGI: f32 = 7.0;
const SCALE: f32 = 8.0;
const COMPL: f32 = 9.0;
const FILL: f32 = 10.0;
const OUTL: f32 = 11.0;
const UNION: f32 = 12.0;
const INTER: f32 = 13.0;

/// The stream as the single-precision numbers its bit patterns stand for.
fn floats(stream: Vec<u32>) -> Vec<f32> {
    stream.into_iter().map(f32::from_bits).collect()
}

#[test]
fn empty_union() {
    let union = Shp::union(vec![]);
    assert_eq!(union.size(), 1);
    assert_eq!(
        floats(union.to_float_vector()),
        vec![UNION, 1.0, 0.0, UNION, 0.0, 0.0]
    );
}

#[test]
fn empty_intersection() {
    let inter = Shp::inter(vec![]);
    assert_eq!(inter.size(), 1);
    assert_eq!(
        floats(inter.to_float_vector()),
        vec![INTER, 1.0, 0.0, INTER, 0.0, 0.0]
    );
}

#[test]
fn union_size_is_one_plus_children() {
    let children = vec![
        Shp::circ(0.5_f32.to_bits()),
        Shp::union(vec![Shp::nil(), Shp::nil()]),
        Shp::rect((2.0_f32.to_bits(), 4.0_f32.to_bits())).compl(),
    ];
    let sizes: usize = children.iter().map(Shp::size).sum();
    let union = Shp::union(children);
    assert_eq!(union.size(), 1 + sizes);
    assert_eq!(union.size(), 7);
}

#[test]
fn union_stream_concatenates_children() {
    let a = Shp::circ(0.5_f32.to_bits());
    let b = Shp::tria((2.0_f32.to_bits(), 4.0_f32.to_bits()));
    let mut expected = vec![UNION, 1.0, 0.0];
    expected.extend(floats(a.to_float_vector()));
    expected.extend(floats(b.to_float_vector()));
    expected.extend([UNION, 0.0, 0.0]);
    let union = Shp::union(vec![a, b]);
    assert_eq!(floats(union.to_float_vector()), expected);
}

#[test]
fn nested_unions_bracket_properly() {
    let inner = Shp::union(vec![Shp::circ(0.5_f32.to_bits())]);
    let outer = Shp::union(vec![inner]);
    assert_eq!(outer.size(), 3);
    assert_eq!(
        floats(outer.to_float_vector()),
        vec![
            UNION, 1.0, 0.0, UNION, 1.0, 0.0, OVAL, 0.5, 0.5, UNION, 0.0, 0.0, UNION, 0.0, 0.0
        ]
    );
}

#[test]
fn unary_operation_streams() {
    let r = 0.5_f32;
    let base = || Shp::circ(r.to_bits());
    let prim = vec![OVAL, r, r];

    let translated = base().trans((1.5_f32.to_bits(), 2.5_f32.to_bits()));
    assert_eq!(translated.size(), 2);
    let mut expected = vec![TRANS, 1.5, 2.5];
    expected.extend(&prim);
    assert_eq!(floats(translated.to_float_vector()), expected);

    let rotated = base().rotat(0.25_f32.to_bits());
    let mut expected = vec![ROTAT, 0.25, 0.0];
    expected.extend(&prim);
    assert_eq!(floats(rotated.to_float_vector()), expected);

    let moved = base().origi((3.0_f32.to_bits(), 4.0_f32.to_bits()));
    let mut expected = vec![ORIGI, 3.0, 4.0];
    expected.extend(&prim);
    assert_eq!(floats(moved.to_float_vector()), expected);

    let scaled = base().scale(2.0_f32.to_bits());
    let mut expected = vec![SCALE, 2.0, 0.0];
    expected.extend(&prim);
    assert_eq!(floats(scaled.to_float_vector()), expected);

    let complemented = base().compl();
    let mut expected = vec![COMPL, 0.0, 0.0];
    expected.extend(&prim);
    assert_eq!(floats(complemented.to_float_vector()), expected);

    let outlined = base().outl(0.125_f32.to_bits());
    let mut expected = vec![OUTL, 0.125, 0.0];
    expected.extend(&prim);
    assert_eq!(floats(outlined.to_float_vector()), expected);
}

#[test]
fn fill_packs_channels_into_one_slot() {
    let shape = Shp::circ(1.0_f32.to_bits()).fill((0x12, 0x34, 0x56));
    let stream = floats(shape.to_float_vector());
    assert_eq!(stream[0], FILL);
    assert_eq!(stream[1], 0x123456 as f32);
    assert_eq!(stream[2], 0.0);

    let dark = Shp::circ(1.0_f32.to_bits()).fill((0, 0, 1));
    assert_eq!(floats(dark.to_float_vector())[1], 1.0);
}

#[test]
fn distinct_trees_distinct_streams() {
    let w = 0.5_f32.to_bits();
    let h = 1.0_f32.to_bits();
    let trees = vec![
        Shp::nil(),
        Shp::oval((w, h)),
        Shp::arch((w, h)),
        Shp::rect((w, h)),
        Shp::tria((w, h)),
        Shp::oval((h, w)),
        Shp::oval((w, h)).compl(),
        Shp::union(vec![Shp::oval((w, h))]),
        Shp::inter(vec![Shp::oval((w, h))]),
        Shp::union(vec![]),
    ];
    let streams: Vec<Vec<u32>> = trees.iter().map(Shp::to_float_vector).collect();
    for i in 0..streams.len() {
        for j in 0..streams.len() {
            if i != j {
                assert_ne!(streams[i], streams[j]);
            }
        }
    }
}

#[test]
fn odd_geometry_passes_through_unvalidated() {
    let w = -0.5_f32;
    let h = 0.0_f32;
    let oval = Shp::oval((w.to_bits(), h.to_bits()));
    assert_eq!(floats(oval.to_float_vector()), vec![OVAL, w, h]);

    let spun = Shp::circ(0.5_f32.to_bits()).rotat((-7.25_f32).to_bits());
    assert_eq!(
        floats(spun.to_float_vector()),
        vec![ROTAT, -7.25, 0.0, OVAL, 0.5, 0.5]
    );
}

#[test]
fn ergonomic_conversions() {
    let p = (1.0_f32.to_bits(), 2.0_f32.to_bits()).to_pos();
    assert_eq!(p, Pos(1.0_f32.to_bits(), 2.0_f32.to_bits()));
    assert_eq!(p.to_pos(), p);

    let d = [3.0_f32.to_bits(), 4.0_f32.to_bits()].to_dim();
    assert_eq!(d.to_dim(), d);

    let l = 5.0_f32.to_bits().to_len();
    assert_eq!(l.to_len(), l);
    assert_eq!(l.0, 5.0_f32.to_bits());

    let c = [7, 8, 9].to_clr();
    assert_eq!((7, 8, 9).to_clr(), c);

    let spin = Dlt::as_delta(Rot(0.5_f32.to_bits()));
    assert_eq!(spin, Dlt(Rot(0.5_f32.to_bits())));
    let grow = Dlt::as_delta(Scl(2.0_f32.to_bits()));
    assert_eq!(grow.0, Scl(2.0_f32.to_bits()));
}
