//! Immutable 2-D shape trees and their flat stream encoding.
//!
//! A shape is an expression tree: a primitive leaf, or an operation over
//! child shapes. Composing shapes shares subtrees behind reference counts
//! and never mutates. The encoder walks the tree depth-first and emits one
//! instruction triple per node — an opcode and two argument slots — with a
//! start and an end marker bracketing the children of a variadic node.
//! Every slot is the bit pattern of an IEEE-754 single-precision number;
//! geometric payloads enter and leave as such bit patterns, and the
//! library never performs floating-point arithmetic on them.

pub mod floatbits;
pub mod model;
pub mod repr;
pub mod units;

pub use units::{Clr, Dim, Dlt, Len, Pos, Rad, Rot, Scl, Vel};
pub use units::{ToClr, ToDim, ToDlt, ToLen, ToPos, ToRot, ToScl};

use floatbits::{float_bits, float_bits_of};
use model::{bracket_count, enc, enc_list, instr, lemma_enc_len, lemma_enc_list_take_step,
    lemma_size_sum_take_le, lemma_size_sum_take_step, pack_color, size_of, size_sum, Model};
use repr::{ARCH, COMPL, FILL, INTER, NIL, ORIGI, OUTL, OVAL, RECT, ROTAT, SCALE, TRANS, TRIA,
    UNION};
use std::sync::Arc;
use vstd::prelude::*;

verus! {

/// A 2-D shape: either a primitive leaf or an operation applied to one or
/// more child shapes. Operation nodes sit behind a shared, reference-counted
/// allocation, so cloning a shape never copies a subtree; composing shapes
/// never mutates an existing tree.
#[derive(Debug)]
pub enum Shp {
    Pr(Prim),
    Op(Arc<Op>),
}

/// A primitive leaf shape. All but `Nil` carry their width and height.
#[derive(Debug, Clone, Copy, PartialEq, Eq, Structural)]
pub enum Prim {
    Nil,
    Oval(Dim),
    Arch(Dim),
    Rect(Dim),
    Tria(Dim),
}

/// An operation node combining one or more child shapes.
#[derive(Debug, Clone, PartialEq)]
pub enum Op {
    Trans(Dlt<Pos>, Shp),
    Rotat(Dlt<Rot>, Shp),
    Origi(Dlt<Pos>, Shp),
    Scale(Dlt<Scl>, Shp),
    Compl(Shp),
    Fill(Clr, Shp),
    Outl(Len, Shp),
    Union(Vec<Shp>),
    Inter(Vec<Shp>),
}

impl Prim {
    /// The tree this primitive stands for.
    pub open spec fn model(self) -> Model {
        match self {
            Prim::Nil => Model::Nil,
            Prim::Oval(d) => Model::Oval(d),
            Prim::Arch(d) => Model::Arch(d),
            Prim::Rect(d) => Model::Rect(d),
            Prim::Tria(d) => Model::Tria(d),
        }
    }
}

impl Op {
    /// The tree this operation node stands for.
    pub open spec fn model(self) -> Model
        decreases self,
    {
        match self {
            Op::Trans(d, c) => Model::Trans(d, Box::new(c.model())),
            Op::Rotat(d, c) => Model::Rotat(d, Box::new(c.model())),
            Op::Origi(d, c) => Model::Origi(d, Box::new(c.model())),
            Op::Scale(d, c) => Model::Scale(d, Box::new(c.model())),
            Op::Compl(c) => Model::Compl(Box::new(c.model())),
            Op::Fill(clr, c) => Model::Fill(clr, Box::new(c.model())),
            Op::Outl(l, c) => Model::Outl(l, Box::new(c.model())),
            Op::Union(v) => Model::Union(models_of(v@)),
            Op::Inter(v) => Model::Inter(models_of(v@)),
        }
    }
}

impl Shp {
    /// The tree this shape stands for: sharing is invisible in the model.
    pub open spec fn model(self) -> Model
        decreases self,
    {
        match self {
            Shp::Pr(p) => p.model(),
            Shp::Op(o) => (*o).model(),
        }
    }
}

/// The trees a list of shapes stands for, in order.
pub open spec fn models_of(v: Seq<Shp>) -> Seq<Model>
    decreases v,
{
    if v.len() == 0 {
        Seq::empty()
    } else {
        models_of(v.drop_last()).push(v.last().model())
    }
}

impl View for Shp {
    type V = Model;

    open spec fn view(&self) -> Model {
        self.model()
    }
}

/// A shape list models element by element.
pub proof fn lemma_models_of_len(v: Seq<Shp>)
    ensures
        models_of(v).len() == v.len(),
    decreases v,
{
    if v.len() > 0 {
        lemma_models_of_len(v.drop_last());
    }
}

/// The model of the i-th shape is the i-th model.
pub proof fn lemma_models_of_index(v: Seq<Shp>, i: int)
    requires
        0 <= i < v.len(),
    ensures
        models_of(v).len() == v.len(),
        models_of(v)[i] == v[i]@,
    decreases v,
{
    lemma_models_of_len(v);
    if i < v.len() - 1 {
        lemma_models_of_index(v.drop_last(), i);
    }
}

impl Shp {
    /// The empty shape.
    pub fn nil() -> (r: Self)
        ensures
            r@ == Model::Nil,
    {
        Shp::Pr(Prim::Nil)
    }

    /// A circle: an oval of equal width and height.
    pub fn circ<T: ToLen>(len: T) -> (r: Self)
        ensures
            r@ == Model::Oval(Dim(len.to_len_spec(), len.to_len_spec())),
    {
        let len = len.to_len();
        Shp::Pr(Prim::Oval(Dim(len, len)))
    }

    /// An oval of the given dimensions.
    pub fn oval<T: ToDim>(dim: T) -> (r: Self)
        ensures
            r@ == Model::Oval(dim.to_dim_spec()),
    {
        Shp::Pr(Prim::Oval(dim.to_dim()))
    }

    /// An arch of the given dimensions.
    pub fn arch<T: ToDim>(dim: T) -> (r: Self)
        ensures
            r@ == Model::Arch(dim.to_dim_spec()),
    {
        Shp::Pr(Prim::Arch(dim.to_dim()))
    }

    /// A square: a rectangle of equal width and height.
    pub fn squa<T: ToLen>(len: T) -> (r: Self)
        ensures
            r@ == Model::Rect(Dim(len.to_len_spec(), len.to_len_spec())),
    {
        let len = len.to_len();
        Shp::Pr(Prim::Rect(Dim(len, len)))
    }

    /// A rectangle of the given dimensions.
    pub fn rect<T: ToDim>(dim: T) -> (r: Self)
        ensures
            r@ == Model::Rect(dim.to_dim_spec()),
    {
        Shp::Pr(Prim::Rect(dim.to_dim()))
    }

    /// A triangle of the given dimensions.
    pub fn tria<T: ToDim>(dim: T) -> (r: Self)
        ensures
            r@ == Model::Tria(dim.to_dim_spec()),
    {
        Shp::Pr(Prim::Tria(dim.to_dim()))
    }

    /// Wraps this shape in a translation by the given delta.
    pub fn trans<T: ToDlt<Pos>>(self, trn: T) -> (r: Self)
        ensures
            r@ == Model::Trans(trn.to_delta_spec(), Box::new(self@)),
    {
        let trn = trn.to_delta();
        Shp::Op(Arc::new(Op::Trans(trn, self)))
    }

    /// Wraps this shape in a rotation by the given delta.
    pub fn rotat<T: ToDlt<Rot>>(self, rot: T) -> (r: Self)
        ensures
            r@ == Model::Rotat(rot.to_delta_spec(), Box::new(self@)),
    {
        let rot = rot.to_delta();
        Shp::Op(Arc::new(Op::Rotat(rot, self)))
    }

    /// Wraps this shape in a shift of its local origin.
    pub fn origi<T: ToDlt<Pos>>(self, origin_trn: T) -> (r: Self)
        ensures
            r@ == Model::Origi(origin_trn.to_delta_spec(), Box::new(self@)),
    {
        let origin_trn = origin_trn.to_delta();
        Shp::Op(Arc::new(Op::Origi(origin_trn, self)))
    }

    /// Wraps this shape in a scaling by the given delta.
    pub fn scale<T: ToDlt<Scl>>(self, scale: T) -> (r: Self)
        ensures
            r@ == Model::Scale(scale.to_delta_spec(), Box::new(self@)),
    {
        let scale = scale.to_delta();
        Shp::Op(Arc::new(Op::Scale(scale, self)))
    }

    /// The union of the given shapes, in order; the list may be empty.
    pub fn union(shapes: Vec<Shp>) -> (r: Self)
        ensures
            r@ == Model::Union(models_of(shapes@)),
    {
        Shp::Op(Arc::new(Op::Union(shapes)))
    }

    /// The intersection of the given shapes, in order; the list may be empty.
    pub fn inter(shapes: Vec<Shp>) -> (r: Self)
        ensures
            r@ == Model::Inter(models_of(shapes@)),
    {
        Shp::Op(Arc::new(Op::Inter(shapes)))
    }

    /// Wraps this shape in its complement.
    pub fn compl(self) -> (r: Self)
        ensures
            r@ == Model::Compl(Box::new(self@)),
    {
        Shp::Op(Arc::new(Op::Compl(self)))
    }

    /// Wraps this shape in a fill with the given color.
    pub fn fill<T: ToClr>(self, color: T) -> (r: Self)
        ensures
            r@ == Model::Fill(color.to_clr_spec(), Box::new(self@)),
    {
        let color = color.to_clr();
        Shp::Op(Arc::new(Op::Fill(color, self)))
    }

    /// Wraps this shape in an outline of the given width.
    pub fn outl<T: ToLen>(self, width: T) -> (r: Self)
        ensures
            r@ == Model::Outl(width.to_len_spec(), Box::new(self@)),
    {
        let width = width.to_len();
        Shp::Op(Arc::new(Op::Outl(width, self)))
    }

    /// The total node count: one for this node plus, for an operation,
    /// the counts of all its children.
    pub fn size(&self) -> (r: usize)
        requires
            size_of(self@) <= usize::MAX,
        ensures
            r == size_of(self@),
        decreases *self,
    {
        match self {
            Shp::Pr(_) => 1,
            Shp::Op(operation) => {
                let sub: usize = match &**operation {
                    Op::Union(shapes) | Op::Inter(shapes) => Self::size_list(shapes),
                    Op::Trans(_, shape)
                    | Op::Rotat(_, shape)
                    | Op::Origi(_, shape)
                    | Op::Scale(_, shape)
                    | Op::Compl(shape)
                    | Op::Fill(_, shape)
                    | Op::Outl(_, shape) => shape.size(),
                };
                1 + sub
            },
        }
    }

    /// The summed node count of a child list.
    fn size_list(shapes: &Vec<Shp>) -> (r: usize)
        requires
            size_sum(models_of(shapes@)) <= usize::MAX,
        ensures
            r == size_sum(models_of(shapes@)),
        decreases shapes@,
    {
        let ghost ms = models_of(shapes@);
        proof {
            lemma_models_of_len(shapes@);
        }
        let mut size: usize = 0;
        let n: usize = shapes.len();
        let mut i: usize = 0;
        while i < n
            invariant
                i <= n,
                n == shapes@.len(),
                ms == models_of(shapes@),
                ms.len() == n,
                size == size_sum(ms.take(i as int)),
                size_sum(ms) <= usize::MAX,
            decreases n - i,
        {
            proof {
                lemma_models_of_index(shapes@, i as int);
                lemma_size_sum_take_step(ms, i as int);
                lemma_size_sum_take_le(ms, i as int + 1);
            }
            size = size + shapes[i].size();
            i = i + 1;
        }
        proof {
            assert(ms.take(n as int) =~= ms);
        }
        size
    }

    /// Encodes this tree as a flat stream of instruction triples, each an
    /// opcode and two arguments, every slot the bit pattern of a
    /// single-precision number. The capacity hint covers one triple per
    /// node; variadic nodes add their closing marker beyond it.
    pub fn to_float_vector(&self) -> (r: Vec<u32>)
        requires
            3 * size_of(self@) <= usize::MAX,
        ensures
            r@ == enc(self@),
            r@.len() == 3 * (size_of(self@) + bracket_count(self@)),
    {
        let mut floats = Vec::with_capacity(self.size() * 3);
        self.add_to_float_vector(&mut floats);
        proof {
            assert(floats@ =~= enc(self@));
            lemma_enc_len(self@);
        }
        floats
    }

    /// Appends the encoding of this tree to `floats`.
    fn add_to_float_vector(&self, floats: &mut Vec<u32>)
        ensures
            final(floats)@ == old(floats)@ + enc(self@),
        decreases *self,
    {
        match self {
            Shp::Pr(primitive) => {
                floats.push(
                    float_bits(
                        match primitive {
                            Prim::Nil => NIL,
                            Prim::Arch(_) => ARCH,
                            Prim::Oval(_) => OVAL,
                            Prim::Rect(_) => RECT,
                            Prim::Tria(_) => TRIA,
                        },
                    ),
                );
                match primitive {
                    Prim::Nil => {
                        floats.push(0);
                        floats.push(0);
                    },
                    Prim::Arch(dim) | Prim::Oval(dim) | Prim::Rect(dim) | Prim::Tria(dim) => {
                        let Dim(Len(width), Len(height)) = dim;
                        floats.push(*width);
                        floats.push(*height);
                    },
                }
                proof {
                    assert(floats@ =~= old(floats)@ + enc(self@));
                }
            },
            Shp::Op(operation) => {
                match &**operation {
                    Op::Union(shapes) => {
                        // The second slot distinguishes the start marker
                        // (one) from the end marker (zero).
                        Self::push_instr(floats, UNION, float_bits(1), 0);
                        Self::add_children(shapes, floats);
                        Self::push_instr(floats, UNION, 0, 0);
                        proof {
                            assert(floats@ =~= old(floats)@ + enc(self@));
                        }
                    },
                    Op::Inter(shapes) => {
                        Self::push_instr(floats, INTER, float_bits(1), 0);
                        Self::add_children(shapes, floats);
                        Self::push_instr(floats, INTER, 0, 0);
                        proof {
                            assert(floats@ =~= old(floats)@ + enc(self@));
                        }
                    },
                    Op::Trans(translation, shape) => {
                        let Dlt(Pos(dx, dy)) = translation;
                        Self::push_instr(floats, TRANS, *dx, *dy);
                        shape.add_to_float_vector(floats);
                        proof {
                            assert(floats@ =~= old(floats)@ + enc(self@));
                        }
                    },
                    Op::Rotat(rotation, shape) => {
                        let Dlt(Rot(rotation)) = rotation;
                        Self::push_instr(floats, ROTAT, *rotation, 0);
                        shape.add_to_float_vector(floats);
                        proof {
                            assert(floats@ =~= old(floats)@ + enc(self@));
                        }
                    },
                    Op::Origi(origin, shape) => {
                        let Dlt(Pos(x, y)) = origin;
                        Self::push_instr(floats, ORIGI, *x, *y);
                        shape.add_to_float_vector(floats);
                        proof {
                            assert(floats@ =~= old(floats)@ + enc(self@));
                        }
                    },
                    Op::Scale(scaling, shape) => {
                        let Dlt(Scl(scale)) = scaling;
                        Self::push_instr(floats, SCALE, *scale, 0);
                        shape.add_to_float_vector(floats);
                        proof {
                            assert(floats@ =~= old(floats)@ + enc(self@));
                        }
                    },
                    Op::Compl(shape) => {
                        Self::push_instr(floats, COMPL, 0, 0);
                        shape.add_to_float_vector(floats);
                        proof {
                            assert(floats@ =~= old(floats)@ + enc(self@));
                        }
                    },
                    Op::Fill(color, shape) => {
                        Self::push_instr(floats, FILL, Self::pack_color_to_float(color), 0);
                        shape.add_to_float_vector(floats);
                        proof {
                            assert(floats@ =~= old(floats)@ + enc(self@));
                        }
                    },
                    Op::Outl(outline, shape) => {
                        let Len(width) = outline;
                        Self::push_instr(floats, OUTL, *width, 0);
                        shape.add_to_float_vector(floats);
                        proof {
                            assert(floats@ =~= old(floats)@ + enc(self@));
                        }
                    },
                }
            },
        }
    }

    /// Appends the encodings of all children of a variadic node,
    /// in list order.
    fn add_children(shapes: &Vec<Shp>, floats: &mut Vec<u32>)
        ensures
            final(floats)@ == old(floats)@ + enc_list(models_of(shapes@)),
        decreases shapes@,
    {
        let ghost ms = models_of(shapes@);
        proof {
            lemma_models_of_len(shapes@);
        }
        let n: usize = shapes.len();
        let mut i: usize = 0;
        while i < n
            invariant
                i <= n,
                n == shapes@.len(),
                ms == models_of(shapes@),
                ms.len() == n,
                floats@ == old(floats)@ + enc_list(ms.take(i as int)),
            decreases n - i,
        {
            proof {
                lemma_models_of_index(shapes@, i as int);
                lemma_enc_list_take_step(ms, i as int);
            }
            shapes[i].add_to_float_vector(floats);
            proof {
                assert(floats@ =~= old(floats)@ + enc_list(ms.take(i as int + 1)));
            }
            i = i + 1;
        }
        proof {
            assert(ms.take(n as int) =~= ms);
        }
    }

    /// Appends one instruction triple: the opcode's bit pattern and the two
    /// argument slots as given.
    fn push_instr(floats: &mut Vec<u32>, instruction: u32, arg1: u32, arg2: u32)
        requires
            instruction < 0x1000000,
        ensures
            final(floats)@ == old(floats)@ + instr(instruction, arg1, arg2),
    {
        floats.push(float_bits(instruction));
        floats.push(arg1);
        floats.push(arg2);
        proof {
            assert(floats@ =~= old(floats)@ + instr(instruction, arg1, arg2));
        }
    }

    /// The packed form of a fill color, as the bit pattern of the
    /// single-precision number with that integer value: red in bits 16..24,
    /// green in bits 8..16, blue in bits 0..8.
    fn pack_color_to_float(color: &Clr) -> (r: u32)
        ensures
            r == float_bits_of(pack_color(*color)),
    {
        let r = (color.0 as u32) * 0x10000;
        let g = (color.1 as u32) * 0x100;
        let b = color.2 as u32;
        let packed_color = r + g + b;
        float_bits(packed_color)
    }

    /// Deep structural equality of two shapes: equal trees and payloads,
    /// whether or not any storage is shared.
    fn eq_tree(a: &Shp, b: &Shp) -> (r: bool)
        ensures
            r == (a@ == b@),
        decreases *a,
    {
        match (a, b) {
            (Shp::Pr(p), Shp::Pr(q)) => p == q,
            (Shp::Op(x), Shp::Op(y)) => Self::eq_op(&**x, &**y),
            _ => false,
        }
    }

    /// Deep structural equality of two operation nodes.
    fn eq_op(x: &Op, y: &Op) -> (r: bool)
        ensures
            r == (x.model() == y.model()),
        decreases *x,
    {
        match (x, y) {
            (Op::Trans(d1, c1), Op::Trans(d2, c2)) => d1 == d2 && Self::eq_tree(c1, c2),
            (Op::Rotat(d1, c1), Op::Rotat(d2, c2)) => d1 == d2 && Self::eq_tree(c1, c2),
            (Op::Origi(d1, c1), Op::Origi(d2, c2)) => d1 == d2 && Self::eq_tree(c1, c2),
            (Op::Scale(d1, c1), Op::Scale(d2, c2)) => d1 == d2 && Self::eq_tree(c1, c2),
            (Op::Compl(c1), Op::Compl(c2)) => Self::eq_tree(c1, c2),
            (Op::Fill(k1, c1), Op::Fill(k2, c2)) => k1 == k2 && Self::eq_tree(c1, c2),
            (Op::Outl(l1, c1), Op::Outl(l2, c2)) => l1 == l2 && Self::eq_tree(c1, c2),
            (Op::Union(v1), Op::Union(v2)) => Self::eq_list(v1, v2),
            (Op::Inter(v1), Op::Inter(v2)) => Self::eq_list(v1, v2),
            _ => false,
        }
    }

    /// Deep structural equality of two child lists: equal lengths and
    /// equal trees position by position.
    fn eq_list(v1: &Vec<Shp>, v2: &Vec<Shp>) -> (r: bool)
        ensures
            r == (models_of(v1@) == models_of(v2@)),
        decreases v1@,
    {
        let ghost ms1 = models_of(v1@);
        let ghost ms2 = models_of(v2@);
        proof {
            lemma_models_of_len(v1@);
            lemma_models_of_len(v2@);
        }
        let n: usize = v1.len();
        if n != v2.len() {
            return false;
        }
        let mut i: usize = 0;
        while i < n
            invariant
                i <= n,
                n == v1@.len(),
                n == v2@.len(),
                ms1 == models_of(v1@),
                ms2 == models_of(v2@),
                ms1.len() == n,
                ms2.len() == n,
                forall|j: int| 0 <= j < i ==> ms1[j] == ms2[j],
            decreases n - i,
        {
            proof {
                lemma_models_of_index(v1@, i as int);
                lemma_models_of_index(v2@, i as int);
            }
            if !Self::eq_tree(&v1[i], &v2[i]) {
                return false;
            }
            i = i + 1;
        }
        proof {
            assert(ms1 =~= ms2);
        }
        true
    }
}

/// Relies on Arc::clone: the returned reference counts the same immutable
/// allocation, so it carries the same value.
#[verifier::external_body]
fn arc_clone(a: &Arc<Op>) -> (r: Arc<Op>)
    ensures
        r == *a,
{
    Arc::clone(a)
}

// Cloning duplicates only the top of the tree: a primitive is copied by
// value, and for an operation node only the reference count moves.
impl Clone for Shp {
    /// The clone stands for the very same tree.
    fn clone(&self) -> (r: Self)
        ensures
            r@ == self@,
    {
        match self {
            Shp::Pr(primitive) => Shp::Pr(*primitive),
            Shp::Op(shape_arc) => Shp::Op(arc_clone(shape_arc)),
        }
    }
}

// Two shapes are equal when their trees and payloads are equal: deep
// structural equality, not reference identity. Two independently built
// identical trees compare equal.
impl PartialEq for Shp {
    fn eq(&self, other: &Shp) -> (r: bool) {
        Self::eq_tree(self, other)
    }
}

impl vstd::std_specs::cmp::PartialEqSpecImpl for Shp {
    open spec fn obeys_eq_spec() -> bool {
        true
    }

    open spec fn eq_spec(&self, other: &Shp) -> bool {
        self@ == other@
    }
}

/// Two shapes standing for the same tree compare equal, share or not: in
/// particular a clone, or an independently built identical tree, equals
/// its source both structurally and by encoded stream.
pub proof fn lemma_same_tree_eq(a: Shp, b: Shp)
    requires
        a@ == b@,
    ensures
        vstd::std_specs::cmp::PartialEqSpec::eq_spec(&a, &b),
        enc(a@) == enc(b@),
{
}

/// A circle is the oval of equal width and height, and a square that
/// rectangle: each pair is structurally equal with identical streams.
/// The views written here are what `circ`/`oval` and `squa`/`rect` return
/// on one length.
pub proof fn lemma_symmetric_builders(c: Shp, o: Shp, s: Shp, r: Shp, l: Len)
    requires
        c@ == Model::Oval(Dim(l, l)),
        o@ == Model::Oval(Dim(l, l)),
        s@ == Model::Rect(Dim(l, l)),
        r@ == Model::Rect(Dim(l, l)),
    ensures
        vstd::std_specs::cmp::PartialEqSpec::eq_spec(&c, &o),
        vstd::std_specs::cmp::PartialEqSpec::eq_spec(&s, &r),
        enc(c@) == enc(o@),
        enc(s@) == enc(r@),
{
}

} // verus!
