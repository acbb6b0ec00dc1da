use crate::floatbits::float_bits_of;
use crate::repr::{ARCH, COMPL, FILL, INTER, NIL, ORIGI, OUTL, OVAL, RECT, ROTAT, SCALE, TRANS,
    TRIA, UNION};
use crate::units::{Clr, Dim, Dlt, Len, Pos, Rot, Scl};
use vstd::prelude::*;

verus! {

// The mathematical model of a shape tree.
//
// `Model` is the pure counterpart of `Shp`: the same constructors, with
// child lists as sequences and no sharing. Every contract of the library
// speaks of shapes through this type, and the spec-level encoder below is
// the reference meaning of the stream.

/// A shape tree as a pure value: a primitive leaf, an operation applied to
/// one child, or a variadic operation over an ordered child sequence.
#[verifier::ext_equal]
pub enum Model {
    Nil,
    Oval(Dim),
    Arch(Dim),
    Rect(Dim),
    Tria(Dim),
    Trans(Dlt<Pos>, Box<Model>),
    Rotat(Dlt<Rot>, Box<Model>),
    Origi(Dlt<Pos>, Box<Model>),
    Scale(Dlt<Scl>, Box<Model>),
    Compl(Box<Model>),
    Fill(Clr, Box<Model>),
    Outl(Len, Box<Model>),
    Union(Seq<Model>),
    Inter(Seq<Model>),
}

impl Model {
    /// Whether this tree is a primitive leaf.
    pub open spec fn is_primitive(self) -> bool {
        match self {
            Model::Nil | Model::Oval(_) | Model::Arch(_) | Model::Rect(_) | Model::Tria(_) => true,
            _ => false,
        }
    }
}

/// The node count of a tree: one per primitive and per operation node.
pub open spec fn size_of(m: Model) -> nat
    decreases m,
{
    match m {
        Model::Nil => 1,
        Model::Oval(_) => 1,
        Model::Arch(_) => 1,
        Model::Rect(_) => 1,
        Model::Tria(_) => 1,
        Model::Trans(_, c) => 1 + size_of(*c),
        Model::Rotat(_, c) => 1 + size_of(*c),
        Model::Origi(_, c) => 1 + size_of(*c),
        Model::Scale(_, c) => 1 + size_of(*c),
        Model::Compl(c) => 1 + size_of(*c),
        Model::Fill(_, c) => 1 + size_of(*c),
        Model::Outl(_, c) => 1 + size_of(*c),
        Model::Union(cs) => 1 + size_sum(cs),
        Model::Inter(cs) => 1 + size_sum(cs),
    }
}

/// The summed node count of a child sequence.
pub open spec fn size_sum(cs: Seq<Model>) -> nat
    decreases cs,
{
    if cs.len() == 0 {
        0
    } else {
        size_sum(cs.drop_last()) + size_of(cs.last())
    }
}

/// One instruction triple of the stream: an opcode and two argument slots.
/// The opcode travels as the bit pattern of the single-precision number
/// with its value; the argument slots hold bit patterns as given.
pub open spec fn instr(code: u32, a1: u32, a2: u32) -> Seq<u32> {
    seq![float_bits_of(code as nat), a1, a2]
}

/// The packed form of a fill color: the red, green and blue channels as
/// the single integer with red in bits 16..24, green in bits 8..16 and
/// blue in bits 0..8.
pub open spec fn pack_color(c: Clr) -> nat {
    (c.0 as nat) * 0x10000 + (c.1 as nat) * 0x100 + (c.2 as nat)
}

/// The encoded stream of a tree: a pre-order walk emitting one instruction
/// triple per node, with a start and an end marker bracketing the children
/// of a variadic operation. The second slot of a marker tells start (the
/// number one) from end (zero); the opcode alone does not.
pub open spec fn enc(m: Model) -> Seq<u32>
    decreases m,
{
    match m {
        Model::Nil => instr(NIL, 0, 0),
        Model::Oval(d) => instr(OVAL, d.0.0, d.1.0),
        Model::Arch(d) => instr(ARCH, d.0.0, d.1.0),
        Model::Rect(d) => instr(RECT, d.0.0, d.1.0),
        Model::Tria(d) => instr(TRIA, d.0.0, d.1.0),
        Model::Trans(d, c) => instr(TRANS, d.0.0, d.0.1) + enc(*c),
        Model::Rotat(d, c) => instr(ROTAT, d.0.0, 0) + enc(*c),
        Model::Origi(d, c) => instr(ORIGI, d.0.0, d.0.1) + enc(*c),
        Model::Scale(d, c) => instr(SCALE, d.0.0, 0) + enc(*c),
        Model::Compl(c) => instr(COMPL, 0, 0) + enc(*c),
        Model::Fill(clr, c) => instr(FILL, float_bits_of(pack_color(clr)), 0) + enc(*c),
        Model::Outl(l, c) => instr(OUTL, l.0, 0) + enc(*c),
        Model::Union(cs) => instr(UNION, float_bits_of(1), 0) + enc_list(cs) + instr(UNION, 0, 0),
        Model::Inter(cs) => instr(INTER, float_bits_of(1), 0) + enc_list(cs) + instr(INTER, 0, 0),
    }
}

/// The concatenated streams of a child sequence, in order.
pub open spec fn enc_list(cs: Seq<Model>) -> Seq<u32>
    decreases cs,
{
    if cs.len() == 0 {
        Seq::empty()
    } else {
        enc_list(cs.drop_last()) + enc(cs.last())
    }
}

/// The number of variadic nodes in a tree. Each of them emits a second,
/// closing triple beyond the one its node count accounts for.
pub open spec fn bracket_count(m: Model) -> nat
    decreases m,
{
    match m {
        Model::Nil => 0,
        Model::Oval(_) => 0,
        Model::Arch(_) => 0,
        Model::Rect(_) => 0,
        Model::Tria(_) => 0,
        Model::Trans(_, c) => bracket_count(*c),
        Model::Rotat(_, c) => bracket_count(*c),
        Model::Origi(_, c) => bracket_count(*c),
        Model::Scale(_, c) => bracket_count(*c),
        Model::Compl(c) => bracket_count(*c),
        Model::Fill(_, c) => bracket_count(*c),
        Model::Outl(_, c) => bracket_count(*c),
        Model::Union(cs) => 1 + bracket_count_sum(cs),
        Model::Inter(cs) => 1 + bracket_count_sum(cs),
    }
}

/// The summed variadic-node count of a child sequence.
pub open spec fn bracket_count_sum(cs: Seq<Model>) -> nat
    decreases cs,
{
    if cs.len() == 0 {
        0
    } else {
        bracket_count_sum(cs.drop_last()) + bracket_count(cs.last())
    }
}

/// The summed node count of a prefix grows child by child.
pub proof fn lemma_size_sum_take_step(cs: Seq<Model>, i: int)
    requires
        0 <= i < cs.len(),
    ensures
        size_sum(cs.take(i + 1)) == size_sum(cs.take(i)) + size_of(cs[i]),
{
    assert(cs.take(i + 1).drop_last() =~= cs.take(i));
    assert(cs.take(i + 1).last() == cs[i]);
}

/// A prefix never counts more nodes than the whole sequence.
pub proof fn lemma_size_sum_take_le(cs: Seq<Model>, i: int)
    requires
        0 <= i <= cs.len(),
    ensures
        size_sum(cs.take(i)) <= size_sum(cs),
    decreases cs.len() - i,
{
    if i == cs.len() {
        assert(cs.take(i) =~= cs);
    } else {
        lemma_size_sum_take_step(cs, i);
        lemma_size_sum_take_le(cs, i + 1);
    }
}

/// The concatenated stream of a prefix grows child by child.
pub proof fn lemma_enc_list_take_step(cs: Seq<Model>, i: int)
    requires
        0 <= i < cs.len(),
    ensures
        enc_list(cs.take(i + 1)) == enc_list(cs.take(i)) + enc(cs[i]),
{
    assert(cs.take(i + 1).drop_last() =~= cs.take(i));
    assert(cs.take(i + 1).last() == cs[i]);
}

/// Every tree has at least one node.
pub proof fn lemma_size_pos(m: Model)
    ensures
        size_of(m) >= 1,
{
}

/// The exact stream length: three slots for every node, and three more for
/// the closing marker of every variadic node.
pub proof fn lemma_enc_len(m: Model)
    ensures
        enc(m).len() == 3 * (size_of(m) + bracket_count(m)),
    decreases m,
{
    match m {
        Model::Trans(_, c) => lemma_enc_len(*c),
        Model::Rotat(_, c) => lemma_enc_len(*c),
        Model::Origi(_, c) => lemma_enc_len(*c),
        Model::Scale(_, c) => lemma_enc_len(*c),
        Model::Compl(c) => lemma_enc_len(*c),
        Model::Fill(_, c) => lemma_enc_len(*c),
        Model::Outl(_, c) => lemma_enc_len(*c),
        Model::Union(cs) => lemma_enc_list_len(cs),
        Model::Inter(cs) => lemma_enc_list_len(cs),
        _ => {},
    }
}

/// The length of concatenated child streams, child by child.
pub proof fn lemma_enc_list_len(cs: Seq<Model>)
    ensures
        enc_list(cs).len() == 3 * (size_sum(cs) + bracket_count_sum(cs)),
    decreases cs,
{
    if cs.len() > 0 {
        lemma_enc_list_len(cs.drop_last());
        lemma_enc_len(cs.last());
    }
}

/// A primitive is a single node, and its stream is one triple: its opcode,
/// then its width and height, or two zero slots for the empty shape.
pub proof fn lemma_primitive_stream(m: Model)
    requires
        m.is_primitive(),
    ensures
        size_of(m) == 1,
        m == Model::Nil ==> enc(m) == instr(NIL, 0, 0),
        m matches Model::Oval(d) ==> enc(m) == instr(OVAL, d.0.0, d.1.0),
        m matches Model::Arch(d) ==> enc(m) == instr(ARCH, d.0.0, d.1.0),
        m matches Model::Rect(d) ==> enc(m) == instr(RECT, d.0.0, d.1.0),
        m matches Model::Tria(d) ==> enc(m) == instr(TRIA, d.0.0, d.1.0),
{
}

/// A variadic node adds one node to the summed count of its children, and
/// its stream is the bracketed concatenation of their streams in order.
pub proof fn lemma_variadic_stream(cs: Seq<Model>)
    ensures
        size_of(Model::Union(cs)) == 1 + size_sum(cs),
        size_of(Model::Inter(cs)) == 1 + size_sum(cs),
        enc(Model::Union(cs)) == instr(UNION, float_bits_of(1), 0) + enc_list(cs) + instr(
            UNION,
            0,
            0,
        ),
        enc(Model::Inter(cs)) == instr(INTER, float_bits_of(1), 0) + enc_list(cs) + instr(
            INTER,
            0,
            0,
        ),
{
}

/// Splitting a concatenation: equal concatenations with equally long
/// heads have equal heads and equal tails.
proof fn lemma_concat_split(x: Seq<u32>, y: Seq<u32>, s1: Seq<u32>, s2: Seq<u32>)
    requires
        x + s1 == y + s2,
        x.len() == y.len(),
    ensures
        x == y,
        s1 == s2,
{
    assert((x + s1).len() == x.len() + s1.len());
    assert((y + s2).len() == y.len() + s2.len());
    assert forall|i: int| 0 <= i < x.len() implies x[i] == y[i] by {
        assert((x + s1)[i] == x[i]);
        assert((y + s2)[i] == y[i]);
        assert((x + s1)[i] == (y + s2)[i]);
    }
    assert(x =~= y);
    assert forall|i: int| 0 <= i < s1.len() implies s1[i] == s2[i] by {
        assert((x + s1)[x.len() + i] == s1[i]);
        assert((y + s2)[y.len() + i] == s2[i]);
        assert((x + s1)[x.len() + i] == (y + s2)[y.len() + i]);
    }
    assert(s1 =~= s2);
}

/// The opcode of a tree's root node.
pub open spec fn head_code(m: Model) -> u32 {
    match m {
        Model::Nil => NIL,
        Model::Oval(_) => OVAL,
        Model::Arch(_) => ARCH,
        Model::Rect(_) => RECT,
        Model::Tria(_) => TRIA,
        Model::Trans(_, _) => TRANS,
        Model::Rotat(_, _) => ROTAT,
        Model::Origi(_, _) => ORIGI,
        Model::Scale(_, _) => SCALE,
        Model::Compl(_) => COMPL,
        Model::Fill(_, _) => FILL,
        Model::Outl(_, _) => OUTL,
        Model::Union(_) => UNION,
        Model::Inter(_) => INTER,
    }
}

/// A stream opens with its root's opcode, and a variadic root puts the
/// start mark, one, in the next slot — never the end mark, zero.
pub proof fn lemma_enc_head(m: Model)
    ensures
        enc(m).len() >= 3,
        enc(m)[0] == float_bits_of(head_code(m) as nat),
        head_code(m) <= 13,
        head_code(m) == UNION || head_code(m) == INTER ==> enc(m)[1] == float_bits_of(1),
{
    lemma_enc_len(m);
    lemma_size_pos(m);
}

/// Reading the concatenated child streams from the front.
pub proof fn lemma_enc_list_cons(cs: Seq<Model>)
    requires
        cs.len() > 0,
    ensures
        enc_list(cs) == enc(cs.first()) + enc_list(cs.drop_first()),
    decreases cs,
{
    if cs.len() == 1 {
        assert(cs.drop_last() =~= Seq::<Model>::empty());
        assert(cs.drop_first() =~= Seq::<Model>::empty());
        assert(enc_list(cs) =~= enc(cs.first()) + enc_list(cs.drop_first()));
    } else {
        lemma_enc_list_cons(cs.drop_last());
        assert(cs.drop_last().drop_first() =~= cs.drop_first().drop_last());
        assert(cs.drop_first().last() == cs.last());
        assert(cs.drop_last().first() == cs.first());
        assert(enc_list(cs) =~= enc(cs.first()) + enc_list(cs.drop_first()));
    }
}

/// Packing is injective: the three channels are the base-256 digits of
/// the packed value.
pub proof fn lemma_pack_color_injective(c1: Clr, c2: Clr)
    requires
        pack_color(c1) == pack_color(c2),
    ensures
        c1 == c2,
{
    vstd::arithmetic::div_mod::lemma_fundamental_div_mod_converse(
        pack_color(c1) as int,
        0x10000,
        c1.0 as int,
        (c1.1 as int) * 0x100 + (c1.2 as int),
    );
    vstd::arithmetic::div_mod::lemma_fundamental_div_mod_converse(
        pack_color(c2) as int,
        0x10000,
        c2.0 as int,
        (c2.1 as int) * 0x100 + (c2.2 as int),
    );
    vstd::arithmetic::div_mod::lemma_fundamental_div_mod_converse(
        (c1.1 as int) * 0x100 + (c1.2 as int),
        0x100,
        c1.1 as int,
        c1.2 as int,
    );
    vstd::arithmetic::div_mod::lemma_fundamental_div_mod_converse(
        (c2.1 as int) * 0x100 + (c2.2 as int),
        0x100,
        c2.1 as int,
        c2.2 as int,
    );
}

/// The stream determines the tree, even with arbitrary trailing data:
/// equal concatenations of a stream and a tail force equal trees and
/// equal tails.
pub proof fn lemma_enc_prefix_injective(a: Model, b: Model, s1: Seq<u32>, s2: Seq<u32>)
    requires
        enc(a) + s1 == enc(b) + s2,
    ensures
        a == b,
        s1 == s2,
    decreases a,
{
    lemma_enc_head(a);
    lemma_enc_head(b);
    crate::floatbits::lemma_float_bits_small();
    assert((enc(a) + s1)[0] == enc(a)[0]);
    assert((enc(b) + s2)[0] == enc(b)[0]);
    assert(head_code(a) == head_code(b));
    match a {
        Model::Nil | Model::Oval(_) | Model::Arch(_) | Model::Rect(_) | Model::Tria(_) => {
            lemma_concat_split(enc(a), enc(b), s1, s2);
            assert(enc(a)[1] == enc(b)[1]);
            assert(enc(a)[2] == enc(b)[2]);
        },
        Model::Trans(d, c) => {
            assert(b is Trans);
            let db = b->Trans_0;
            let cb = b->Trans_1;
            lemma_unary_step(
                instr(TRANS, d.0.0, d.0.1),
                instr(TRANS, db.0.0, db.0.1),
                enc(*c),
                enc(*cb),
                s1,
                s2,
            );
            lemma_enc_prefix_injective(*c, *cb, s1, s2);
        },
        Model::Rotat(d, c) => {
            assert(b is Rotat);
            let db = b->Rotat_0;
            let cb = b->Rotat_1;
            lemma_unary_step(
                instr(ROTAT, d.0.0, 0),
                instr(ROTAT, db.0.0, 0),
                enc(*c),
                enc(*cb),
                s1,
                s2,
            );
            lemma_enc_prefix_injective(*c, *cb, s1, s2);
        },
        Model::Origi(d, c) => {
            assert(b is Origi);
            let db = b->Origi_0;
            let cb = b->Origi_1;
            lemma_unary_step(
                instr(ORIGI, d.0.0, d.0.1),
                instr(ORIGI, db.0.0, db.0.1),
                enc(*c),
                enc(*cb),
                s1,
                s2,
            );
            lemma_enc_prefix_injective(*c, *cb, s1, s2);
        },
        Model::Scale(d, c) => {
            assert(b is Scale);
            let db = b->Scale_0;
            let cb = b->Scale_1;
            lemma_unary_step(
                instr(SCALE, d.0.0, 0),
                instr(SCALE, db.0.0, 0),
                enc(*c),
                enc(*cb),
                s1,
                s2,
            );
            lemma_enc_prefix_injective(*c, *cb, s1, s2);
        },
        Model::Compl(c) => {
            assert(b is Compl);
            let cb = b->Compl_0;
            lemma_unary_step(instr(COMPL, 0, 0), instr(COMPL, 0, 0), enc(*c), enc(*cb), s1, s2);
            lemma_enc_prefix_injective(*c, *cb, s1, s2);
        },
        Model::Fill(clr, c) => {
            assert(b is Fill);
            let clrb = b->Fill_0;
            let cb = b->Fill_1;
            lemma_unary_step(
                instr(FILL, float_bits_of(pack_color(clr)), 0),
                instr(FILL, float_bits_of(pack_color(clrb)), 0),
                enc(*c),
                enc(*cb),
                s1,
                s2,
            );
            crate::floatbits::lemma_float_bits_of_injective(pack_color(clr), pack_color(clrb));
            lemma_pack_color_injective(clr, clrb);
            lemma_enc_prefix_injective(*c, *cb, s1, s2);
        },
        Model::Outl(l, c) => {
            assert(b is Outl);
            let lb = b->Outl_0;
            let cb = b->Outl_1;
            lemma_unary_step(
                instr(OUTL, l.0, 0),
                instr(OUTL, lb.0, 0),
                enc(*c),
                enc(*cb),
                s1,
                s2,
            );
            lemma_enc_prefix_injective(*c, *cb, s1, s2);
        },
        Model::Union(cs) => {
            assert(b is Union);
            let csb = b->Union_0;
            lemma_variadic_step(UNION, cs, csb, s1, s2);
            lemma_enc_list_prefix_injective(cs, csb, UNION, s1, s2);
        },
        Model::Inter(cs) => {
            assert(b is Inter);
            let csb = b->Inter_0;
            lemma_variadic_step(INTER, cs, csb, s1, s2);
            lemma_enc_list_prefix_injective(cs, csb, INTER, s1, s2);
        },
    }
}

/// Strips the equal-length leading triples of two equal streams.
proof fn lemma_unary_step(
    i1: Seq<u32>,
    i2: Seq<u32>,
    c1: Seq<u32>,
    c2: Seq<u32>,
    s1: Seq<u32>,
    s2: Seq<u32>,
)
    requires
        (i1 + c1) + s1 == (i2 + c2) + s2,
        i1.len() == i2.len(),
    ensures
        i1 == i2,
        c1 + s1 == c2 + s2,
{
    assert((i1 + c1) + s1 =~= i1 + (c1 + s1));
    assert((i2 + c2) + s2 =~= i2 + (c2 + s2));
    lemma_concat_split(i1, i2, c1 + s1, c2 + s2);
}

/// Regroups a variadic stream so that its start marker can be stripped.
proof fn lemma_variadic_step(
    code: u32,
    cs1: Seq<Model>,
    cs2: Seq<Model>,
    s1: Seq<u32>,
    s2: Seq<u32>,
)
    requires
        (instr(code, float_bits_of(1), 0) + enc_list(cs1) + instr(code, 0, 0)) + s1 == (instr(
            code,
            float_bits_of(1),
            0,
        ) + enc_list(cs2) + instr(code, 0, 0)) + s2,
    ensures
        enc_list(cs1) + (instr(code, 0, 0) + s1) == enc_list(cs2) + (instr(code, 0, 0) + s2),
{
    let start = instr(code, float_bits_of(1), 0);
    assert((start + enc_list(cs1) + instr(code, 0, 0)) + s1 =~= start + (enc_list(cs1) + (instr(
        code,
        0,
        0,
    ) + s1)));
    assert((start + enc_list(cs2) + instr(code, 0, 0)) + s2 =~= start + (enc_list(cs2) + (instr(
        code,
        0,
        0,
    ) + s2)));
    lemma_concat_split(
        start,
        start,
        enc_list(cs1) + (instr(code, 0, 0) + s1),
        enc_list(cs2) + (instr(code, 0, 0) + s2),
    );
}

/// The bracketed child lists are determined too: equal child streams up
/// to the matching end marker force equal child lists.
pub proof fn lemma_enc_list_prefix_injective(
    cs1: Seq<Model>,
    cs2: Seq<Model>,
    code: u32,
    t1: Seq<u32>,
    t2: Seq<u32>,
)
    requires
        code == UNION || code == INTER,
        enc_list(cs1) + (instr(code, 0, 0) + t1) == enc_list(cs2) + (instr(code, 0, 0) + t2),
    ensures
        cs1 == cs2,
        t1 == t2,
    decreases cs1,
{
    crate::floatbits::lemma_float_bits_small();
    if cs1.len() == 0 && cs2.len() == 0 {
        assert(enc_list(cs1) + (instr(code, 0, 0) + t1) =~= instr(code, 0, 0) + t1);
        assert(enc_list(cs2) + (instr(code, 0, 0) + t2) =~= instr(code, 0, 0) + t2);
        lemma_concat_split(instr(code, 0, 0), instr(code, 0, 0), t1, t2);
        assert(cs1 =~= cs2);
    } else if cs1.len() == 0 {
        // The left side opens with the end marker, the right with the
        // first child's stream: those first triples cannot agree. The
        // child's opcode would have to be this bracket's code, making the
        // child variadic, but then its second slot is the start mark one,
        // and the end marker's is zero.
        lemma_enc_list_cons(cs2);
        lemma_enc_head(cs2.first());
        let w = enc_list(cs1) + (instr(code, 0, 0) + t1);
        let child = enc(cs2.first());
        let rest = enc_list(cs2.drop_first()) + (instr(code, 0, 0) + t2);
        assert(w =~= instr(code, 0, 0) + t1);
        assert((instr(code, 0, 0) + t1)[0] == float_bits_of(code as nat));
        assert((instr(code, 0, 0) + t1)[1] == 0);
        assert(enc_list(cs2) + (instr(code, 0, 0) + t2) =~= child + rest);
        assert((child + rest)[0] == child[0]);
        assert((child + rest)[1] == child[1]);
        assert(head_code(cs2.first()) == code);
        assert(child[1] == float_bits_of(1));
        assert(false);
    } else if cs2.len() == 0 {
        lemma_enc_list_cons(cs1);
        lemma_enc_head(cs1.first());
        let w = enc_list(cs2) + (instr(code, 0, 0) + t2);
        let child = enc(cs1.first());
        let rest = enc_list(cs1.drop_first()) + (instr(code, 0, 0) + t1);
        assert(w =~= instr(code, 0, 0) + t2);
        assert((instr(code, 0, 0) + t2)[0] == float_bits_of(code as nat));
        assert((instr(code, 0, 0) + t2)[1] == 0);
        assert(enc_list(cs1) + (instr(code, 0, 0) + t1) =~= child + rest);
        assert((child + rest)[0] == child[0]);
        assert((child + rest)[1] == child[1]);
        assert(head_code(cs1.first()) == code);
        assert(child[1] == float_bits_of(1));
        assert(false);
    } else {
        lemma_enc_list_cons(cs1);
        lemma_enc_list_cons(cs2);
        assert((enc(cs1.first()) + enc_list(cs1.drop_first())) + (instr(code, 0, 0) + t1) =~= enc(
            cs1.first(),
        ) + (enc_list(cs1.drop_first()) + (instr(code, 0, 0) + t1)));
        assert((enc(cs2.first()) + enc_list(cs2.drop_first())) + (instr(code, 0, 0) + t2) =~= enc(
            cs2.first(),
        ) + (enc_list(cs2.drop_first()) + (instr(code, 0, 0) + t2)));
        lemma_enc_prefix_injective(
            cs1.first(),
            cs2.first(),
            enc_list(cs1.drop_first()) + (instr(code, 0, 0) + t1),
            enc_list(cs2.drop_first()) + (instr(code, 0, 0) + t2),
        );
        lemma_enc_list_prefix_injective(cs1.drop_first(), cs2.drop_first(), code, t1, t2);
        assert(cs1 =~= cs2) by {
            assert(cs1.len() == 1 + cs1.drop_first().len());
            assert forall|i: int| 0 <= i < cs1.len() implies cs1[i] == cs2[i] by {
                if i > 0 {
                    assert(cs1.drop_first()[i - 1] == cs2.drop_first()[i - 1]);
                }
            }
        }
    }
}

/// The encoding is injective on trees: two trees with the same stream
/// are the same tree, payloads included.
pub proof fn lemma_enc_injective(a: Model, b: Model)
    requires
        enc(a) == enc(b),
    ensures
        a == b,
{
    assert(enc(a) + Seq::<u32>::empty() =~= enc(a));
    assert(enc(b) + Seq::<u32>::empty() =~= enc(b));
    lemma_enc_prefix_injective(a, b, Seq::empty(), Seq::empty());
}

} // verus!
