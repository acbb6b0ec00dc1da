use vstd::prelude::*;

verus! {

// Typed scalar wrappers for the shape tree's payloads.
//
// Every geometric scalar (a coordinate, a length, a rotation, a scale
// factor) is carried as the bit pattern of an IEEE-754 single-precision
// number, stored in a `u32`. The tree never does arithmetic on these
// scalars: it only moves them into the encoded stream unchanged, so the
// bit pattern is a faithful stand-in for the number itself. A caller that
// starts from floating-point values converts at the boundary.

/// A position: x and y coordinate bit patterns.
#[derive(Debug, Clone, Copy, PartialEq, Eq, Structural)]
pub struct Pos(pub u32, pub u32);

/// A velocity: x and y component bit patterns.
#[derive(Debug, Clone, Copy, PartialEq, Eq, Structural)]
pub struct Vel(pub u32, pub u32);

/// A length scalar bit pattern.
#[derive(Debug, Clone, Copy, PartialEq, Eq, Structural)]
pub struct Len(pub u32);

/// Dimensions of a primitive: width and height.
#[derive(Debug, Clone, Copy, PartialEq, Eq, Structural)]
pub struct Dim(pub Len, pub Len);

/// A radius scalar bit pattern.
#[derive(Debug, Clone, Copy, PartialEq, Eq, Structural)]
pub struct Rad(pub u32);

/// A rotation scalar bit pattern.
#[derive(Debug, Clone, Copy, PartialEq, Eq, Structural)]
pub struct Rot(pub u32);

/// A scale factor bit pattern.
#[derive(Debug, Clone, Copy, PartialEq, Eq, Structural)]
pub struct Scl(pub u32);

/// A color: red, green and blue channels, 8 bits each, no alpha.
#[derive(Debug, Clone, PartialEq, Eq, Structural)]
pub struct Clr(pub u8, pub u8, pub u8);

/// A delta: a typed change in position, rotation or scale.
#[derive(Debug, Clone, Copy, PartialEq, Eq, Structural)]
pub struct Dlt<T>(pub T);

impl<T> Dlt<T> {
    /// Wraps a typed value as a delta.
    pub fn as_delta(val: T) -> (r: Dlt<T>)
        ensures
            r == Dlt(val),
    {
        Dlt(val)
    }
}

/// Conversion of an ergonomic literal form into a `Pos`.
pub trait ToPos: Sized {
    /// The position this value denotes.
    spec fn to_pos_spec(self) -> Pos;

    fn to_pos(self) -> (r: Pos)
        ensures
            r == self.to_pos_spec(),
    ;
}

impl ToPos for (u32, u32) {
    open spec fn to_pos_spec(self) -> Pos {
        Pos(self.0, self.1)
    }

    fn to_pos(self) -> Pos {
        let (x, y) = self;
        Pos(x, y)
    }
}

impl ToPos for [u32; 2] {
    open spec fn to_pos_spec(self) -> Pos {
        Pos(self[0], self[1])
    }

    fn to_pos(self) -> Pos {
        Pos(self[0], self[1])
    }
}

impl ToPos for Pos {
    open spec fn to_pos_spec(self) -> Pos {
        self
    }

    fn to_pos(self) -> Pos {
        self
    }
}

/// Conversion of an ergonomic literal form into a `Len`.
pub trait ToLen: Sized {
    /// The length this value denotes.
    spec fn to_len_spec(self) -> Len;

    fn to_len(self) -> (r: Len)
        ensures
            r == self.to_len_spec(),
    ;
}

impl ToLen for u32 {
    open spec fn to_len_spec(self) -> Len {
        Len(self)
    }

    fn to_len(self) -> Len {
        Len(self)
    }
}

impl ToLen for Len {
    open spec fn to_len_spec(self) -> Len {
        self
    }

    fn to_len(self) -> Len {
        self
    }
}

/// Conversion of an ergonomic literal form into a `Dim`.
pub trait ToDim: Sized {
    /// The dimensions this value denotes.
    spec fn to_dim_spec(self) -> Dim;

    fn to_dim(self) -> (r: Dim)
        ensures
            r == self.to_dim_spec(),
    ;
}

impl ToDim for Dim {
    open spec fn to_dim_spec(self) -> Dim {
        self
    }

    fn to_dim(self) -> Dim {
        self
    }
}

impl ToDim for (u32, u32) {
    open spec fn to_dim_spec(self) -> Dim {
        Dim(Len(self.0), Len(self.1))
    }

    fn to_dim(self) -> Dim {
        let (w, h) = self;
        Dim(Len(w), Len(h))
    }
}

impl ToDim for [u32; 2] {
    open spec fn to_dim_spec(self) -> Dim {
        Dim(Len(self[0]), Len(self[1]))
    }

    fn to_dim(self) -> Dim {
        Dim(Len(self[0]), Len(self[1]))
    }
}

/// Conversion of an ergonomic literal form into a `Rot`.
pub trait ToRot: Sized {
    /// The rotation this value denotes.
    spec fn to_rot_spec(self) -> Rot;

    fn to_rot(self) -> (r: Rot)
        ensures
            r == self.to_rot_spec(),
    ;
}

impl ToRot for u32 {
    open spec fn to_rot_spec(self) -> Rot {
        Rot(self)
    }

    fn to_rot(self) -> Rot {
        Rot(self)
    }
}

impl ToRot for Rot {
    open spec fn to_rot_spec(self) -> Rot {
        self
    }

    fn to_rot(self) -> Rot {
        self
    }
}

/// Conversion of an ergonomic literal form into a `Scl`.
pub trait ToScl: Sized {
    /// The scale factor this value denotes.
    spec fn to_scl_spec(self) -> Scl;

    fn to_scl(self) -> (r: Scl)
        ensures
            r == self.to_scl_spec(),
    ;
}

impl ToScl for u32 {
    open spec fn to_scl_spec(self) -> Scl {
        Scl(self)
    }

    fn to_scl(self) -> Scl {
        Scl(self)
    }
}

impl ToScl for Scl {
    open spec fn to_scl_spec(self) -> Scl {
        self
    }

    fn to_scl(self) -> Scl {
        self
    }
}

/// Conversion of an ergonomic literal form into a `Clr`.
pub trait ToClr: Sized {
    /// The color this value denotes.
    spec fn to_clr_spec(self) -> Clr;

    fn to_clr(self) -> (r: Clr)
        ensures
            r == self.to_clr_spec(),
    ;
}

impl ToClr for (u8, u8, u8) {
    open spec fn to_clr_spec(self) -> Clr {
        Clr(self.0, self.1, self.2)
    }

    fn to_clr(self) -> Clr {
        let (r, g, b) = self;
        Clr(r, g, b)
    }
}

impl ToClr for [u8; 3] {
    open spec fn to_clr_spec(self) -> Clr {
        Clr(self[0], self[1], self[2])
    }

    fn to_clr(self) -> Clr {
        Clr(self[0], self[1], self[2])
    }
}

impl ToClr for Clr {
    open spec fn to_clr_spec(self) -> Clr {
        self
    }

    fn to_clr(self) -> Clr {
        self
    }
}

/// Conversion of an ergonomic literal form into a `Dlt<T>`.
pub trait ToDlt<T>: Sized {
    /// The delta this value denotes.
    spec fn to_delta_spec(self) -> Dlt<T>;

    fn to_delta(self) -> (r: Dlt<T>)
        ensures
            r == self.to_delta_spec(),
    ;
}

impl<T> ToDlt<T> for T {
    open spec fn to_delta_spec(self) -> Dlt<T> {
        Dlt(self)
    }

    fn to_delta(self) -> Dlt<T> {
        Dlt(self)
    }
}

impl ToDlt<Pos> for (u32, u32) {
    open spec fn to_delta_spec(self) -> Dlt<Pos> {
        Dlt(Pos(self.0, self.1))
    }

    fn to_delta(self) -> Dlt<Pos> {
        let (dx, dy) = self;
        Dlt(Pos(dx, dy))
    }
}

impl ToDlt<Pos> for [u32; 2] {
    open spec fn to_delta_spec(self) -> Dlt<Pos> {
        Dlt(Pos(self[0], self[1]))
    }

    fn to_delta(self) -> Dlt<Pos> {
        Dlt(Pos(self[0], self[1]))
    }
}

impl ToDlt<Rot> for u32 {
    open spec fn to_delta_spec(self) -> Dlt<Rot> {
        Dlt(Rot(self))
    }

    fn to_delta(self) -> Dlt<Rot> {
        Dlt(Rot(self))
    }
}

impl ToDlt<Scl> for u32 {
    open spec fn to_delta_spec(self) -> Dlt<Scl> {
        Dlt(Scl(self))
    }

    fn to_delta(self) -> Dlt<Scl> {
        Dlt(Scl(self))
    }
}

} // verus!
