use vstd::prelude::*;
use crate::base::{sat, Length};

verus! {

/// Three values, one for each of the axes x, y and z.
#[derive(Debug, Clone, Copy, PartialEq, Eq, Structural)]
pub struct Dim3<T> {
    pub x: T,
    pub y: T,
    pub z: T,
}

impl<T> Dim3<T> {
    pub fn new(x: T, y: T, z: T) -> (r: Dim3<T>)
        ensures
            r.x == x,
            r.y == y,
            r.z == z,
    {
        Dim3 { x, y, z }
    }
}

impl<T: Copy> Dim3<T> {
    pub fn x(&self) -> (r: T)
        ensures
            r == self.x,
    {
        self.x
    }

    pub fn y(&self) -> (r: T)
        ensures
            r == self.y,
    {
        self.y
    }

    pub fn z(&self) -> (r: T)
        ensures
            r == self.z,
    {
        self.z
    }
}

impl Dim3<Length> {
    /// All three axes at zero.
    pub fn zero() -> (r: Dim3<Length>)
        ensures
            r.x.0 == 0 && r.y.0 == 0 && r.z.0 == 0,
    {
        Dim3 { x: Length(0), y: Length(0), z: Length(0) }
    }

    /// The axis-wise larger of two triples.
    pub fn max_with(&self, o: &Dim3<Length>) -> (r: Dim3<Length>)
        ensures
            r == dim3_max(*self, *o),
    {
        Dim3 { x: self.x.max_of(o.x), y: self.y.max_of(o.y), z: self.z.max_of(o.z) }
    }

    /// The text `x y z`, each length in its largest exact unit.
    pub fn to_string(&self) -> (r: String)
        ensures
            r@ == crate::base::length_text(self.x.0) + " "@ + crate::base::length_text(self.y.0)
                + " "@ + crate::base::length_text(self.z.0),
    {
        crate::style::join3(self.x.to_string(), self.y.to_string(), self.z.to_string())
    }
}

impl Default for Dim3<Length> {
    fn default() -> (r: Dim3<Length>)
        ensures
            r.x.0 == 0 && r.y.0 == 0 && r.z.0 == 0,
    {
        Dim3 { x: Length(0), y: Length(0), z: Length(0) }
    }
}

impl core::ops::Add for Dim3<Length> {
    type Output = Dim3<Length>;

    fn add(self, other: Dim3<Length>) -> Dim3<Length> {
        Dim3 { x: self.x.plus(other.x), y: self.y.plus(other.y), z: self.z.plus(other.z) }
    }
}

impl vstd::std_specs::ops::AddSpecImpl for Dim3<Length> {
    open spec fn obeys_add_spec() -> bool {
        true
    }

    open spec fn add_req(self, rhs: Dim3<Length>) -> bool {
        true
    }

    open spec fn add_spec(self, rhs: Dim3<Length>) -> Dim3<Length> {
        Dim3 {
            x: Length(sat(self.x.0 + rhs.x.0)),
            y: Length(sat(self.y.0 + rhs.y.0)),
            z: Length(sat(self.z.0 + rhs.z.0)),
        }
    }
}

pub open spec fn len_minus(a: Length, b: Length) -> Length {
    Length(
        if a.0 >= b.0 {
            (a.0 - b.0) as u32
        } else {
            0
        },
    )
}

impl core::ops::Sub for Dim3<Length> {
    type Output = Dim3<Length>;

    fn sub(self, other: Dim3<Length>) -> Dim3<Length> {
        Dim3 { x: self.x.minus(other.x), y: self.y.minus(other.y), z: self.z.minus(other.z) }
    }
}

impl vstd::std_specs::ops::SubSpecImpl for Dim3<Length> {
    open spec fn obeys_sub_spec() -> bool {
        true
    }

    open spec fn sub_req(self, rhs: Dim3<Length>) -> bool {
        true
    }

    open spec fn sub_spec(self, rhs: Dim3<Length>) -> Dim3<Length> {
        Dim3 {
            x: len_minus(self.x, rhs.x),
            y: len_minus(self.y, rhs.y),
            z: len_minus(self.z, rhs.z),
        }
    }
}

pub open spec fn len_max(a: Length, b: Length) -> Length {
    if a.0 >= b.0 {
        a
    } else {
        b
    }
}

pub open spec fn dim3_max(a: Dim3<Length>, b: Dim3<Length>) -> Dim3<Length> {
    Dim3 { x: len_max(a.x, b.x), y: len_max(a.y, b.y), z: len_max(a.z, b.z) }
}

} // verus!
