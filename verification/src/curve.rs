//! The Vesta curve: affine points, their validation, and the group operations that
//! `pasta_curves` supplies.

use ff::PrimeField;
use group::prime::PrimeCurveAffine;
use group::Curve;
use pasta_curves::arithmetic::{Coordinates, CurveAffine};
use vstd::prelude::*;

use crate::field;
use crate::field::Fq;

verus! {

/// Whether two numbers are the coordinates of a Vesta point: `y^2 = x^3 + 5` in the base field.
pub open spec fn on_curve(x: nat, y: nat) -> bool {
    (y * y) % field::base_modulus() == (x * x * x + 5) % field::base_modulus()
}

/// The coordinates that a pair of representations stands for, nothing for the identity.
pub open spec fn coordinate_values(c: Option<([u8; 32], [u8; 32])>) -> Option<(nat, nat)> {
    match c {
        Some((x, y)) => Some((field::le_value(x@), field::le_value(y@))),
        None => None,
    }
}

/// Whether coordinates, if there are any, are canonical and belong to a Vesta point.
pub open spec fn is_point(p: Option<(nat, nat)>) -> bool {
    match p {
        Some((x, y)) => x < field::base_modulus() && y < field::base_modulus() && on_curve(x, y),
        None => true,
    }
}

/// The sum of two points in the Vesta group, `None` being the identity.
pub uninterp spec fn vesta_sum(a: Option<(nat, nat)>, b: Option<(nat, nat)>) -> Option<(nat, nat)>;

/// A multiple of a point in the Vesta group: the sum of so many copies of it, the empty sum being
/// the identity.
pub open spec fn vesta_multiple(p: Option<(nat, nat)>, scalar: nat) -> Option<(nat, nat)>
    decreases scalar,
{
    if scalar == 0 {
        None
    } else {
        vesta_sum(vesta_multiple(p, (scalar - 1) as nat), p)
    }
}

/// Calls `CurveAffine::from_xy` of `pasta_curves::EqAffine`, and reads the point that it gives
/// with `coordinates`.
///
/// Claimed: a point comes back for coordinates on the curve, with these coordinates, and for
/// `(0, 0)`, where it is the identity and has none; nothing comes back for other coordinates.
#[verifier::external_body]
fn point_at(x: [u8; 32], y: [u8; 32]) -> (r: Option<Option<([u8; 32], [u8; 32])>>)
    requires
        field::le_value(x@) < field::base_modulus(),
        field::le_value(y@) < field::base_modulus(),
    ensures
        r == (if field::le_value(x@) == 0 && field::le_value(y@) == 0 {
            Some(None)
        } else if on_curve(field::le_value(x@), field::le_value(y@)) {
            Some(Some((x, y)))
        } else {
            None
        }),
{
    let x = pasta_curves::Fq::from_repr(x).unwrap();
    let y = pasta_curves::Fq::from_repr(y).unwrap();
    let point: Option<pasta_curves::EqAffine> = pasta_curves::EqAffine::from_xy(x, y).into();
    point.map(|p| {
        let c: Option<Coordinates<pasta_curves::EqAffine>> = p.coordinates().into();
        c.map(|c| (c.x().to_repr(), c.y().to_repr()))
    })
}

/// Adds two points of `pasta_curves::EqAffine`, and reads the sum with `to_affine` and
/// `coordinates`.
///
/// Claimed: the sum depends on the two points alone and is a point again, and the identity
/// leaves the other point as it is. The group law itself is not written out.
#[verifier::external_body]
fn add_points(
    a: Option<([u8; 32], [u8; 32])>,
    b: Option<([u8; 32], [u8; 32])>,
) -> (r: Option<([u8; 32], [u8; 32])>)
    requires
        is_point(coordinate_values(a)),
        is_point(coordinate_values(b)),
    ensures
        coordinate_values(r) == vesta_sum(coordinate_values(a), coordinate_values(b)),
        is_point(coordinate_values(r)),
        a is None ==> r == b,
        b is None ==> r == a,
{
    let point = |c: Option<([u8; 32], [u8; 32])>| match c {
        Some((x, y)) => pasta_curves::EqAffine::from_xy(
            pasta_curves::Fq::from_repr(x).unwrap(),
            pasta_curves::Fq::from_repr(y).unwrap(),
        ).unwrap(),
        None => pasta_curves::EqAffine::identity(),
    };
    let sum = (point(a) + point(b)).to_affine();
    let c: Option<Coordinates<pasta_curves::EqAffine>> = sum.coordinates().into();
    c.map(|c| (c.x().to_repr(), c.y().to_repr()))
}

/// Multiplies a point of `pasta_curves::EqAffine` by a `pasta_curves::Fp`, and reads the product
/// with `to_affine` and `coordinates`.
///
/// Claimed: the product is what adding the point up so many times gives, and is a point again.
#[verifier::external_body]
fn multiply_point(
    p: Option<([u8; 32], [u8; 32])>,
    scalar: [u8; 32],
) -> (r: Option<([u8; 32], [u8; 32])>)
    requires
        is_point(coordinate_values(p)),
        field::le_value(scalar@) < field::scalar_modulus(),
    ensures
        coordinate_values(r) == vesta_multiple(coordinate_values(p), field::le_value(scalar@)),
        is_point(coordinate_values(r)),
{
    let point = match p {
        Some((x, y)) => pasta_curves::EqAffine::from_xy(
            pasta_curves::Fq::from_repr(x).unwrap(),
            pasta_curves::Fq::from_repr(y).unwrap(),
        ).unwrap(),
        None => pasta_curves::EqAffine::identity(),
    };
    let product = (point * pasta_curves::Fp::from_repr(scalar).unwrap()).to_affine();
    let c: Option<Coordinates<pasta_curves::EqAffine>> = product.coordinates().into();
    c.map(|c| (c.x().to_repr(), c.y().to_repr()))
}

/// A Vesta point in affine coordinates, or the identity.
///
/// Its view gives the coordinates as numbers, and `None` for the identity.
#[derive(Clone, Copy, Debug, PartialEq, Eq)]
pub struct EqAffine {
    coords: Option<(Fq, Fq)>,
}

impl View for EqAffine {
    type V = Option<(nat, nat)>;

    closed spec fn view(&self) -> Option<(nat, nat)> {
        match self.coords {
            Some((x, y)) => Some((x@, y@)),
            None => None,
        }
    }
}

impl EqAffine {
    #[verifier::type_invariant]
    closed spec fn valid(self) -> bool {
        is_point(self@)
    }

    /// The point with the given coordinates, where `(0, 0)` is the identity.
    pub closed spec fn at(x: Fq, y: Fq) -> EqAffine {
        EqAffine {
            coords: if x@ == 0 && y@ == 0 {
                None
            } else {
                Some((x, y))
            },
        }
    }

    /// The point with the given coordinates has these coordinates.
    pub proof fn point_at_coordinates(x: Fq, y: Fq)
        ensures
            EqAffine::at(x, y)@ == xy_point(x@, y@),
    {
    }

    /// The identity of the group.
    pub fn identity() -> (p: EqAffine)
        ensures
            p@ is None,
    {
        EqAffine { coords: None }
    }

    /// The point with the given coordinates, failing if they are not on the curve. The identity
    /// is written `(0, 0)`.
    pub fn from_xy(x: Fq, y: Fq) -> (r: Option<EqAffine>)
        ensures
            r is Some <==> (x@ == 0 && y@ == 0) || on_curve(x@, y@),
            r matches Some(p) ==> p == EqAffine::at(x, y) && p@ == xy_point(x@, y@),
    {
        proof {
            EqAffine::point_at_coordinates(x, y);
            assert forall|p: EqAffine| #[trigger] p@ == xy_point(x@, y@) implies p == EqAffine::at(
                x,
                y,
            ) by {
                same_point(p, EqAffine::at(x, y));
            }
        }
        match point_at(x.to_repr(), y.to_repr()) {
            Some(coords) => Some(EqAffine::from_representations(coords)),
            None => None,
        }
    }

    /// The coordinates of this point, which are canonical and on the curve; none if it is the
    /// identity.
    pub fn coordinates(&self) -> (r: Option<(Fq, Fq)>)
        ensures
            r is Some <==> self@ is Some,
            r matches Some((x, y)) ==> self@ == Some((x@, y@)),
            is_point(self@),
    {
        proof {
            use_type_invariant(self);
        }
        self.coords
    }

    /// The sum of two points.
    pub fn plus(&self, other: &EqAffine) -> (r: EqAffine)
        ensures
            r@ == vesta_sum(self@, other@),
            self@ is None ==> r@ == other@,
            other@ is None ==> r@ == self@,
    {
        EqAffine::from_representations(
            add_points(self.to_representations(), other.to_representations()),
        )
    }

    /// A multiple of a point.
    pub fn times(&self, scalar: &crate::field::Fp) -> (r: EqAffine)
        ensures
            r@ == vesta_multiple(self@, scalar@),
            scalar@ == 0 ==> r@ is None,
    {
        EqAffine::from_representations(
            multiply_point(self.to_representations(), scalar.to_repr()),
        )
    }

    fn to_representations(&self) -> (c: Option<([u8; 32], [u8; 32])>)
        ensures
            coordinate_values(c) == self@,
            is_point(self@),
    {
        proof {
            use_type_invariant(self);
        }
        match self.coords {
            Some((x, y)) => Some((x.to_repr(), y.to_repr())),
            None => None,
        }
    }

    fn from_representations(c: Option<([u8; 32], [u8; 32])>) -> (p: EqAffine)
        requires
            is_point(coordinate_values(c)),
        ensures
            p@ == coordinate_values(c),
    {
        match c {
            Some((x, y)) => EqAffine {
                coords: Some((Fq::from_repr(x).unwrap(), Fq::from_repr(y).unwrap())),
            },
            None => EqAffine { coords: None },
        }
    }
}

/// The point with the given coordinates, where `(0, 0)` is the identity.
pub open spec fn xy_point(x: nat, y: nat) -> Option<(nat, nat)> {
    if x == 0 && y == 0 {
        None
    } else {
        Some((x, y))
    }
}

/// The key of a point: the representations of its coordinates one after the other, and a single
/// zero byte for the identity.
pub open spec fn key_of(p: Option<(nat, nat)>) -> Seq<u8> {
    match p {
        Some((x, y)) => field::le_bytes(x, 32) + field::le_bytes(y, 32),
        None => seq![0u8],
    }
}

/// Points with one view are one point.
pub proof fn same_point(a: EqAffine, b: EqAffine)
    ensures
        a == b <==> a@ == b@,
{
    if a@ == b@ {
        match (a.coords, b.coords) {
            (Some((ax, ay)), Some((bx, by))) => {
                field::same_base_element(ax, bx);
                field::same_base_element(ay, by);
            },
            _ => {},
        }
    }
}

/// Two points have one key if and only if they are the same point.
pub proof fn point_keys_are_unique(a: EqAffine, b: EqAffine)
    ensures
        key_of(a@) == key_of(b@) <==> a == b,
{
    same_point(a, b);
    if key_of(a@) == key_of(b@) {
        let (ka, kb) = (key_of(a@), key_of(b@));
        if let Some((x, y)) = a.coords {
            field::base_element_fits(x);
            field::base_element_fits(y);
            assert(ka.subrange(0, 32) =~= field::le_bytes(x@, 32));
            assert(ka.subrange(32, 64) =~= field::le_bytes(y@, 32));
        }
        if let Some((x, y)) = b.coords {
            field::base_element_fits(x);
            field::base_element_fits(y);
            assert(kb.subrange(0, 32) =~= field::le_bytes(x@, 32));
            assert(kb.subrange(32, 64) =~= field::le_bytes(y@, 32));
        }
    }
}

/// The key of a point spells out its coordinates, x before y; that of the identity is a zero byte.
pub proof fn keys_spell_coordinates(p: EqAffine)
    ensures
        p@ matches Some((x, y)) ==> {
            &&& key_of(p@).len() == 64
            &&& field::le_value(key_of(p@).subrange(0, 32)) == x
            &&& field::le_value(key_of(p@).subrange(32, 64)) == y
        },
        p@ is None ==> key_of(p@) == seq![0u8],
{
    if let Some((x, y)) = p.coords {
        field::base_element_fits(x);
        field::base_element_fits(y);
        assert(key_of(p@).subrange(0, 32) =~= field::le_bytes(x@, 32));
        assert(key_of(p@).subrange(32, 64) =~= field::le_bytes(y@, 32));
    }
}

/// Only the origin stands for the identity; every other pair of coordinates stands for the point
/// with these coordinates.
pub proof fn only_the_origin_is_the_identity(x: Fq, y: Fq)
    ensures
        EqAffine::at(x, y)@ is None <==> x@ == 0 && y@ == 0,
        EqAffine::at(x, y)@ is Some ==> EqAffine::at(x, y)@ == Some((x@, y@)),
{
}

/// Coordinate key for a point's identity (its affine `(x, y)` representation; the identity of the
/// group has a sentinel).
pub fn point_key(p: EqAffine) -> (key: Vec<u8>)
    ensures
        key@ == key_of(p@),
{
    match p.coordinates() {
        Some((x, y)) => {
            let mut key: Vec<u8> = Vec::new();
            let (xs, ys) = (x.to_repr(), y.to_repr());
            key.extend_from_slice(xs.as_slice());
            key.extend_from_slice(ys.as_slice());
            assert(key@ =~= xs@ + ys@);
            key
        },
        None => {
            let mut key: Vec<u8> = Vec::new();
            key.push(0);
            assert(key@ =~= seq![0u8]);
            key
        },
    }
}

/// Whether two points are the same.
pub fn same_points(a: &EqAffine, b: &EqAffine) -> (r: bool)
    ensures
        r == (*a == *b),
        r == (a@ == b@),
{
    proof {
        same_point(*a, *b);
        point_keys_are_unique(*a, *b);
    }
    let (ka, kb) = (point_key(*a), point_key(*b));
    field::same_bytes(ka.as_slice(), kb.as_slice())
}

} // verus!
