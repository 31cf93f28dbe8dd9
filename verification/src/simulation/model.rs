//! The values a network is made of.

use crate::scalar::{
    exact, is_equal, is_number, is_product, is_quotient, is_sum, number, same, total, Scalar,
};
use core::ops::{Add, AddAssign};
use vstd::prelude::*;
use vstd::std_specs::ops::{AddSpec, AddSpecImpl, DivSpec, MulSpec};

verus! {

/// `glam::Vec3`, a point in space. The simulator stores one per node for
/// whoever draws the network and never looks inside it.
#[verifier::external_type_specification]
#[verifier::external_body]
pub struct ExVec3(glam::Vec3);

/// `<glam::Vec3 as Clone>::clone`. `Vec3` is `Copy` and its `Clone` is
/// derived, so the clone is the value itself.
pub assume_specification[ <glam::Vec3 as Clone>::clone ](v: &glam::Vec3) -> (r: glam::Vec3)
    ensures
        r == *v,
;

/// A quantity of liquid at one temperature.
#[derive(Debug, Clone, Copy, PartialEq)]
pub struct Fluid<S> {
    pub volume: S,
    pub temp: S,
}

/// A reservoir: the fluid it holds, how much it can hold, how well it keeps
/// its heat (0 loses freely, 1 loses nothing) and where it stands.
#[derive(Debug, Clone)]
pub struct Node<S> {
    pub fluid: Fluid<S>,
    pub capacity: S,
    pub insulation: S,
    pub position: glam::Vec3,
}

/// A conduit that carries fluid from node `input` to node `output`, at most
/// `flow_rate` units of volume per unit of time.
#[derive(Debug, Clone)]
pub struct Connection<S> {
    pub flow_rate: S,
    pub input: usize,
    pub output: usize,
}

/// A collector that turns sunlight into heat for the node it is attached to.
#[derive(Debug, Clone)]
pub struct SolarPanel<S> {
    pub area: S,
    pub efficiency: S,
}

/// The surroundings during one step: where the sun stands (radians above the
/// horizon), how strongly it shines, how much of it the clouds hold back
/// (0 to 1), and the temperature of the air.
#[derive(Debug)]
pub struct Environment<S> {
    pub sun_angle: S,
    pub sun_irradiance: S,
    pub cloud_cover: S,
    pub ambient_temp: S,
}

/// Two fluids poured together: the volumes add, and the temperature is the
/// average of the two weighted by volume. Nothing at all has temperature 0.
pub open spec fn mixed<S: Scalar>(a: Fluid<S>, b: Fluid<S>) -> Fluid<S> {
    let volume = a.volume.add_spec(b.volume);
    Fluid {
        volume,
        temp: if same(volume, number::<S>(0)) {
            number::<S>(0)
        } else {
            share(a.temp, a.volume, volume).add_spec(share(b.temp, b.volume, volume))
        },
    }
}

/// The part that a fluid of temperature `temp` and volume `volume` has in
/// the temperature of a mixture of volume `whole`: `temp * volume / whole`.
pub open spec fn share<S: Scalar>(temp: S, volume: S, whole: S) -> S {
    temp.mul_spec(volume).div_spec(whole)
}

/// `part` is a value that [`share`] may have when computed with the
/// operations of `S`.
pub open spec fn is_share<S: Scalar>(temp: S, volume: S, whole: S, part: S) -> bool {
    exists|heat: S| #[trigger] is_product(temp, volume, heat) && is_quotient(heat, whole, part)
}

/// `mixture` is a value that [`mixed`] may have when computed with the
/// operations of `S`.
pub open spec fn is_mixed<S: Scalar>(a: Fluid<S>, b: Fluid<S>, mixture: Fluid<S>) -> bool {
    &&& is_sum(a.volume, b.volume, mixture.volume)
    &&& exists|zero: S|
        {
            &&& #[trigger] is_number(0, zero)
            &&& {
                ||| is_equal(mixture.volume, zero, true) && mixture.temp == zero
                ||| is_equal(mixture.volume, zero, false) && exists|left: S, right: S|
                    {
                        &&& #[trigger] is_share(a.temp, a.volume, mixture.volume, left)
                        &&& #[trigger] is_share(b.temp, b.volume, mixture.volume, right)
                        &&& is_sum(left, right, mixture.temp)
                    }
            }
        }
}

impl<S: Scalar> AddSpecImpl for Fluid<S> {
    open spec fn obeys_add_spec() -> bool {
        exact::<S>()
    }

    open spec fn add_req(self, rhs: Fluid<S>) -> bool {
        total::<S>()
    }

    open spec fn add_spec(self, rhs: Fluid<S>) -> Fluid<S> {
        mixed(self, rhs)
    }
}

impl<S: Scalar> Add for Fluid<S> {
    type Output = Fluid<S>;

    /// Pours `rhs` into `self`.
    fn add(self, rhs: Fluid<S>) -> (mixture: Fluid<S>)
        ensures
            is_mixed(self, rhs, mixture),
    {
        let volume = self.volume + rhs.volume;
        let zero = S::from(0u16);
        assert(is_number(0, zero));
        let temp = if volume == zero {
            zero
        } else {
            let heat_left = self.temp * self.volume;
            let left = heat_left / volume;
            let heat_right = rhs.temp * rhs.volume;
            let right = heat_right / volume;
            assert(is_product(self.temp, self.volume, heat_left));
            assert(is_product(rhs.temp, rhs.volume, heat_right));
            assert(is_share(self.temp, self.volume, volume, left));
            assert(is_share(rhs.temp, rhs.volume, volume, right));
            left + right
        };
        Fluid { volume, temp }
    }
}

impl<S: Scalar> AddAssign for Fluid<S> {
    /// Pours `rhs` into `self`, in place.
    fn add_assign(&mut self, rhs: Fluid<S>)
        requires
            total::<S>(),
        ensures
            is_mixed(*old(self), rhs, *final(self)),
            exact::<S>() ==> *final(self) == mixed(*old(self), rhs),
    {
        *self = *self + rhs;
    }
}

} // verus!
