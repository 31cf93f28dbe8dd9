//! The rules of one step, each as a function of the values it reads.
//!
//! Every rule is given twice, as the scalars are (see [`crate::scalar`]):
//! once as a relation that holds of whatever the scalar type's operations
//! return, and once as the value itself, for exact scalar types.

use crate::scalar::{
    exact, greater, greater_of, is_difference, is_equal, is_greater, is_lesser, is_number,
    is_product, is_quotient, is_sum, lesser, lesser_of, number, same, total, Scalar,
};
use crate::simulation::model::{
    is_mixed, mixed, Connection, Environment, Fluid, Node, SolarPanel,
};
use vstd::prelude::*;
use vstd::std_specs::ops::{AddSpec, DivSpec, MulSpec, SubSpec};

verus! {

/// `after` is `before` but for its temperature: volume, capacity,
/// insulation and position are the same.
pub open spec fn differs_in_temp_only<S>(before: Node<S>, after: Node<S>) -> bool {
    &&& after.fluid.volume == before.fluid.volume
    &&& after.capacity == before.capacity
    &&& after.insulation == before.insulation
    &&& after.position == before.position
}

/// `after` is `before` but for its volume: temperature, capacity,
/// insulation and position are the same.
pub open spec fn differs_in_volume_only<S>(before: Node<S>, after: Node<S>) -> bool {
    &&& after.fluid.temp == before.fluid.temp
    &&& after.capacity == before.capacity
    &&& after.insulation == before.insulation
    &&& after.position == before.position
}

/// `after` is `before` but for the fluid in it: capacity, insulation and
/// position are the same.
pub open spec fn differs_in_fluid_only<S>(before: Node<S>, after: Node<S>) -> bool {
    &&& after.capacity == before.capacity
    &&& after.insulation == before.insulation
    &&& after.position == before.position
}

/// `node` with the temperature `temp`.
pub open spec fn with_temp<S>(node: Node<S>, temp: S) -> Node<S> {
    Node {
        fluid: Fluid { volume: node.fluid.volume, temp },
        capacity: node.capacity,
        insulation: node.insulation,
        position: node.position,
    }
}

/// `node` with the fluid `fluid`.
pub open spec fn with_fluid<S>(node: Node<S>, fluid: Fluid<S>) -> Node<S> {
    Node { fluid, capacity: node.capacity, insulation: node.insulation, position: node.position }
}

// Heat loss

/// The temperature of `node` after it has exchanged heat with the air for
/// `dt`: one explicit Euler step towards the ambient temperature, slowed by
/// the node's insulation,
/// `temp - (temp - ambient_temp) * (1 - insulation) * dt`.
/// A long step can carry the temperature past the ambient one.
pub open spec fn cooled_temp<S: Scalar>(node: Node<S>, environment: Environment<S>, dt: S) -> S {
    let difference = node.fluid.temp.sub_spec(environment.ambient_temp);
    let leak = number::<S>(1).sub_spec(node.insulation);
    node.fluid.temp.sub_spec(difference.mul_spec(leak).mul_spec(dt))
}

/// `temp` is a value that [`cooled_temp`] may have when computed with the
/// operations of `S`.
pub open spec fn is_cooled_temp<S: Scalar>(
    node: Node<S>,
    environment: Environment<S>,
    dt: S,
    temp: S,
) -> bool {
    exists|one: S, difference: S, leak: S, slowed: S, loss: S|
        {
            &&& #[trigger] is_number(1, one)
            &&& #[trigger] is_difference(node.fluid.temp, environment.ambient_temp, difference)
            &&& #[trigger] is_difference(one, node.insulation, leak)
            &&& #[trigger] is_product(difference, leak, slowed)
            &&& #[trigger] is_product(slowed, dt, loss)
            &&& is_difference(node.fluid.temp, loss, temp)
        }
}

/// Computes the temperature of `node` after the heat-loss pass.
pub fn cool<S: Scalar>(node: &Node<S>, environment: &Environment<S>, dt: S) -> (temp: S)
    requires
        total::<S>(),
    ensures
        is_cooled_temp(*node, *environment, dt, temp),
        exact::<S>() ==> temp == cooled_temp(*node, *environment, dt),
{
    let one = S::from(1u16);
    let temp_diff = node.fluid.temp - environment.ambient_temp;
    let leak = one - node.insulation;
    let slowed = temp_diff * leak;
    let loss = slowed * dt;
    proof {
        assert(is_number(1, one));
        assert(is_difference(node.fluid.temp, environment.ambient_temp, temp_diff));
        assert(is_difference(one, node.insulation, leak));
        assert(is_product(temp_diff, leak, slowed));
        assert(is_product(slowed, dt, loss));
    }
    node.fluid.temp - loss
}

// Solar heating

/// Grams per millilitre of the fluid, which is taken to be water.
pub open spec fn density<S: Scalar>() -> S {
    number::<S>(1)
}

/// Joules that warm one gram of the fluid by one degree: 4.186, as the
/// quotient of 4186 and 1000.
pub open spec fn specific_heat<S: Scalar>() -> S {
    number::<S>(4186).div_spec(number::<S>(1000))
}

/// `heat` is a value that [`specific_heat`] may have when computed with
/// the operations of `S`.
pub open spec fn is_specific_heat<S: Scalar>(heat: S) -> bool {
    exists|joules: S, grams: S|
        {
            &&& #[trigger] is_number(4186, joules)
            &&& #[trigger] is_number(1000, grams)
            &&& is_quotient(joules, grams, heat)
        }
}

/// The energy that `panel` collects during `dt` when the sine of the sun's
/// angle is `sun_sine`,
/// `irradiance * max(sun_sine, 0) * (1 - cloud_cover) * area * dt * efficiency`.
/// A sun below the horizon contributes nothing.
pub open spec fn collected_energy<S: Scalar>(
    panel: SolarPanel<S>,
    environment: Environment<S>,
    dt: S,
    sun_sine: S,
) -> S {
    let exposure = greater_of(sun_sine, number::<S>(0));
    let clear_sky = number::<S>(1).sub_spec(environment.cloud_cover);
    environment.sun_irradiance.mul_spec(exposure).mul_spec(clear_sky).mul_spec(panel.area).mul_spec(
        dt,
    ).mul_spec(panel.efficiency)
}

/// `energy` is a value that [`collected_energy`] may have when computed
/// with the operations of `S`.
pub open spec fn is_collected_energy<S: Scalar>(
    panel: SolarPanel<S>,
    environment: Environment<S>,
    dt: S,
    sun_sine: S,
    energy: S,
) -> bool {
    exists|
        zero: S,
        exposure: S,
        one: S,
        clear_sky: S,
        direct: S,
        through_clouds: S,
        on_panel: S,
        over_time: S,
    |
        {
            &&& #[trigger] is_number(0, zero)
            &&& #[trigger] is_greater(sun_sine, zero, exposure)
            &&& #[trigger] is_number(1, one)
            &&& #[trigger] is_difference(one, environment.cloud_cover, clear_sky)
            &&& #[trigger] is_product(environment.sun_irradiance, exposure, direct)
            &&& #[trigger] is_product(direct, clear_sky, through_clouds)
            &&& #[trigger] is_product(through_clouds, panel.area, on_panel)
            &&& #[trigger] is_product(on_panel, dt, over_time)
            &&& is_product(over_time, panel.efficiency, energy)
        }
}

/// Computes the energy that `panel` collects during `dt`.
pub fn collect<S: Scalar>(
    panel: &SolarPanel<S>,
    environment: &Environment<S>,
    dt: S,
    sun_sine: S,
) -> (energy: S)
    requires
        total::<S>(),
    ensures
        is_collected_energy(*panel, *environment, dt, sun_sine, energy),
        exact::<S>() ==> energy == collected_energy(*panel, *environment, dt, sun_sine),
{
    let zero = S::from(0u16);
    let exposure = greater(sun_sine, zero);
    let one = S::from(1u16);
    let clear_sky = one - environment.cloud_cover;
    let direct = environment.sun_irradiance * exposure;
    let through_clouds = direct * clear_sky;
    let on_panel = through_clouds * panel.area;
    let over_time = on_panel * dt;
    proof {
        assert(is_number(0, zero));
        assert(is_number(1, one));
        assert(is_difference(one, environment.cloud_cover, clear_sky));
        assert(is_product(environment.sun_irradiance, exposure, direct));
        assert(is_product(direct, clear_sky, through_clouds));
        assert(is_product(through_clouds, panel.area, on_panel));
        assert(is_product(on_panel, dt, over_time));
    }
    over_time * panel.efficiency
}

/// The temperature of `node` after its panel has heated it for `dt`: the
/// collected energy warms the mass of the fluid,
/// `temp + energy / (volume * density * specific_heat)`.
/// An empty node has no mass to heat and keeps its temperature.
pub open spec fn heated_temp<S: Scalar>(
    node: Node<S>,
    panel: SolarPanel<S>,
    environment: Environment<S>,
    dt: S,
    sun_sine: S,
) -> S {
    if same(node.fluid.volume, number::<S>(0)) {
        node.fluid.temp
    } else {
        let mass = node.fluid.volume.mul_spec(density::<S>());
        let rise = collected_energy(panel, environment, dt, sun_sine).div_spec(
            mass.mul_spec(specific_heat::<S>()),
        );
        node.fluid.temp.add_spec(rise)
    }
}

/// `temp` is a value that [`heated_temp`] may have when computed with the
/// operations of `S`.
pub open spec fn is_heated_temp<S: Scalar>(
    node: Node<S>,
    panel: SolarPanel<S>,
    environment: Environment<S>,
    dt: S,
    sun_sine: S,
    temp: S,
) -> bool {
    exists|zero: S|
        {
            &&& #[trigger] is_number(0, zero)
            &&& {
                ||| is_equal(node.fluid.volume, zero, true) && temp == node.fluid.temp
                ||| is_equal(node.fluid.volume, zero, false) && exists|
                    energy: S,
                    density: S,
                    heat: S,
                    mass: S,
                    thermal_mass: S,
                    rise: S,
                |
                    {
                        &&& #[trigger] is_collected_energy(
                            panel,
                            environment,
                            dt,
                            sun_sine,
                            energy,
                        )
                        &&& #[trigger] is_number(1, density)
                        &&& #[trigger] is_specific_heat(heat)
                        &&& #[trigger] is_product(node.fluid.volume, density, mass)
                        &&& #[trigger] is_product(mass, heat, thermal_mass)
                        &&& #[trigger] is_quotient(energy, thermal_mass, rise)
                        &&& is_sum(node.fluid.temp, rise, temp)
                    }
            }
        }
}

/// Computes the temperature of `node` after its panel has heated it.
pub fn heat<S: Scalar>(
    node: &Node<S>,
    panel: &SolarPanel<S>,
    environment: &Environment<S>,
    dt: S,
    sun_sine: S,
) -> (temp: S)
    requires
        total::<S>(),
    ensures
        is_heated_temp(*node, *panel, *environment, dt, sun_sine, temp),
        exact::<S>() ==> temp == heated_temp(*node, *panel, *environment, dt, sun_sine),
{
    let zero = S::from(0u16);
    assert(is_number(0, zero));
    if node.fluid.volume == zero {
        return node.fluid.temp;
    }
    let q = collect(panel, environment, dt, sun_sine);
    // the fluid is taken to be water, and its volume to be in millilitres
    let density = S::from(1u16);
    let joules = S::from(4186u16);
    let grams = S::from(1000u16);
    let c = joules / grams;
    let m = node.fluid.volume * density;
    let thermal_mass = m * c;
    let d_temp = q / thermal_mass;
    proof {
        assert(is_number(1, density));
        assert(is_number(4186, joules));
        assert(is_number(1000, grams));
        assert(is_specific_heat(c));
        assert(is_product(node.fluid.volume, density, m));
        assert(is_product(m, c, thermal_mass));
        assert(is_quotient(q, thermal_mass, d_temp));
    }
    node.fluid.temp + d_temp
}

// Fluid transfer

/// The volume that moves along `connection` during `dt`: what the conduit
/// can carry and the input can give, but no more than the output has room
/// for,
/// `min(min(flow_rate, input volume) * dt, output capacity - output volume)`.
pub open spec fn transferred_volume<S: Scalar>(
    connection: Connection<S>,
    input: Node<S>,
    output: Node<S>,
    dt: S,
) -> S {
    let available = lesser_of(connection.flow_rate, input.fluid.volume);
    let space = output.capacity.sub_spec(output.fluid.volume);
    lesser_of(available.mul_spec(dt), space)
}

/// `amount` is a value that [`transferred_volume`] may have when computed
/// with the operations of `S`.
pub open spec fn is_transferred_volume<S: Scalar>(
    connection: Connection<S>,
    input: Node<S>,
    output: Node<S>,
    dt: S,
    amount: S,
) -> bool {
    exists|available: S, space: S, offered: S|
        {
            &&& #[trigger] is_lesser(connection.flow_rate, input.fluid.volume, available)
            &&& #[trigger] is_difference(output.capacity, output.fluid.volume, space)
            &&& #[trigger] is_product(available, dt, offered)
            &&& is_lesser(offered, space, amount)
        }
}

/// Computes the volume that moves along `connection` during `dt`.
pub fn transfer_volume<S: Scalar>(
    connection: &Connection<S>,
    input: &Node<S>,
    output: &Node<S>,
    dt: S,
) -> (amount: S)
    requires
        total::<S>(),
    ensures
        is_transferred_volume(*connection, *input, *output, dt, amount),
        exact::<S>() ==> amount == transferred_volume(*connection, *input, *output, dt),
{
    let amount_available = lesser(connection.flow_rate, input.fluid.volume);
    let space_available = output.capacity - output.fluid.volume;
    let offered = amount_available * dt;
    proof {
        assert(is_difference(output.capacity, output.fluid.volume, space_available));
        assert(is_product(amount_available, dt, offered));
    }
    lesser(offered, space_available)
}

/// The two ends of `connection` after fluid has moved along it for `dt`,
/// input first. The input gives up the volume that moves and keeps its
/// temperature; the output takes that volume in at the input's temperature.
pub open spec fn moved<S: Scalar>(
    connection: Connection<S>,
    input: Node<S>,
    output: Node<S>,
    dt: S,
) -> (Node<S>, Node<S>) {
    let amount = transferred_volume(connection, input, output, dt);
    let poured = Fluid { volume: amount, temp: input.fluid.temp };
    (
        with_fluid(
            input,
            Fluid { volume: input.fluid.volume.sub_spec(amount), temp: input.fluid.temp },
        ),
        with_fluid(output, mixed(output.fluid, poured)),
    )
}

/// `ends` is a value that [`moved`] may have when computed with the
/// operations of `S`.
pub open spec fn is_moved<S: Scalar>(
    connection: Connection<S>,
    input: Node<S>,
    output: Node<S>,
    dt: S,
    ends: (Node<S>, Node<S>),
) -> bool {
    &&& differs_in_volume_only(input, ends.0)
    &&& differs_in_fluid_only(output, ends.1)
    &&& exists|amount: S|
        {
            &&& #[trigger] is_transferred_volume(connection, input, output, dt, amount)
            &&& is_difference(input.fluid.volume, amount, ends.0.fluid.volume)
            &&& is_mixed(
                output.fluid,
                Fluid { volume: amount, temp: input.fluid.temp },
                ends.1.fluid,
            )
        }
}

/// Computes what fluid moving along `connection` for `dt` leaves at its
/// two ends: the volume left in the input, and the fluid in the output.
pub fn move_fluid<S: Scalar>(
    connection: &Connection<S>,
    input: &Node<S>,
    output: &Node<S>,
    dt: S,
) -> (left: (S, Fluid<S>))
    requires
        total::<S>(),
    ensures
        is_moved(
            *connection,
            *input,
            *output,
            dt,
            (
                with_fluid(*input, Fluid { volume: left.0, temp: input.fluid.temp }),
                with_fluid(*output, left.1),
            ),
        ),
        exact::<S>() ==> (
            with_fluid(*input, Fluid { volume: left.0, temp: input.fluid.temp }),
            with_fluid(*output, left.1),
        ) == moved(*connection, *input, *output, dt),
{
    let amount_transferred = transfer_volume(connection, input, output, dt);
    let remaining = input.fluid.volume - amount_transferred;
    let fluid_transferred = Fluid { temp: input.fluid.temp, volume: amount_transferred };
    let filled = output.fluid + fluid_transferred;
    (remaining, filled)
}

} // verus!
