//! The laws of the physics, for scalar types that compute like the real
//! numbers.
//!
//! A scalar type that rounds can only come close to these laws. For one
//! that does not round they hold exactly, and here they are proved of
//! every such type at once: each law takes a reading of the scalars as
//! real numbers that the operations of the type respect, and speaks of the
//! values read.

use crate::scalar::{greater_of, less, lesser_of, more, number, same, Scalar};
use crate::simulation::model::{mixed, share, Connection, Environment, Fluid, Node, SolarPanel};
use crate::simulation::network::Network;
use crate::simulation::physics::{
    collected_energy, cooled_temp, density, heated_temp, moved, specific_heat,
    transferred_volume,
};
use vstd::prelude::*;
use vstd::std_specs::ops::{AddSpec, DivSpec, MulSpec, SubSpec};

verus! {

/// `value` reads each scalar of `S` as a real number in such a way that
/// the arithmetic, the order and the equality of `S` are those of the real
/// numbers.
pub open spec fn reads_as_reals<S: Scalar>(value: spec_fn(S) -> real) -> bool {
    &&& forall|a: S, b: S| #[trigger] value(a.add_spec(b)) == value(a) + value(b)
    &&& forall|a: S, b: S| #[trigger] value(a.sub_spec(b)) == value(a) - value(b)
    &&& forall|a: S, b: S| #[trigger] value(a.mul_spec(b)) == value(a) * value(b)
    &&& forall|a: S, b: S|
        value(b) != 0real ==> #[trigger] value(a.div_spec(b)) == value(a) / value(b)
    &&& forall|a: S, b: S| #[trigger] less(a, b) == (value(a) < value(b))
    &&& forall|a: S, b: S| #[trigger] more(a, b) == (value(a) > value(b))
    &&& forall|a: S, b: S| #[trigger] same(a, b) == (value(a) == value(b))
    &&& forall|n: u16| #[trigger] value(number::<S>(n)) == n as real
}

/// The smaller of two real numbers.
pub open spec fn minimum(a: real, b: real) -> real {
    if a < b {
        a
    } else {
        b
    }
}

/// The larger of two real numbers.
pub open spec fn maximum(a: real, b: real) -> real {
    if a > b {
        a
    } else {
        b
    }
}

/// [`lesser_of`] is the minimum and [`greater_of`] the maximum.
pub proof fn lemma_lesser_and_greater<S: Scalar>(value: spec_fn(S) -> real, a: S, b: S)
    requires
        reads_as_reals(value),
    ensures
        value(lesser_of(a, b)) == minimum(value(a), value(b)),
        value(greater_of(a, b)) == maximum(value(a), value(b)),
{
    assert(same(b, b));
    assert(less(a, b) == (value(a) < value(b)));
    assert(more(a, b) == (value(a) > value(b)));
}

// Pouring fluids together

/// Pouring two fluids together adds their volumes.
pub proof fn lemma_mixing_adds_volumes<S: Scalar>(
    value: spec_fn(S) -> real,
    a: Fluid<S>,
    b: Fluid<S>,
)
    requires
        reads_as_reals(value),
    ensures
        value(mixed(a, b).volume) == value(a.volume) + value(b.volume),
{
}

/// Pouring two fluids together keeps their thermal energy, volume times
/// temperature, unless the volumes cancel; then the mixture has temperature
/// 0.
pub proof fn lemma_mixing_keeps_energy<S: Scalar>(
    value: spec_fn(S) -> real,
    a: Fluid<S>,
    b: Fluid<S>,
)
    requires
        reads_as_reals(value),
    ensures
        value(a.volume) + value(b.volume) != 0real ==> value(mixed(a, b).volume) * value(
            mixed(a, b).temp,
        ) == value(a.volume) * value(a.temp) + value(b.volume) * value(b.temp),
        value(a.volume) + value(b.volume) == 0real ==> value(mixed(a, b).temp) == 0real,
{
    let whole = a.volume.add_spec(b.volume);
    let w = value(whole);
    let (va, ta, vb, tb) = (value(a.volume), value(a.temp), value(b.volume), value(b.temp));
    assert(w == va + vb);
    assert(value(number::<S>(0)) == 0real);
    assert(same(whole, number::<S>(0)) == (w == 0real));
    if w != 0real {
        let left = share(a.temp, a.volume, whole);
        let right = share(b.temp, b.volume, whole);
        assert(value(a.temp.mul_spec(a.volume)) == ta * va);
        assert(value(b.temp.mul_spec(b.volume)) == tb * vb);
        assert(value(left) == (ta * va) / w);
        assert(value(right) == (tb * vb) / w);
        assert(value(mixed(a, b).temp) == (ta * va) / w + (tb * vb) / w);
        assert(w * ((ta * va) / w + (tb * vb) / w) == va * ta + vb * tb) by (nonlinear_arith)
            requires
                w != 0real,
        ;
    }
}

/// A mixture is no colder than the colder and no warmer than the warmer of
/// the fluids that went into it, where neither volume is negative and
/// there is something to mix.
pub proof fn lemma_mixing_averages<S: Scalar>(value: spec_fn(S) -> real, a: Fluid<S>, b: Fluid<S>)
    requires
        reads_as_reals(value),
        value(a.volume) >= 0real,
        value(b.volume) >= 0real,
        value(a.volume) + value(b.volume) > 0real,
    ensures
        minimum(value(a.temp), value(b.temp)) <= value(mixed(a, b).temp) <= maximum(
            value(a.temp),
            value(b.temp),
        ),
        value(a.volume) > 0real && value(b.volume) > 0real && value(a.temp) != value(b.temp)
            ==> minimum(value(a.temp), value(b.temp)) < value(mixed(a, b).temp) < maximum(
            value(a.temp),
            value(b.temp),
        ),
{
    lemma_mixing_keeps_energy(value, a, b);
    lemma_mixing_adds_volumes(value, a, b);
    let (va, ta, vb, tb) = (value(a.volume), value(a.temp), value(b.volume), value(b.temp));
    let t = value(mixed(a, b).temp);
    let lo = minimum(ta, tb);
    let hi = maximum(ta, tb);
    assert((va + vb) * t == va * ta + vb * tb);
    assert(lo <= t <= hi) by (nonlinear_arith)
        requires
            (va + vb) * t == va * ta + vb * tb,
            va >= 0real,
            vb >= 0real,
            va + vb > 0real,
            lo <= ta <= hi,
            lo <= tb <= hi,
    ;
    if va > 0real && vb > 0real && ta != tb {
        assert(lo < t < hi) by (nonlinear_arith)
            requires
                (va + vb) * t == va * ta + vb * tb,
                va > 0real,
                vb > 0real,
                lo <= ta <= hi,
                lo <= tb <= hi,
                (ta == lo && tb == hi) || (ta == hi && tb == lo),
                lo < hi,
        ;
    }
}

// Heat loss

/// The cooled temperature is
/// `temp - (temp - ambient_temp) * (1 - insulation) * dt`.
pub proof fn lemma_cooled_value<S: Scalar>(
    value: spec_fn(S) -> real,
    node: Node<S>,
    environment: Environment<S>,
    dt: S,
)
    requires
        reads_as_reals(value),
    ensures
        value(cooled_temp(node, environment, dt)) == value(node.fluid.temp) - (value(
            node.fluid.temp,
        ) - value(environment.ambient_temp)) * (1real - value(node.insulation)) * value(dt),
{
    let one = number::<S>(1);
    assert(value(one) == 1real);
    let difference = node.fluid.temp.sub_spec(environment.ambient_temp);
    let leak = one.sub_spec(node.insulation);
    assert(value(difference.mul_spec(leak)) == value(difference) * value(leak));
    assert(value(difference.mul_spec(leak).mul_spec(dt)) == value(difference.mul_spec(leak))
        * value(dt));
}

/// A node at the ambient temperature stays there.
pub proof fn lemma_cooling_rests_at_ambient<S: Scalar>(
    value: spec_fn(S) -> real,
    node: Node<S>,
    environment: Environment<S>,
    dt: S,
)
    requires
        reads_as_reals(value),
        value(node.fluid.temp) == value(environment.ambient_temp),
    ensures
        value(cooled_temp(node, environment, dt)) == value(node.fluid.temp),
{
    lemma_cooled_value(value, node, environment, dt);
    let (k, d) = (1real - value(node.insulation), value(dt));
    assert(0real * k * d == 0real) by (nonlinear_arith);
}

/// A node warmer than the air cools, where the step `(1 - insulation) * dt`
/// is positive. It stays above the ambient temperature where the step is
/// below 1, reaches it where the step is 1, and passes it where the step
/// is longer.
pub proof fn lemma_cooling_from_above<S: Scalar>(
    value: spec_fn(S) -> real,
    node: Node<S>,
    environment: Environment<S>,
    dt: S,
)
    requires
        reads_as_reals(value),
        value(node.fluid.temp) > value(environment.ambient_temp),
        (1real - value(node.insulation)) * value(dt) > 0real,
    ensures
        value(cooled_temp(node, environment, dt)) < value(node.fluid.temp),
        (1real - value(node.insulation)) * value(dt) < 1real ==> value(
            cooled_temp(node, environment, dt),
        ) > value(environment.ambient_temp),
        (1real - value(node.insulation)) * value(dt) == 1real ==> value(
            cooled_temp(node, environment, dt),
        ) == value(environment.ambient_temp),
        (1real - value(node.insulation)) * value(dt) > 1real ==> value(
            cooled_temp(node, environment, dt),
        ) < value(environment.ambient_temp),
{
    lemma_cooled_value(value, node, environment, dt);
    let gap = value(node.fluid.temp) - value(environment.ambient_temp);
    let (k, d) = (1real - value(node.insulation), value(dt));
    assert(gap * k * d == gap * (k * d)) by (nonlinear_arith);
    assert(gap * (k * d) > 0real) by (nonlinear_arith)
        requires
            gap > 0real,
            k * d > 0real,
    ;
    assert(k * d < 1real ==> gap * (k * d) < gap) by (nonlinear_arith)
        requires
            gap > 0real,
    ;
    assert(k * d == 1real ==> gap * (k * d) == gap) by (nonlinear_arith);
    assert(k * d > 1real ==> gap * (k * d) > gap) by (nonlinear_arith)
        requires
            gap > 0real,
    ;
}

/// A node colder than the air warms, where the step `(1 - insulation) * dt`
/// is positive. It stays below the ambient temperature where the step is
/// below 1, reaches it where the step is 1, and passes it where the step
/// is longer.
pub proof fn lemma_cooling_from_below<S: Scalar>(
    value: spec_fn(S) -> real,
    node: Node<S>,
    environment: Environment<S>,
    dt: S,
)
    requires
        reads_as_reals(value),
        value(node.fluid.temp) < value(environment.ambient_temp),
        (1real - value(node.insulation)) * value(dt) > 0real,
    ensures
        value(cooled_temp(node, environment, dt)) > value(node.fluid.temp),
        (1real - value(node.insulation)) * value(dt) < 1real ==> value(
            cooled_temp(node, environment, dt),
        ) < value(environment.ambient_temp),
        (1real - value(node.insulation)) * value(dt) == 1real ==> value(
            cooled_temp(node, environment, dt),
        ) == value(environment.ambient_temp),
        (1real - value(node.insulation)) * value(dt) > 1real ==> value(
            cooled_temp(node, environment, dt),
        ) > value(environment.ambient_temp),
{
    lemma_cooled_value(value, node, environment, dt);
    let gap = value(environment.ambient_temp) - value(node.fluid.temp);
    let (k, d) = (1real - value(node.insulation), value(dt));
    assert((0real - gap) * k * d == 0real - gap * (k * d)) by (nonlinear_arith);
    assert(gap * (k * d) > 0real) by (nonlinear_arith)
        requires
            gap > 0real,
            k * d > 0real,
    ;
    assert(k * d < 1real ==> gap * (k * d) < gap) by (nonlinear_arith)
        requires
            gap > 0real,
    ;
    assert(k * d == 1real ==> gap * (k * d) == gap) by (nonlinear_arith);
    assert(k * d > 1real ==> gap * (k * d) > gap) by (nonlinear_arith)
        requires
            gap > 0real,
    ;
}

/// The heat-loss pass over a whole network: every node keeps its volume;
/// a node at the ambient temperature stays there; and for a positive step
/// `(1 - insulation) * dt` a warmer node ends cooler and a colder node
/// warmer than it was, neither passing the ambient temperature unless the
/// step is longer than 1.
pub proof fn lemma_heat_losses_approach_ambient<S: Scalar>(
    value: spec_fn(S) -> real,
    network: Network<S>,
    environment: Environment<S>,
    dt: S,
    k: int,
)
    requires
        reads_as_reals(value),
        0 <= k < network.nodes.len(),
    ensures
        ({
            let before = network.nodes[k];
            let after = network.after_heat_losses(environment, dt).nodes[k];
            let ambient = value(environment.ambient_temp);
            let step = (1real - value(before.insulation)) * value(dt);
            &&& after.fluid.volume == before.fluid.volume
            &&& value(before.fluid.temp) == ambient ==> value(after.fluid.temp) == ambient
            &&& value(before.fluid.temp) > ambient && step > 0real ==> value(after.fluid.temp)
                < value(before.fluid.temp)
            &&& value(before.fluid.temp) > ambient && 0real < step <= 1real ==> value(
                after.fluid.temp,
            ) >= ambient
            &&& value(before.fluid.temp) < ambient && step > 0real ==> value(after.fluid.temp)
                > value(before.fluid.temp)
            &&& value(before.fluid.temp) < ambient && 0real < step <= 1real ==> value(
                after.fluid.temp,
            ) <= ambient
        }),
{
    let before = network.nodes[k];
    let ambient = value(environment.ambient_temp);
    let step = (1real - value(before.insulation)) * value(dt);
    if value(before.fluid.temp) == ambient {
        lemma_cooling_rests_at_ambient(value, before, environment, dt);
    } else if step > 0real {
        if value(before.fluid.temp) > ambient {
            lemma_cooling_from_above(value, before, environment, dt);
        } else {
            lemma_cooling_from_below(value, before, environment, dt);
        }
    }
}

// Solar heating

/// The collected energy is
/// `irradiance * max(sun_sine, 0) * (1 - cloud_cover) * area * dt * efficiency`.
pub proof fn lemma_collected_value<S: Scalar>(
    value: spec_fn(S) -> real,
    panel: SolarPanel<S>,
    environment: Environment<S>,
    dt: S,
    sun_sine: S,
)
    requires
        reads_as_reals(value),
    ensures
        value(collected_energy(panel, environment, dt, sun_sine)) == value(
            environment.sun_irradiance,
        ) * maximum(value(sun_sine), 0real) * (1real - value(environment.cloud_cover)) * value(
            panel.area,
        ) * value(dt) * value(panel.efficiency),
{
    let zero = number::<S>(0);
    let one = number::<S>(1);
    assert(value(zero) == 0real);
    assert(value(one) == 1real);
    lemma_lesser_and_greater(value, sun_sine, zero);
    let exposure = greater_of(sun_sine, zero);
    let clear_sky = one.sub_spec(environment.cloud_cover);
    let direct = environment.sun_irradiance.mul_spec(exposure);
    let through_clouds = direct.mul_spec(clear_sky);
    let on_panel = through_clouds.mul_spec(panel.area);
    let over_time = on_panel.mul_spec(dt);
    assert(value(direct) == value(environment.sun_irradiance) * value(exposure));
    assert(value(through_clouds) == value(direct) * value(clear_sky));
    assert(value(on_panel) == value(through_clouds) * value(panel.area));
    assert(value(over_time) == value(on_panel) * value(dt));
    assert(value(over_time.mul_spec(panel.efficiency)) == value(over_time) * value(
        panel.efficiency,
    ));
}

/// A panel collects no negative energy where irradiance, area, efficiency
/// and `dt` are not negative and the cloud cover is at most 1, and none at
/// all from a sun on or below the horizon.
pub proof fn lemma_collected_sign<S: Scalar>(
    value: spec_fn(S) -> real,
    panel: SolarPanel<S>,
    environment: Environment<S>,
    dt: S,
    sun_sine: S,
)
    requires
        reads_as_reals(value),
    ensures
        value(sun_sine) <= 0real ==> value(collected_energy(panel, environment, dt, sun_sine))
            == 0real,
        value(environment.sun_irradiance) >= 0real && value(environment.cloud_cover) <= 1real
            && value(panel.area) >= 0real && value(panel.efficiency) >= 0real && value(dt)
            >= 0real ==> value(collected_energy(panel, environment, dt, sun_sine)) >= 0real,
{
    lemma_collected_value(value, panel, environment, dt, sun_sine);
    let irradiance = value(environment.sun_irradiance);
    let exposure = maximum(value(sun_sine), 0real);
    let clear_sky = 1real - value(environment.cloud_cover);
    let (area, d, efficiency) = (value(panel.area), value(dt), value(panel.efficiency));
    if value(sun_sine) <= 0real {
        assert(irradiance * exposure * clear_sky * area * d * efficiency == 0real)
            by (nonlinear_arith)
            requires
                exposure == 0real,
        ;
    }
    if irradiance >= 0real && clear_sky >= 0real && area >= 0real && efficiency >= 0real && d
        >= 0real {
        assert(irradiance * exposure >= 0real) by (nonlinear_arith)
            requires
                irradiance >= 0real,
                exposure >= 0real,
        ;
        assert(irradiance * exposure * clear_sky >= 0real) by (nonlinear_arith)
            requires
                irradiance * exposure >= 0real,
                clear_sky >= 0real,
        ;
        assert(irradiance * exposure * clear_sky * area >= 0real) by (nonlinear_arith)
            requires
                irradiance * exposure * clear_sky >= 0real,
                area >= 0real,
        ;
        assert(irradiance * exposure * clear_sky * area * d >= 0real) by (nonlinear_arith)
            requires
                irradiance * exposure * clear_sky * area >= 0real,
                d >= 0real,
        ;
        assert(irradiance * exposure * clear_sky * area * d * efficiency >= 0real)
            by (nonlinear_arith)
            requires
                irradiance * exposure * clear_sky * area * d >= 0real,
                efficiency >= 0real,
        ;
    }
}

/// The heated temperature of a node that holds fluid is
/// `temp + energy / (volume * 1 * (4186 / 1000))`.
pub proof fn lemma_heated_value<S: Scalar>(
    value: spec_fn(S) -> real,
    node: Node<S>,
    panel: SolarPanel<S>,
    environment: Environment<S>,
    dt: S,
    sun_sine: S,
)
    requires
        reads_as_reals(value),
        value(node.fluid.volume) != 0real,
    ensures
        value(heated_temp(node, panel, environment, dt, sun_sine)) == value(node.fluid.temp)
            + value(collected_energy(panel, environment, dt, sun_sine)) / (value(
            node.fluid.volume,
        ) * 1real * (4186real / 1000real)),
{
    assert(value(number::<S>(0)) == 0real);
    assert(value(number::<S>(1)) == 1real);
    assert(value(number::<S>(4186)) == 4186real);
    assert(value(number::<S>(1000)) == 1000real);
    assert(!same(node.fluid.volume, number::<S>(0)));
    assert(value(specific_heat::<S>()) == 4186real / 1000real);
    let mass = node.fluid.volume.mul_spec(density::<S>());
    assert(value(mass) == value(node.fluid.volume) * 1real);
    let thermal_mass = mass.mul_spec(specific_heat::<S>());
    assert(value(thermal_mass) == value(mass) * value(specific_heat::<S>()));
    assert(value(thermal_mass) != 0real) by (nonlinear_arith)
        requires
            value(thermal_mass) == value(node.fluid.volume) * 1real * (4186real / 1000real),
            value(node.fluid.volume) != 0real,
    ;
}

/// A panel never cools its node: where the node holds some fluid and the
/// collected energy is not negative, the heated temperature is at least
/// the temperature before.
pub proof fn lemma_sun_never_cools<S: Scalar>(
    value: spec_fn(S) -> real,
    node: Node<S>,
    panel: SolarPanel<S>,
    environment: Environment<S>,
    dt: S,
    sun_sine: S,
)
    requires
        reads_as_reals(value),
        value(node.fluid.volume) >= 0real,
        value(collected_energy(panel, environment, dt, sun_sine)) >= 0real,
    ensures
        value(heated_temp(node, panel, environment, dt, sun_sine)) >= value(node.fluid.temp),
        value(collected_energy(panel, environment, dt, sun_sine)) == 0real ==> value(
            heated_temp(node, panel, environment, dt, sun_sine),
        ) == value(node.fluid.temp),
{
    assert(value(number::<S>(0)) == 0real);
    if value(node.fluid.volume) != 0real {
        lemma_heated_value(value, node, panel, environment, dt, sun_sine);
        let energy = value(collected_energy(panel, environment, dt, sun_sine));
        let thermal_mass = value(node.fluid.volume) * 1real * (4186real / 1000real);
        assert(thermal_mass > 0real) by (nonlinear_arith)
            requires
                thermal_mass == value(node.fluid.volume) * 1real * (4186real / 1000real),
                value(node.fluid.volume) > 0real,
        ;
        assert(energy / thermal_mass >= 0real) by (nonlinear_arith)
            requires
                energy >= 0real,
                thermal_mass > 0real,
        ;
        assert(energy == 0real ==> energy / thermal_mass == 0real) by (nonlinear_arith)
            requires
                thermal_mass > 0real,
        ;
    } else {
        assert(same(node.fluid.volume, number::<S>(0)));
    }
}

// Fluid transfer

/// The volume that moves is
/// `min(min(flow_rate, input volume) * dt, output capacity - output volume)`.
pub proof fn lemma_transferred_value<S: Scalar>(
    value: spec_fn(S) -> real,
    connection: Connection<S>,
    input: Node<S>,
    output: Node<S>,
    dt: S,
)
    requires
        reads_as_reals(value),
    ensures
        value(transferred_volume(connection, input, output, dt)) == minimum(
            minimum(value(connection.flow_rate), value(input.fluid.volume)) * value(dt),
            value(output.capacity) - value(output.fluid.volume),
        ),
{
    lemma_lesser_and_greater(value, connection.flow_rate, input.fluid.volume);
    let available = lesser_of(connection.flow_rate, input.fluid.volume);
    let space = output.capacity.sub_spec(output.fluid.volume);
    assert(value(available.mul_spec(dt)) == value(available) * value(dt));
    lemma_lesser_and_greater(value, available.mul_spec(dt), space);
}

/// What leaves the input arrives in the output: the two ends of a
/// connection hold as much after a transfer as before, whatever the values.
pub proof fn lemma_transfer_conserves_volume<S: Scalar>(
    value: spec_fn(S) -> real,
    connection: Connection<S>,
    input: Node<S>,
    output: Node<S>,
    dt: S,
)
    requires
        reads_as_reals(value),
    ensures
        value(moved(connection, input, output, dt).0.fluid.volume) + value(
            moved(connection, input, output, dt).1.fluid.volume,
        ) == value(input.fluid.volume) + value(output.fluid.volume),
{
    let amount = transferred_volume(connection, input, output, dt);
    lemma_mixing_adds_volumes(
        value,
        output.fluid,
        Fluid { volume: amount, temp: input.fluid.temp },
    );
}

/// `node` holds no negative volume and no more than its capacity.
pub open spec fn within_bounds<S: Scalar>(value: spec_fn(S) -> real, node: Node<S>) -> bool {
    0real <= value(node.fluid.volume) <= value(node.capacity)
}

/// A transfer keeps both ends within their bounds, where the flow rate is
/// not negative and `dt` lies between 0 and 1: the input gives no more
/// than it holds, and the output takes no more than it has room for.
pub proof fn lemma_transfer_within_bounds<S: Scalar>(
    value: spec_fn(S) -> real,
    connection: Connection<S>,
    input: Node<S>,
    output: Node<S>,
    dt: S,
)
    requires
        reads_as_reals(value),
        0real <= value(dt) <= 1real,
        value(connection.flow_rate) >= 0real,
        within_bounds(value, input),
        within_bounds(value, output),
    ensures
        0real <= value(transferred_volume(connection, input, output, dt)) <= value(
            connection.flow_rate,
        ) * value(dt),
        within_bounds(value, moved(connection, input, output, dt).0),
        within_bounds(value, moved(connection, input, output, dt).1),
        value(moved(connection, input, output, dt).0.fluid.volume) <= value(input.fluid.volume),
        value(moved(connection, input, output, dt).1.fluid.volume) >= value(
            output.fluid.volume,
        ),
{
    lemma_transferred_value(value, connection, input, output, dt);
    lemma_transfer_conserves_volume(value, connection, input, output, dt);
    let available = minimum(value(connection.flow_rate), value(input.fluid.volume));
    let d = value(dt);
    assert(0real <= available * d <= available) by (nonlinear_arith)
        requires
            0real <= available,
            0real <= d <= 1real,
    ;
    assert(available * d <= value(connection.flow_rate) * d) by (nonlinear_arith)
        requires
            available <= value(connection.flow_rate),
            0real <= d,
    ;
}

/// Every node of `nodes` is within its bounds.
pub open spec fn all_within_bounds<S: Scalar>(
    value: spec_fn(S) -> real,
    nodes: Seq<Node<S>>,
) -> bool {
    forall|k: int| 0 <= k < nodes.len() ==> within_bounds(value, #[trigger] nodes[k])
}

/// The fluid-transfer pass keeps every node within its bounds, where no
/// flow rate is negative and `dt` lies between 0 and 1: after it no node
/// holds more than its capacity, and none holds less than nothing.
pub proof fn lemma_transfers_within_bounds<S: Scalar>(
    value: spec_fn(S) -> real,
    network: Network<S>,
    connections: Seq<Connection<S>>,
    dt: S,
)
    requires
        reads_as_reals(value),
        0real <= value(dt) <= 1real,
        forall|i: int|
            0 <= i < connections.len() ==> value((#[trigger] connections[i]).flow_rate) >= 0real,
        all_within_bounds(value, network.nodes),
    ensures
        network.after_transfers(connections, dt).nodes.len() == network.nodes.len(),
        all_within_bounds(value, network.after_transfers(connections, dt).nodes),
    decreases connections.len(),
{
    if connections.len() > 0 {
        lemma_transfers_within_bounds(value, network, connections.drop_last(), dt);
        let between = network.after_transfers(connections.drop_last(), dt);
        let last = connections.last();
        assert(connections[connections.len() - 1] == last);
        if between.carries(last) {
            lemma_transfer_within_bounds(
                value,
                last,
                between.nodes[last.input as int],
                between.nodes[last.output as int],
                dt,
            );
        }
    }
}

/// The volume that all of `nodes` hold together.
pub open spec fn total_volume<S: Scalar>(value: spec_fn(S) -> real, nodes: Seq<Node<S>>) -> real
    decreases nodes.len(),
{
    if nodes.len() == 0 {
        0real
    } else {
        total_volume(value, nodes.drop_last()) + value(nodes.last().fluid.volume)
    }
}

/// Replacing one node changes the total volume by the difference of the
/// two volumes.
pub proof fn lemma_total_volume_update<S: Scalar>(
    value: spec_fn(S) -> real,
    nodes: Seq<Node<S>>,
    k: int,
    node: Node<S>,
)
    requires
        0 <= k < nodes.len(),
    ensures
        total_volume(value, nodes.update(k, node)) == total_volume(value, nodes) - value(
            nodes[k].fluid.volume,
        ) + value(node.fluid.volume),
    decreases nodes.len(),
{
    let updated = nodes.update(k, node);
    if k == nodes.len() - 1 {
        assert(updated.drop_last() =~= nodes.drop_last());
    } else {
        assert(updated.drop_last() =~= nodes.drop_last().update(k, node));
        lemma_total_volume_update(value, nodes.drop_last(), k, node);
    }
}

/// The fluid-transfer pass neither makes nor loses fluid: the nodes hold
/// as much together after it as before, whatever the values.
pub proof fn lemma_transfers_conserve_volume<S: Scalar>(
    value: spec_fn(S) -> real,
    network: Network<S>,
    connections: Seq<Connection<S>>,
    dt: S,
)
    requires
        reads_as_reals(value),
    ensures
        network.after_transfers(connections, dt).nodes.len() == network.nodes.len(),
        total_volume(value, network.after_transfers(connections, dt).nodes) == total_volume(
            value,
            network.nodes,
        ),
    decreases connections.len(),
{
    if connections.len() > 0 {
        lemma_transfers_conserve_volume(value, network, connections.drop_last(), dt);
        let between = network.after_transfers(connections.drop_last(), dt);
        let last = connections.last();
        if between.carries(last) {
            let input = last.input as int;
            let output = last.output as int;
            let ends = moved(last, between.nodes[input], between.nodes[output], dt);
            lemma_transfer_conserves_volume(
                value,
                last,
                between.nodes[input],
                between.nodes[output],
                dt,
            );
            lemma_total_volume_update(value, between.nodes, input, ends.0);
            lemma_total_volume_update(
                value,
                between.nodes.update(input, ends.0),
                output,
                ends.1,
            );
        }
    }
}

} // verus!
