//! What holds of every network and every step, proved from the definitions.

use crate::scalar::{exact, is_sum, number, same, Scalar};
use crate::simulation::model::{is_mixed, mixed, Connection, Environment, Fluid, Node, SolarPanel};
use crate::simulation::network::{lemma_links_end, lemma_links_unfold, Network};
use crate::simulation::physics::{differs_in_fluid_only, heated_temp, is_heated_temp};
use vstd::prelude::*;
use vstd::std_specs::cmp::PartialEqSpec;
use vstd::std_specs::convert::FromSpec;
use vstd::std_specs::ops::AddSpec;

verus! {

// Building a network

/// The empty network is well formed.
pub proof fn lemma_empty_well_formed<S>()
    ensures
        Network::<S>::empty().well_formed(),
{
}

/// Adding a node keeps a network well formed.
pub proof fn lemma_with_node_well_formed<S>(network: Network<S>, node: Node<S>)
    requires
        network.well_formed(),
    ensures
        network.with_node(node).well_formed(),
{
    let grown = network.with_node(node);
    assert forall|i: int| 0 <= i < grown.connections.len() implies grown.joins_nodes(
        #[trigger] grown.connections[i],
    ) by {
        assert(network.joins_nodes(network.connections[i]));
    }
}

/// Adding a connection keeps a network well formed, whatever the indices
/// that were asked for.
pub proof fn lemma_with_connection_well_formed<S>(network: Network<S>, connection: Connection<S>)
    requires
        network.well_formed(),
    ensures
        network.with_connection(connection).well_formed(),
{
    let grown = network.with_connection(connection);
    assert forall|i: int| 0 <= i < grown.connections.len() implies grown.joins_nodes(
        #[trigger] grown.connections[i],
    ) by {
        if i < network.connections.len() {
            assert(network.joins_nodes(network.connections[i]));
        }
    }
}

/// Attaching a panel keeps a network well formed, whatever the index that
/// was asked for.
pub proof fn lemma_with_panel_well_formed<S>(network: Network<S>, id: usize, panel: SolarPanel<S>)
    requires
        network.well_formed(),
    ensures
        network.with_panel(id, panel).well_formed(),
{
    let grown = network.with_panel(id, panel);
    assert forall|i: int| 0 <= i < grown.connections.len() implies grown.joins_nodes(
        #[trigger] grown.connections[i],
    ) by {
        assert(network.joins_nodes(network.connections[i]));
    }
}

/// A connection with an end that names no node is not added: the network
/// stays as it is.
pub proof fn lemma_stray_connection_refused<S>(network: Network<S>, connection: Connection<S>)
    requires
        !network.contains_node(connection.input) || !network.contains_node(connection.output),
    ensures
        network.with_connection(connection) == network,
{
}

/// A panel for a node that is not there is not attached: the network stays
/// as it is.
pub proof fn lemma_stray_panel_refused<S>(network: Network<S>, id: usize, panel: SolarPanel<S>)
    requires
        !network.contains_node(id),
    ensures
        network.with_panel(id, panel) == network,
{
}

/// A connection from a node to itself is added like any other.
pub proof fn lemma_loop_accepted<S>(network: Network<S>, id: usize, flow_rate: S)
    requires
        network.contains_node(id),
    ensures
        network.with_connection(Connection { flow_rate, input: id, output: id }).connections
            == network.connections.push(Connection { flow_rate, input: id, output: id }),
{
}

// Walking the connections

/// Every link is the link of a connection whose ends both name nodes: a
/// walk never reaches for a node that is not there.
pub proof fn lemma_links_join_nodes<S>(network: Network<S>, skipped: int, i: int)
    requires
        0 <= skipped,
        0 <= i < network.links_after(skipped).len(),
    ensures
        exists|j: int|
            skipped <= j < network.connections.len() && network.joins_nodes(
                #[trigger] network.connections[j],
            ) && network.links_after(skipped)[i] == network.link(network.connections[j]),
    decreases network.connections.len() - skipped,
{
    if skipped >= network.connections.len() {
        lemma_links_end(network, skipped);
    } else {
        lemma_links_unfold(network, skipped);
        if network.joins_nodes(network.connections[skipped]) && i == 0 {
            assert(network.links_after(skipped)[i] == network.link(network.connections[skipped]));
        } else {
            let rest = if network.joins_nodes(network.connections[skipped]) {
                i - 1
            } else {
                i
            };
            lemma_links_join_nodes(network, skipped + 1, rest);
            let j = choose|j: int|
                skipped + 1 <= j < network.connections.len() && network.joins_nodes(
                    #[trigger] network.connections[j],
                ) && network.links_after(skipped + 1)[rest] == network.link(
                    network.connections[j],
                );
            assert(network.links_after(skipped)[i] == network.link(network.connections[j]));
        }
    }
}

/// In a well-formed network a walk leaves nothing out: behind connection
/// `skipped` there is one link for each connection, in the same order.
pub proof fn lemma_links_complete<S>(network: Network<S>, skipped: int)
    requires
        network.well_formed(),
        0 <= skipped <= network.connections.len(),
    ensures
        network.links_after(skipped).len() == network.connections.len() - skipped,
        forall|i: int|
            0 <= i < network.connections.len() - skipped ==> #[trigger] network.links_after(
                skipped,
            )[i] == network.link(network.connections[skipped + i]),
    decreases network.connections.len() - skipped,
{
    if skipped == network.connections.len() {
        lemma_links_end(network, skipped);
    } else {
        lemma_links_unfold(network, skipped);
        lemma_links_complete(network, skipped + 1);
        assert(network.joins_nodes(network.connections[skipped]));
        assert forall|i: int| 0 <= i < network.connections.len() - skipped implies
            #[trigger] network.links_after(skipped)[i] == network.link(
            network.connections[skipped + i],
        ) by {
            if i > 0 {
                assert(network.links_after(skipped)[i] == network.links_after(skipped + 1)[i - 1]);
            }
        }
    }
}

// Pouring fluids together

/// Pouring two fluids together adds their volumes, whatever the volumes
/// and temperatures are.
pub proof fn lemma_mixed_volume<S: Scalar>(a: Fluid<S>, b: Fluid<S>, mixture: Fluid<S>)
    requires
        is_mixed(a, b, mixture),
    ensures
        is_sum(a.volume, b.volume, mixture.volume),
        exact::<S>() ==> mixture.volume == a.volume.add_spec(b.volume),
        exact::<S>() ==> mixture == mixed(a, b),
{
}

/// A mixture of no volume has temperature 0, whatever the temperatures of
/// the fluids that went into it.
pub proof fn lemma_mixed_nothing<S: Scalar>(a: Fluid<S>, b: Fluid<S>, mixture: Fluid<S>)
    requires
        S::obeys_eq_spec(),
        S::obeys_from_spec(),
        is_mixed(a, b, mixture),
        same(mixture.volume, number::<S>(0)),
    ensures
        mixture.temp == number::<S>(0),
{
}

/// Two fluids of volume 0 pour together to a fluid of temperature 0, in
/// every exact scalar type in which 0 + 0 equals 0.
pub proof fn lemma_mixed_empty<S: Scalar>(a: Fluid<S>, b: Fluid<S>)
    requires
        exact::<S>(),
        a.volume == number::<S>(0),
        b.volume == number::<S>(0),
        same(number::<S>(0).add_spec(number::<S>(0)), number::<S>(0)),
    ensures
        mixed(a, b).temp == number::<S>(0),
{
}

// Solar heating

/// A node that holds no fluid keeps its temperature under a panel, for
/// every scalar type that tests equality and converts whole numbers
/// exactly.
pub proof fn lemma_empty_node_not_heated<S: Scalar>(
    node: Node<S>,
    panel: SolarPanel<S>,
    environment: Environment<S>,
    dt: S,
    sun_sine: S,
    temp: S,
)
    requires
        S::obeys_eq_spec(),
        S::obeys_from_spec(),
        same(node.fluid.volume, number::<S>(0)),
        is_heated_temp(node, panel, environment, dt, sun_sine, temp),
    ensures
        temp == node.fluid.temp,
        heated_temp(node, panel, environment, dt, sun_sine) == node.fluid.temp,
{
}

/// The solar pass leaves a node that holds no fluid exactly as it was,
/// panel or no panel.
pub proof fn lemma_empty_node_skipped<S: Scalar>(
    network: Network<S>,
    environment: Environment<S>,
    dt: S,
    sun_sine: S,
    after: Network<S>,
    id: int,
)
    requires
        S::obeys_eq_spec(),
        S::obeys_from_spec(),
        network.heats_to(environment, dt, sun_sine, after),
        0 <= id < network.nodes.len(),
        same(network.nodes[id].fluid.volume, number::<S>(0)),
    ensures
        after.nodes[id] == network.nodes[id],
{
    if network.panels.contains_key(id as usize) {
        lemma_empty_node_not_heated(
            network.nodes[id],
            network.panels[id as usize],
            environment,
            dt,
            sun_sine,
            after.nodes[id].fluid.temp,
        );
    }
}

// Exact scalar types

/// For an exact scalar type the heat-loss pass has one outcome, the one
/// that [`Network::after_heat_losses`] gives.
pub proof fn lemma_heat_losses_exact<S: Scalar>(
    network: Network<S>,
    environment: Environment<S>,
    dt: S,
    after: Network<S>,
)
    requires
        exact::<S>(),
        network.cools_to(environment, dt, after),
    ensures
        after == network.after_heat_losses(environment, dt),
{
    assert(after.nodes =~= network.after_heat_losses(environment, dt).nodes);
}

/// For an exact scalar type the solar pass has one outcome, the one that
/// [`Network::after_solar_panels`] gives.
pub proof fn lemma_solar_panels_exact<S: Scalar>(
    network: Network<S>,
    environment: Environment<S>,
    dt: S,
    sun_sine: S,
    after: Network<S>,
)
    requires
        exact::<S>(),
        network.heats_to(environment, dt, sun_sine, after),
    ensures
        after == network.after_solar_panels(environment, dt, sun_sine),
{
    assert(after.nodes =~= network.after_solar_panels(environment, dt, sun_sine).nodes);
}

/// For an exact scalar type the transfer along one connection has one
/// outcome, the one that [`Network::after_transfer`] gives.
pub proof fn lemma_transfer_exact<S: Scalar>(
    network: Network<S>,
    connection: Connection<S>,
    dt: S,
    after: Network<S>,
)
    requires
        exact::<S>(),
        network.transfers_along(connection, dt, after),
    ensures
        after == network.after_transfer(connection, dt),
{
    assert(after.nodes =~= network.after_transfer(connection, dt).nodes);
}

/// For an exact scalar type a run of transfers has one outcome, the one
/// that [`Network::after_transfers`] gives.
pub proof fn lemma_transfers_exact<S: Scalar>(
    network: Network<S>,
    connections: Seq<Connection<S>>,
    dt: S,
    after: Network<S>,
)
    requires
        exact::<S>(),
        network.transfers_to(connections, dt, after),
    ensures
        after == network.after_transfers(connections, dt),
    decreases connections.len(),
{
    if connections.len() > 0 {
        let between = choose|between: Network<S>|
            {
                &&& network.transfers_to(connections.drop_last(), dt, between)
                &&& #[trigger] between.transfers_along(connections.last(), dt, after)
            };
        lemma_transfers_exact(network, connections.drop_last(), dt, between);
        lemma_transfer_exact(between, connections.last(), dt, after);
    }
}

/// For an exact scalar type one whole step has one outcome, the one that
/// [`Network::after_tick`] gives.
pub proof fn lemma_tick_exact<S: Scalar>(
    network: Network<S>,
    environment: Environment<S>,
    dt: S,
    sun_sine: S,
    after: Network<S>,
)
    requires
        exact::<S>(),
        network.ticks_to(environment, dt, sun_sine, after),
    ensures
        after == network.after_tick(environment, dt, sun_sine),
{
    let (cooled, heated) = choose|cooled: Network<S>, heated: Network<S>|
        {
            &&& #[trigger] network.cools_to(environment, dt, cooled)
            &&& #[trigger] cooled.heats_to(environment, dt, sun_sine, heated)
            &&& heated.transfers_to(heated.connections, dt, after)
        };
    lemma_heat_losses_exact(network, environment, dt, cooled);
    lemma_solar_panels_exact(cooled, environment, dt, sun_sine, heated);
    lemma_transfers_exact(heated, heated.connections, dt, after);
}

// What a step leaves alone

/// One whole step keeps the number of nodes, the connections and the
/// panels, and of each node its capacity, insulation and position. A
/// well-formed network stays well formed.
pub proof fn lemma_tick_frame<S: Scalar>(
    network: Network<S>,
    environment: Environment<S>,
    dt: S,
    sun_sine: S,
    after: Network<S>,
)
    requires
        network.ticks_to(environment, dt, sun_sine, after),
    ensures
        after.nodes.len() == network.nodes.len(),
        after.connections == network.connections,
        after.panels == network.panels,
        forall|k: int|
            0 <= k < network.nodes.len() ==> differs_in_fluid_only(
                network.nodes[k],
                #[trigger] after.nodes[k],
            ),
        network.well_formed() ==> after.well_formed(),
{
    let (cooled, heated) = choose|cooled: Network<S>, heated: Network<S>|
        {
            &&& #[trigger] network.cools_to(environment, dt, cooled)
            &&& #[trigger] cooled.heats_to(environment, dt, sun_sine, heated)
            &&& heated.transfers_to(heated.connections, dt, after)
        };
    lemma_transfers_frame(heated, heated.connections, dt, after);
    assert forall|k: int| 0 <= k < network.nodes.len() implies differs_in_fluid_only(
        network.nodes[k],
        #[trigger] after.nodes[k],
    ) by {
        assert(differs_in_fluid_only(network.nodes[k], cooled.nodes[k]));
        assert(differs_in_fluid_only(cooled.nodes[k], heated.nodes[k]));
        assert(differs_in_fluid_only(heated.nodes[k], after.nodes[k]));
    }
    if network.well_formed() {
        assert forall|i: int| 0 <= i < after.connections.len() implies after.joins_nodes(
            #[trigger] after.connections[i],
        ) by {
            assert(network.joins_nodes(network.connections[i]));
        }
    }
}


/// Fluid moving along a connection from a node to itself, or along one
/// with an end that names no node, changes nothing.
pub proof fn lemma_idle_connection<S: Scalar>(
    network: Network<S>,
    connection: Connection<S>,
    dt: S,
    after: Network<S>,
)
    requires
        !network.joins_nodes(connection) || connection.input == connection.output,
        network.transfers_along(connection, dt, after),
    ensures
        after == network,
        network.after_transfer(connection, dt) == network,
{
}

/// A run of transfers keeps the number of nodes, the connections and the
/// panels. Of each node it keeps capacity, insulation and position; it
/// keeps the temperature of a node into which none of the connections
/// carries fluid, and all of a node that none of them touches.
pub proof fn lemma_transfers_frame<S: Scalar>(
    network: Network<S>,
    connections: Seq<Connection<S>>,
    dt: S,
    after: Network<S>,
)
    requires
        network.transfers_to(connections, dt, after),
    ensures
        after.nodes.len() == network.nodes.len(),
        after.connections == network.connections,
        after.panels == network.panels,
        forall|k: int|
            0 <= k < network.nodes.len() ==> differs_in_fluid_only(
                network.nodes[k],
                #[trigger] after.nodes[k],
            ),
        forall|k: int|
            0 <= k < network.nodes.len() && !network.fed_by(connections, k) ==> (
            #[trigger] after.nodes[k]).fluid.temp == network.nodes[k].fluid.temp,
        forall|k: int|
            0 <= k < network.nodes.len() && !network.fed_by(connections, k) && !network.drawn_by(
                connections,
                k,
            ) ==> #[trigger] after.nodes[k] == network.nodes[k],
    decreases connections.len(),
{
    if connections.len() > 0 {
        let between = choose|between: Network<S>|
            {
                &&& network.transfers_to(connections.drop_last(), dt, between)
                &&& #[trigger] between.transfers_along(connections.last(), dt, after)
            };
        lemma_transfers_frame(network, connections.drop_last(), dt, between);
        let last = connections.last();
        assert(connections[connections.len() - 1] == last);
        assert forall|k: int|
            0 <= k < network.nodes.len() && !network.fed_by(connections, k) implies (
        #[trigger] after.nodes[k]).fluid.temp == network.nodes[k].fluid.temp by {
            assert(!network.fed_by(connections.drop_last(), k)) by {
                if network.fed_by(connections.drop_last(), k) {
                    let i = choose|i: int|
                        0 <= i < connections.drop_last().len() && network.carries(
                            #[trigger] connections.drop_last()[i],
                        ) && connections.drop_last()[i].output == k;
                    assert(connections[i] == connections.drop_last()[i]);
                }
            }
        }
        assert forall|k: int|
            0 <= k < network.nodes.len() && !network.fed_by(connections, k) && !network.drawn_by(
                connections,
                k,
            ) implies #[trigger] after.nodes[k] == network.nodes[k] by {
            assert(!network.fed_by(connections.drop_last(), k)) by {
                if network.fed_by(connections.drop_last(), k) {
                    let i = choose|i: int|
                        0 <= i < connections.drop_last().len() && network.carries(
                            #[trigger] connections.drop_last()[i],
                        ) && connections.drop_last()[i].output == k;
                    assert(connections[i] == connections.drop_last()[i]);
                }
            }
            assert(!network.drawn_by(connections.drop_last(), k)) by {
                if network.drawn_by(connections.drop_last(), k) {
                    let i = choose|i: int|
                        0 <= i < connections.drop_last().len() && network.carries(
                            #[trigger] connections.drop_last()[i],
                        ) && connections.drop_last()[i].input == k;
                    assert(connections[i] == connections.drop_last()[i]);
                }
            }
        }
    }
}

} // verus!
