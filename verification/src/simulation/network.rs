//! The mathematical model of a network: what a simulation is, apart from how
//! it is stored.

use crate::scalar::Scalar;
use crate::simulation::model::{Connection, Environment, Node, SolarPanel};
use crate::simulation::physics::{
    cooled_temp, differs_in_temp_only, heated_temp, is_cooled_temp, is_heated_temp, is_moved,
    moved, with_temp,
};
use vstd::prelude::*;

verus! {

/// A network as a value: its nodes and its connections in the order in
/// which they were added, and the panel of each node that has one.
pub struct Network<S> {
    pub nodes: Seq<Node<S>>,
    pub connections: Seq<Connection<S>>,
    pub panels: Map<usize, SolarPanel<S>>,
}

impl<S> Network<S> {
    /// The network with nothing in it.
    pub open spec fn empty() -> Network<S> {
        Network { nodes: Seq::empty(), connections: Seq::empty(), panels: Map::empty() }
    }

    /// `id` names a node of this network.
    pub open spec fn contains_node(self, id: usize) -> bool {
        id < self.nodes.len()
    }

    /// Both ends of `connection` name nodes of this network.
    pub open spec fn joins_nodes(self, connection: Connection<S>) -> bool {
        self.contains_node(connection.input) && self.contains_node(connection.output)
    }

    /// Every connection joins two nodes of the network and every panel sits
    /// on one. A network built through [`crate::simulation::Simulation`] is
    /// always so.
    pub open spec fn well_formed(self) -> bool {
        &&& forall|i: int|
            0 <= i < self.connections.len() ==> self.joins_nodes(#[trigger] self.connections[i])
        &&& forall|id: usize| #[trigger] self.panels.contains_key(id) ==> self.contains_node(id)
    }

    /// This network with `node` added behind the others.
    pub open spec fn with_node(self, node: Node<S>) -> Network<S> {
        Network { nodes: self.nodes.push(node), connections: self.connections, panels: self.panels }
    }

    /// This network with `connection` added behind the others, if it joins
    /// two of the nodes; else this network.
    pub open spec fn with_connection(self, connection: Connection<S>) -> Network<S> {
        if self.joins_nodes(connection) {
            Network {
                nodes: self.nodes,
                connections: self.connections.push(connection),
                panels: self.panels,
            }
        } else {
            self
        }
    }

    /// This network with `panel` on node `id`, in place of any panel that
    /// was there, if there is such a node; else this network.
    pub open spec fn with_panel(self, id: usize, panel: SolarPanel<S>) -> Network<S> {
        if self.contains_node(id) {
            Network {
                nodes: self.nodes,
                connections: self.connections,
                panels: self.panels.insert(id, panel),
            }
        } else {
            self
        }
    }

    /// Fluid moves along `connection`: it joins two nodes of the network,
    /// and they are not one and the same.
    pub open spec fn carries(self, connection: Connection<S>) -> bool {
        self.joins_nodes(connection) && connection.input != connection.output
    }

    /// What a renderer sees of `connection`: its flow rate, its input node
    /// and its output node.
    pub open spec fn link(self, connection: Connection<S>) -> (S, Node<S>, Node<S>) {
        (
            connection.flow_rate,
            self.nodes[connection.input as int],
            self.nodes[connection.output as int],
        )
    }

    /// The test that picks the connections whose ends both name nodes.
    pub open spec fn joined(self) -> spec_fn(Connection<S>) -> bool {
        |connection: Connection<S>| self.joins_nodes(connection)
    }

    /// The function that takes a connection to its [`Network::link`].
    pub open spec fn linked(self) -> spec_fn(Connection<S>) -> (S, Node<S>, Node<S>) {
        |connection: Connection<S>| self.link(connection)
    }

    /// The links of the connections behind the first `skipped`, in order,
    /// without those that have an end that names no node.
    pub open spec fn links_after(self, skipped: int) -> Seq<(S, Node<S>, Node<S>)> {
        if 0 <= skipped <= self.connections.len() {
            self.connections.skip(skipped).filter(self.joined()).map_values(self.linked())
        } else {
            Seq::empty()
        }
    }

    /// The links of all connections, in order, without those that have an
    /// end that names no node.
    pub open spec fn links(self) -> Seq<(S, Node<S>, Node<S>)> {
        self.links_after(0)
    }

    /// Node `id` is the input of one of `connections` that carries fluid.
    pub open spec fn drawn_by(self, connections: Seq<Connection<S>>, id: int) -> bool {
        exists|i: int|
            0 <= i < connections.len() && self.carries(#[trigger] connections[i])
                && connections[i].input == id
    }

    /// Node `id` is the output of one of `connections` that carries fluid.
    pub open spec fn fed_by(self, connections: Seq<Connection<S>>, id: int) -> bool {
        exists|i: int|
            0 <= i < connections.len() && self.carries(#[trigger] connections[i])
                && connections[i].output == id
    }
}

impl<S: Scalar> Network<S> {
    /// `after` is a network that the heat-loss pass over this one may
    /// leave, computed with the operations of `S`: every node has its
    /// cooled temperature and is otherwise as it was.
    pub open spec fn cools_to(self, environment: Environment<S>, dt: S, after: Network<S>) -> bool {
        &&& after.connections == self.connections
        &&& after.panels == self.panels
        &&& after.nodes.len() == self.nodes.len()
        &&& forall|k: int|
            0 <= k < self.nodes.len() ==> {
                &&& differs_in_temp_only(self.nodes[k], #[trigger] after.nodes[k])
                &&& is_cooled_temp(self.nodes[k], environment, dt, after.nodes[k].fluid.temp)
            }
    }

    /// `after` is a network that the solar pass over this one may leave,
    /// computed with the operations of `S`: every node with a panel has its
    /// heated temperature and is otherwise as it was, and every other node is
    /// as it was.
    pub open spec fn heats_to(
        self,
        environment: Environment<S>,
        dt: S,
        sun_sine: S,
        after: Network<S>,
    ) -> bool {
        &&& after.connections == self.connections
        &&& after.panels == self.panels
        &&& after.nodes.len() == self.nodes.len()
        &&& forall|k: int|
            0 <= k < self.nodes.len() ==> if self.panels.contains_key(k as usize) {
                &&& differs_in_temp_only(self.nodes[k], #[trigger] after.nodes[k])
                &&& is_heated_temp(
                    self.nodes[k],
                    self.panels[k as usize],
                    environment,
                    dt,
                    sun_sine,
                    after.nodes[k].fluid.temp,
                )
            } else {
                after.nodes[k] == self.nodes[k]
            }
    }

    /// `after` is a network that fluid moving along `connection` for `dt`
    /// may leave, computed with the operations of `S`. Only the two ends
    /// of the connection change, and a connection that carries nothing
    /// changes nothing.
    pub open spec fn transfers_along(
        self,
        connection: Connection<S>,
        dt: S,
        after: Network<S>,
    ) -> bool {
        &&& after.connections == self.connections
        &&& after.panels == self.panels
        &&& if self.carries(connection) {
            let input = connection.input as int;
            let output = connection.output as int;
            &&& after.nodes == self.nodes.update(input, after.nodes[input]).update(
                output,
                after.nodes[output],
            )
            &&& is_moved(
                connection,
                self.nodes[input],
                self.nodes[output],
                dt,
                (after.nodes[input], after.nodes[output]),
            )
        } else {
            after.nodes == self.nodes
        }
    }

    /// `after` is a network that fluid moving along each of `connections`
    /// in turn, first to last, may leave: each transfer starts from what the
    /// one before it left.
    pub open spec fn transfers_to(
        self,
        connections: Seq<Connection<S>>,
        dt: S,
        after: Network<S>,
    ) -> bool
        decreases connections.len(),
    {
        if connections.len() == 0 {
            after == self
        } else {
            exists|between: Network<S>|
                {
                    &&& self.transfers_to(connections.drop_last(), dt, between)
                    &&& #[trigger] between.transfers_along(connections.last(), dt, after)
                }
        }
    }

    /// `after` is a network that one whole step from this one may leave:
    /// heat loss, then solar heating, then fluid transfer over the
    /// network's own connections.
    pub open spec fn ticks_to(
        self,
        environment: Environment<S>,
        dt: S,
        sun_sine: S,
        after: Network<S>,
    ) -> bool {
        exists|cooled: Network<S>, heated: Network<S>|
            {
                &&& #[trigger] self.cools_to(environment, dt, cooled)
                &&& #[trigger] cooled.heats_to(environment, dt, sun_sine, heated)
                &&& heated.transfers_to(heated.connections, dt, after)
            }
    }

    /// The network after every node has exchanged heat with the air.
    pub open spec fn after_heat_losses(self, environment: Environment<S>, dt: S) -> Network<S> {
        Network {
            nodes: Seq::new(
                self.nodes.len(),
                |k: int| with_temp(self.nodes[k], cooled_temp(self.nodes[k], environment, dt)),
            ),
            connections: self.connections,
            panels: self.panels,
        }
    }

    /// The network after every panel has heated its node. `sun_sine` is
    /// the sine of the sun's angle.
    pub open spec fn after_solar_panels(
        self,
        environment: Environment<S>,
        dt: S,
        sun_sine: S,
    ) -> Network<S> {
        Network {
            nodes: Seq::new(
                self.nodes.len(),
                |k: int|
                    if self.panels.contains_key(k as usize) {
                        with_temp(
                            self.nodes[k],
                            heated_temp(
                                self.nodes[k],
                                self.panels[k as usize],
                                environment,
                                dt,
                                sun_sine,
                            ),
                        )
                    } else {
                        self.nodes[k]
                    },
            ),
            connections: self.connections,
            panels: self.panels,
        }
    }

    /// The network after fluid has moved along `connection` for `dt`. The
    /// input gives up the volume that moves and keeps its temperature; the
    /// output takes the volume in at the input's temperature. A connection
    /// that carries nothing changes nothing.
    pub open spec fn after_transfer(self, connection: Connection<S>, dt: S) -> Network<S> {
        if self.carries(connection) {
            let ends = moved(
                connection,
                self.nodes[connection.input as int],
                self.nodes[connection.output as int],
                dt,
            );
            Network {
                nodes: self.nodes.update(connection.input as int, ends.0).update(
                    connection.output as int,
                    ends.1,
                ),
                connections: self.connections,
                panels: self.panels,
            }
        } else {
            self
        }
    }

    /// The network after fluid has moved along each of `connections` in
    /// turn, first to last, each transfer starting from what the one before
    /// it left.
    pub open spec fn after_transfers(self, connections: Seq<Connection<S>>, dt: S) -> Network<S>
        decreases connections.len(),
    {
        if connections.len() == 0 {
            self
        } else {
            self.after_transfers(connections.drop_last(), dt).after_transfer(
                connections.last(),
                dt,
            )
        }
    }

    /// The network after the fluid-transfer pass over its own connections.
    pub open spec fn after_fluid_transfer(self, dt: S) -> Network<S> {
        self.after_transfers(self.connections, dt)
    }

    /// The network after one whole step: heat loss, then solar heating,
    /// then fluid transfer, each pass starting from what the one before it
    /// left.
    pub open spec fn after_tick(self, environment: Environment<S>, dt: S, sun_sine: S) -> Network<
        S,
    > {
        self.after_heat_losses(environment, dt).after_solar_panels(
            environment,
            dt,
            sun_sine,
        ).after_fluid_transfer(dt)
    }
}

/// Behind connection `skipped` the links are its own link, if both its ends
/// name nodes, and then the links behind the next connection.
pub proof fn lemma_links_unfold<S>(network: Network<S>, skipped: int)
    requires
        0 <= skipped < network.connections.len(),
    ensures
        network.links_after(skipped) == if network.joins_nodes(network.connections[skipped]) {
            seq![network.link(network.connections[skipped])] + network.links_after(skipped + 1)
        } else {
            network.links_after(skipped + 1)
        },
{
    let first = network.connections[skipped];
    let rest = network.connections.skip(skipped + 1);
    assert(network.connections.skip(skipped) =~= seq![first] + rest);
    rest.lemma_filter_prepend(first, network.joined());
    let kept = rest.filter(network.joined());
    if network.joins_nodes(first) {
        assert((seq![first] + kept).map_values(network.linked()) =~= seq![network.link(first)]
            + kept.map_values(network.linked()));
    } else {
        assert(Seq::<Connection<S>>::empty() + kept =~= kept);
    }
}

/// Behind the last connection there are no links.
pub proof fn lemma_links_end<S>(network: Network<S>, skipped: int)
    requires
        skipped >= network.connections.len(),
    ensures
        network.links_after(skipped) == Seq::<(S, Node<S>, Node<S>)>::empty(),
{
    if skipped == network.connections.len() {
        let none = network.connections.skip(skipped);
        assert(none =~= Seq::<Connection<S>>::empty());
        none.lemma_filter_len(network.joined());
        assert(network.links_after(skipped) =~= Seq::<(S, Node<S>, Node<S>)>::empty());
    }
}

/// A run of transfers grows by one: if the transfers along all but the last
/// of `connections` may leave `between`, and the transfer along the last
/// may lead from there to `after`, then the transfers along all of them may
/// leave `after`.
pub proof fn lemma_transfers_extend<S: Scalar>(
    network: Network<S>,
    connections: Seq<Connection<S>>,
    dt: S,
    between: Network<S>,
    after: Network<S>,
)
    requires
        connections.len() > 0,
        network.transfers_to(connections.drop_last(), dt, between),
        between.transfers_along(connections.last(), dt, after),
    ensures
        network.transfers_to(connections, dt, after),
{
}

} // verus!
