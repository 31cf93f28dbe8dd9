//! The simulator: its data model, the rules of one step, and the network
//! that owns the nodes and advances them.

pub mod reals;
pub mod laws;
pub mod model;
pub mod network;
pub mod physics;

pub use self::model::{Connection, Environment, Fluid, Node, SolarPanel};
pub use self::network::Network;

use crate::scalar::{exact, total, Scalar};
use std::collections::HashMap;
use vstd::prelude::*;

verus! {

/// A network of nodes, the connections between them and the solar panels
/// on them. Nodes and connections are only ever added, so the index that
/// [`Simulation::add_node`] returns names its node for good, and a
/// simulation that started from [`Simulation::new`] is always
/// [`Network::well_formed`].
#[derive(Debug, Clone)]
pub struct Simulation<S> {
    nodes: Vec<Node<S>>,
    connections: Vec<Connection<S>>,
    solar_panels: HashMap<usize, SolarPanel<S>>,
}

impl<S> View for Simulation<S> {
    type V = Network<S>;

    closed spec fn view(&self) -> Network<S> {
        Network {
            nodes: self.nodes@,
            connections: self.connections@,
            panels: self.solar_panels@,
        }
    }
}

impl<S> Simulation<S> {
    /// A simulation of the empty network.
    pub fn new() -> (simulation: Simulation<S>)
        ensures
            simulation@ == Network::<S>::empty(),
            simulation@.well_formed(),
    {
        Simulation { nodes: Vec::new(), connections: Vec::new(), solar_panels: HashMap::new() }
    }

    /// Adds a node and returns its index.
    pub fn add_node(
        &mut self,
        volume: S,
        temp: S,
        insulation: S,
        capacity: S,
        position: glam::Vec3,
    ) -> (id: usize)
        ensures
            id == old(self)@.nodes.len(),
            final(self)@ == old(self)@.with_node(
                Node { fluid: Fluid { volume, temp }, capacity, insulation, position },
            ),
            old(self)@.well_formed() ==> final(self)@.well_formed(),
    {
        proof {
            if self@.well_formed() {
                laws::lemma_with_node_well_formed(
                    self@,
                    Node { fluid: Fluid { volume, temp }, capacity, insulation, position },
                );
            }
        }
        let id = self.nodes.len();
        self.nodes.push(Node { fluid: Fluid { volume, temp }, insulation, capacity, position });
        id
    }

    /// The node with index `node`, if there is one.
    pub fn get_node(&self, node: usize) -> (found: Option<&Node<S>>)
        ensures
            found == if self@.contains_node(node) {
                Some(&self@.nodes[node as int])
            } else {
                None
            },
    {
        if node < self.nodes.len() {
            Some(&self.nodes[node])
        } else {
            None
        }
    }

    /// Adds a connection from node `input` to node `output`. Where either
    /// index names no node, nothing changes.
    pub fn connect_node(&mut self, input: usize, output: usize, flow_rate: S)
        ensures
            final(self)@ == old(self)@.with_connection(Connection { flow_rate, input, output }),
            old(self)@.well_formed() ==> final(self)@.well_formed(),
    {
        proof {
            if self@.well_formed() {
                laws::lemma_with_connection_well_formed(
                    self@,
                    Connection { flow_rate, input, output },
                );
            }
        }
        if input < self.nodes.len() && output < self.nodes.len() {
            self.connections.push(Connection { flow_rate, input, output });
        }
    }

    /// All nodes, in the order in which they were added.
    pub fn nodes(&self) -> (nodes: &[Node<S>])
        ensures
            nodes@ == self@.nodes,
    {
        self.nodes.as_slice()
    }

    /// All connections, in the order in which they were added.
    pub fn connections(&self) -> (connections: &[Connection<S>])
        ensures
            connections@ == self@.connections,
    {
        self.connections.as_slice()
    }

    /// The connections as a renderer wants them: one after the other, each
    /// as its flow rate, its input node and its output node. A connection
    /// with an end that names no node is left out.
    pub fn connected_nodes(&self) -> (links: IterConnections<'_, S>)
        ensures
            links.network() == self@,
            links.remaining() == self@.links(),
    {
        IterConnections { simulation: self, index: 0 }
    }

    /// Puts `panel` on node `id`, in place of any panel that was there.
    /// Where `id` names no node, nothing changes.
    pub fn attach_solar_panel(&mut self, id: usize, panel: SolarPanel<S>)
        ensures
            final(self)@ == old(self)@.with_panel(id, panel),
            old(self)@.well_formed() ==> final(self)@.well_formed(),
    {
        proof {
            if self@.well_formed() {
                laws::lemma_with_panel_well_formed(self@, id, panel);
            }
        }
        if self.contains_node(id) {
            self.solar_panels.insert(id, panel);
        }
    }

    /// Whether `id` names a node.
    pub fn contains_node(&self, id: usize) -> (found: bool)
        ensures
            found == self@.contains_node(id),
    {
        id < self.nodes.len()
    }
}

/// A walk over the connections of a simulation, made by
/// [`Simulation::connected_nodes`]. Each call of
/// [`IterConnections::next`] hands out the next link, and a new walk starts
/// from the first connection again.
pub struct IterConnections<'a, S> {
    simulation: &'a Simulation<S>,
    index: usize,
}

impl<'a, S> IterConnections<'a, S> {
    /// The network that is walked over.
    pub closed spec fn network(&self) -> Network<S> {
        self.simulation@
    }

    /// How many connections the walk has passed.
    pub closed spec fn passed(&self) -> int {
        self.index as int
    }

    /// The links that are still to come.
    pub open spec fn remaining(&self) -> Seq<(S, Node<S>, Node<S>)> {
        self.network().links_after(self.passed())
    }
}

impl<'a, S: Copy> IterConnections<'a, S> {
    /// The next link, or `None` when the walk is over.
    pub fn next(&mut self) -> (item: Option<(S, &'a Node<S>, &'a Node<S>)>)
        ensures
            final(self).network() == old(self).network(),
            match item {
                Some(link) => {
                    &&& old(self).remaining().len() > 0
                    &&& (link.0, *link.1, *link.2) == old(self).remaining().first()
                    &&& final(self).remaining() == old(self).remaining().drop_first()
                },
                None => {
                    &&& old(self).remaining().len() == 0
                    &&& final(self).remaining().len() == 0
                },
            },
    {
        let simulation: &'a Simulation<S> = self.simulation;
        while self.index < simulation.connections.len()
            invariant
                simulation == self.simulation,
                self.simulation == old(self).simulation,
                self.remaining() == old(self).remaining(),
            decreases simulation.connections@.len() - self.index,
        {
            let connection = &simulation.connections[self.index];
            proof {
                network::lemma_links_unfold(self.network(), self.passed());
            }
            self.index += 1;
            if simulation.nodes.len() > connection.input && simulation.nodes.len()
                > connection.output {
                let input = &simulation.nodes[connection.input];
                let output = &simulation.nodes[connection.output];
                return Some((connection.flow_rate, input, output));
            }
        }
        proof {
            network::lemma_links_end(self.network(), self.passed());
        }
        None
    }
}

impl<S: Scalar> Simulation<S> {
    /// Advances the simulation by one step of length `dt`: the heat-loss
    /// pass, then the solar pass, then the fluid-transfer pass, each
    /// starting from what the one before it left. `sine` is asked once for
    /// the sine of `environment.sun_angle`.
    pub fn tick<F: Fn(S) -> S>(&mut self, environment: &Environment<S>, dt: S, sine: F)
        requires
            total::<S>(),
            call_requires(sine, (environment.sun_angle,)),
        ensures
            exists|sun_sine: S|
                {
                    &&& #[trigger] call_ensures(sine, (environment.sun_angle,), sun_sine)
                    &&& old(self)@.ticks_to(*environment, dt, sun_sine, final(self)@)
                    &&& exact::<S>() ==> final(self)@ == old(self)@.after_tick(
                        *environment,
                        dt,
                        sun_sine,
                    )
                },
            final(self)@.nodes.len() == old(self)@.nodes.len(),
            final(self)@.connections == old(self)@.connections,
            final(self)@.panels == old(self)@.panels,
    {
        self.handle_heat_losses(environment, dt);
        let ghost cooled = self@;
        let sun_sine = sine(environment.sun_angle);
        self.heat_panels(environment, dt, sun_sine);
        let ghost heated = self@;
        self.handle_fluid_transfer(dt);
        proof {
            assert(old(self)@.cools_to(*environment, dt, cooled));
            assert(cooled.heats_to(*environment, dt, sun_sine, heated));
            assert(old(self)@.ticks_to(*environment, dt, sun_sine, self@));
        }
    }

    /// The heat-loss pass: every node moves towards the ambient temperature
    /// by one explicit Euler step of length `dt`,
    /// `temp - (temp - ambient_temp) * (1 - insulation) * dt`.
    pub fn handle_heat_losses(&mut self, environment: &Environment<S>, dt: S)
        requires
            total::<S>(),
        ensures
            old(self)@.cools_to(*environment, dt, final(self)@),
            exact::<S>() ==> final(self)@ == old(self)@.after_heat_losses(*environment, dt),
    {
        let mut k: usize = 0;
        while k < self.nodes.len()
            invariant
                total::<S>(),
                k <= self.nodes@.len(),
                self.nodes@.len() == old(self).nodes@.len(),
                self.connections == old(self).connections,
                self.solar_panels == old(self).solar_panels,
                forall|j: int| k <= j < self.nodes@.len() ==> self.nodes@[j] == old(self).nodes@[j],
                forall|j: int|
                    0 <= j < k ==> {
                        &&& physics::differs_in_temp_only(
                            old(self).nodes@[j],
                            #[trigger] self.nodes@[j],
                        )
                        &&& physics::is_cooled_temp(
                            old(self).nodes@[j],
                            *environment,
                            dt,
                            self.nodes@[j].fluid.temp,
                        )
                        &&& exact::<S>() ==> self.nodes@[j].fluid.temp == physics::cooled_temp(
                            old(self).nodes@[j],
                            *environment,
                            dt,
                        )
                    },
            decreases self.nodes@.len() - k,
        {
            let temp = physics::cool(&self.nodes[k], environment, dt);
            self.nodes[k].fluid.temp = temp;
            k = k + 1;
        }
        assert(exact::<S>() ==> self@.nodes =~= old(self)@.after_heat_losses(
            *environment,
            dt,
        ).nodes);
    }

    /// The solar pass for a sun whose angle has the sine `sun_sine`: every
    /// node with a panel is heated by the energy the panel collects during
    /// `dt`,
    /// `irradiance * max(sun_sine, 0) * (1 - cloud_cover) * area * dt * efficiency`,
    /// spread over the thermal mass of the node's fluid. A node that holds
    /// no fluid is passed over.
    pub fn heat_panels(&mut self, environment: &Environment<S>, dt: S, sun_sine: S)
        requires
            total::<S>(),
        ensures
            old(self)@.heats_to(*environment, dt, sun_sine, final(self)@),
            exact::<S>() ==> final(self)@ == old(self)@.after_solar_panels(
                *environment,
                dt,
                sun_sine,
            ),
    {
        let mut k: usize = 0;
        while k < self.nodes.len()
            invariant
                total::<S>(),
                k <= self.nodes@.len(),
                self.nodes@.len() == old(self).nodes@.len(),
                self.connections == old(self).connections,
                self.solar_panels == old(self).solar_panels,
                forall|j: int| k <= j < self.nodes@.len() ==> self.nodes@[j] == old(self).nodes@[j],
                forall|j: int|
                    0 <= j < k ==> if self.solar_panels@.contains_key(j as usize) {
                        &&& physics::differs_in_temp_only(
                            old(self).nodes@[j],
                            #[trigger] self.nodes@[j],
                        )
                        &&& physics::is_heated_temp(
                            old(self).nodes@[j],
                            self.solar_panels@[j as usize],
                            *environment,
                            dt,
                            sun_sine,
                            self.nodes@[j].fluid.temp,
                        )
                        &&& exact::<S>() ==> self.nodes@[j].fluid.temp == physics::heated_temp(
                            old(self).nodes@[j],
                            self.solar_panels@[j as usize],
                            *environment,
                            dt,
                            sun_sine,
                        )
                    } else {
                        self.nodes@[j] == old(self).nodes@[j]
                    },
            decreases self.nodes@.len() - k,
        {
            match self.solar_panels.get(&k) {
                Some(panel) => {
                    let temp = physics::heat(&self.nodes[k], panel, environment, dt, sun_sine);
                    self.nodes[k].fluid.temp = temp;
                },
                None => {},
            }
            k = k + 1;
        }
        assert(exact::<S>() ==> self@.nodes =~= old(self)@.after_solar_panels(
            *environment,
            dt,
            sun_sine,
        ).nodes);
    }

    /// The solar pass. The sun's angle is `environment.sun_angle`, and
    /// `sine` is asked for its sine once; the pass is then
    /// [`Simulation::heat_panels`] with that value.
    pub fn handle_solar_panels<F: Fn(S) -> S>(
        &mut self,
        environment: &Environment<S>,
        dt: S,
        sine: F,
    )
        requires
            total::<S>(),
            call_requires(sine, (environment.sun_angle,)),
        ensures
            exists|sun_sine: S|
                {
                    &&& #[trigger] call_ensures(sine, (environment.sun_angle,), sun_sine)
                    &&& old(self)@.heats_to(*environment, dt, sun_sine, final(self)@)
                    &&& exact::<S>() ==> final(self)@ == old(self)@.after_solar_panels(
                        *environment,
                        dt,
                        sun_sine,
                    )
                },
    {
        let sun_sine = sine(environment.sun_angle);
        self.heat_panels(environment, dt, sun_sine);
    }

    /// The fluid-transfer pass: fluid moves along each connection in turn,
    /// in the order in which the connections were added, and each transfer
    /// starts from what the one before it left. Along one connection moves
    /// `min(min(flow_rate, input volume) * dt, output capacity - output volume)`.
    /// A connection from a node to itself, or one whose ends name no node,
    /// is passed over.
    pub fn handle_fluid_transfer(&mut self, dt: S)
        requires
            total::<S>(),
        ensures
            old(self)@.transfers_to(old(self)@.connections, dt, final(self)@),
            exact::<S>() ==> final(self)@ == old(self)@.after_fluid_transfer(dt),
            final(self)@.nodes.len() == old(self)@.nodes.len(),
            final(self)@.connections == old(self)@.connections,
            final(self)@.panels == old(self)@.panels,
    {
        let mut i: usize = 0;
        while i < self.connections.len()
            invariant
                total::<S>(),
                i <= self.connections@.len(),
                self.connections == old(self).connections,
                old(self)@.transfers_to(old(self)@.connections.take(i as int), dt, self@),
                exact::<S>() ==> self@ == old(self)@.after_transfers(
                    old(self)@.connections.take(i as int),
                    dt,
                ),
            decreases self.connections@.len() - i,
        {
            let ghost before = self@;
            let input = self.connections[i].input;
            let output = self.connections[i].output;
            if self.contains_node(input) && self.contains_node(output) && input != output {
                let left = physics::move_fluid(
                    &self.connections[i],
                    &self.nodes[input],
                    &self.nodes[output],
                    dt,
                );
                self.nodes[input].fluid.volume = left.0;
                self.nodes[output].fluid = left.1;
            }
            proof {
                let connections = old(self)@.connections;
                assert(connections.take(i + 1).drop_last() == connections.take(i as int));
                assert(connections.take(i + 1).last() == connections[i as int]);
                if before.carries(connections[i as int]) {
                    assert(self@.nodes =~= before.nodes.update(
                        input as int,
                        self@.nodes[input as int],
                    ).update(output as int, self@.nodes[output as int]));
                }
                assert(before.transfers_along(connections.take(i + 1).last(), dt, self@));
                assert(old(self)@.transfers_to(connections.take(i + 1).drop_last(), dt, before));
                network::lemma_transfers_extend(
                    old(self)@,
                    connections.take(i + 1),
                    dt,
                    before,
                    self@,
                );
                if exact::<S>() {
                    assert(self@.nodes =~= before.after_transfer(connections[i as int], dt).nodes);
                }
            }
            i = i + 1;
        }
        assert(old(self)@.connections.take(i as int) == old(self)@.connections);
        proof {
            laws::lemma_transfers_frame(old(self)@, old(self)@.connections, dt, self@);
        }
    }
}

} // verus!
