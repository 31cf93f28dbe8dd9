use thermal_network::scalar::{greater, lesser};
use thermal_network::simulation::physics::{collect, cool, heat, move_fluid, transfer_volume};
use thermal_network::simulation::{Connection, Environment, Fluid, Node, Simulation, SolarPanel};

fn environment() -> Environment<f32> {
    Environment {
        sun_angle: core::f32::consts::FRAC_PI_2,
        sun_irradiance: 1000.0,
        cloud_cover: 0.0,
        ambient_temp: 20.0,
    }
}

fn node(volume: f32, temp: f32, insulation: f32, capacity: f32) -> Node<f32> {
    Node {
        fluid: Fluid { volume, temp },
        capacity,
        insulation,
        position: glam::Vec3::ZERO,
    }
}

fn fluids(sim: &Simulation<f32>) -> Vec<(f32, f32)> {
    sim.nodes()
        .iter()
        .map(|n| (n.fluid.volume, n.fluid.temp))
        .collect()
}

// scalars

#[test]
fn lesser_and_greater_pick_an_operand() {
    assert_eq!(lesser(1.0f32, 2.0), 1.0);
    assert_eq!(lesser(2.0f32, 1.0), 1.0);
    assert_eq!(lesser(-3.0f32, -3.0), -3.0);
    assert_eq!(greater(1.0f32, 2.0), 2.0);
    assert_eq!(greater(2.0f32, 1.0), 2.0);
    assert_eq!(lesser(f32::NEG_INFINITY, 0.0), f32::NEG_INFINITY);
    assert_eq!(greater(f32::INFINITY, 0.0), f32::INFINITY);
    assert_eq!(lesser(7u16 as f64, 3u16 as f64), 3.0);
}

#[test]
fn lesser_and_greater_pass_over_what_is_not_a_number() {
    assert_eq!(lesser(f32::NAN, 1.0), 1.0);
    assert_eq!(lesser(1.0, f32::NAN), 1.0);
    assert_eq!(greater(f32::NAN, 1.0), 1.0);
    assert_eq!(greater(1.0, f32::NAN), 1.0);
    assert!(lesser(f32::NAN, f32::NAN).is_nan());
    assert!(greater(f32::NAN, f32::NAN).is_nan());
}

#[test]
fn lesser_and_greater_agree_with_min_and_max() {
    let values = [
        -f32::INFINITY,
        -2.5,
        -0.0,
        0.0,
        1.0e-30,
        1.0,
        3.75,
        f32::MAX,
        f32::INFINITY,
        f32::NAN,
    ];
    for a in values {
        for b in values {
            let (low, high) = (lesser(a, b), greater(a, b));
            if a.min(b).is_nan() {
                assert!(low.is_nan() && high.is_nan());
            } else {
                assert_eq!(low, a.min(b));
                assert_eq!(high, a.max(b));
            }
        }
    }
}

// pouring fluids together

#[test]
fn fluid_add_sums_the_volumes() {
    let a: Fluid<f32> = Fluid {
        volume: 2.5,
        temp: 10.0,
    };
    let b: Fluid<f32> = Fluid {
        volume: 0.25,
        temp: -40.0,
    };
    assert_eq!((a + b).volume, 2.75);
    assert_eq!((b + a).volume, 2.75);
}

#[test]
fn fluid_add_of_two_empty_fluids_has_temperature_zero() {
    let a: Fluid<f32> = Fluid {
        volume: 0.0,
        temp: 35.0,
    };
    let b: Fluid<f32> = Fluid {
        volume: 0.0,
        temp: -12.0,
    };
    assert_eq!(
        a + b,
        Fluid {
            volume: 0.0,
            temp: 0.0
        }
    );
}

#[test]
fn fluid_add_of_volumes_that_cancel_has_temperature_zero() {
    let a: Fluid<f32> = Fluid {
        volume: 3.0,
        temp: 35.0,
    };
    let b: Fluid<f32> = Fluid {
        volume: -3.0,
        temp: 80.0,
    };
    assert_eq!(
        a + b,
        Fluid {
            volume: 0.0,
            temp: 0.0
        }
    );
}

#[test]
fn fluid_add_into_an_empty_fluid_takes_the_other_temperature() {
    let empty: Fluid<f32> = Fluid {
        volume: 0.0,
        temp: 99.0,
    };
    let b: Fluid<f32> = Fluid {
        volume: 4.0,
        temp: 60.0,
    };
    assert_eq!(
        empty + b,
        Fluid {
            volume: 4.0,
            temp: 60.0
        }
    );
}

#[test]
fn fluid_add_keeps_thermal_energy() {
    let a: Fluid<f32> = Fluid {
        volume: 2.0,
        temp: 30.0,
    };
    let b: Fluid<f32> = Fluid {
        volume: 0.5,
        temp: 90.0,
    };
    let mixture = a + b;
    assert_eq!(mixture.volume, 2.5);
    assert_eq!(mixture.temp, 42.0);
    assert_eq!(
        mixture.volume * mixture.temp,
        a.volume * a.temp + b.volume * b.temp
    );
}

#[test]
fn fluid_add_works_for_other_scalars() {
    let a: Fluid<f64> = Fluid {
        volume: 1.0,
        temp: 30.0,
    };
    let b: Fluid<f64> = Fluid {
        volume: 2.0,
        temp: 90.0,
    };
    assert_eq!(
        a + b,
        Fluid {
            volume: 3.0,
            temp: 70.0
        }
    );
}

// heat loss

#[test]
fn cool_takes_one_euler_step() {
    let env = environment();
    assert_eq!(cool(&node(1.0, 100.0, 0.5, 10.0), &env, 0.25), 90.0);
    assert_eq!(cool(&node(1.0, 4.0, 0.5, 10.0), &env, 0.5), 8.0);
    assert_eq!(cool(&node(1.0, 100.0, 0.0, 10.0), &env, 1.0), 20.0);
}

#[test]
fn cool_leaves_ambient_temperature_alone() {
    let env = environment();
    assert_eq!(cool(&node(1.0, 20.0, 0.0, 10.0), &env, 0.75), 20.0);
    assert_eq!(cool(&node(1.0, 20.0, 0.9, 10.0), &env, 100.0), 20.0);
}

#[test]
fn cool_with_full_insulation_changes_nothing() {
    let env = environment();
    assert_eq!(cool(&node(1.0, 100.0, 1.0, 10.0), &env, 0.5), 100.0);
}

#[test]
fn cool_with_a_long_step_overshoots() {
    let env = environment();
    // dt * (1 - insulation) = 2: the step passes the ambient temperature
    assert_eq!(cool(&node(1.0, 100.0, 0.0, 10.0), &env, 2.0), -60.0);
}

#[test]
fn cool_with_negative_dt_runs_backwards() {
    let env = environment();
    assert_eq!(cool(&node(1.0, 100.0, 0.5, 10.0), &env, -0.25), 110.0);
}

#[test]
fn cool_rounds_as_the_scalar_type_does() {
    let env = environment();
    assert_eq!(
        cool(&node(1.0, 100.0, 0.9, 10.0), &env, 0.1),
        99.19999694824219
    );
}

#[test]
fn heat_loss_moves_every_node_towards_ambient() {
    let env = environment();
    let mut sim: Simulation<f32> = Simulation::new();
    sim.add_node(1.0, 100.0, 0.5, 10.0, glam::Vec3::ZERO);
    sim.add_node(2.0, 20.0, 0.5, 10.0, glam::Vec3::X);
    sim.add_node(3.0, 4.0, 0.0, 10.0, glam::Vec3::Y);
    sim.connect_node(0, 1, 1.0);
    sim.attach_solar_panel(
        2,
        SolarPanel {
            area: 1.0,
            efficiency: 1.0,
        },
    );

    sim.handle_heat_losses(&env, 0.25);

    assert_eq!(fluids(&sim), vec![(1.0, 90.0), (2.0, 20.0), (3.0, 8.0)]);
    assert_eq!(sim.nodes()[2].position, glam::Vec3::Y);
    assert_eq!(sim.nodes()[0].capacity, 10.0);
    assert_eq!(sim.nodes()[0].insulation, 0.5);
    assert_eq!(sim.connections().len(), 1);
}

#[test]
fn heat_loss_conserves_direction_for_short_steps() {
    let env = environment();
    for insulation in [0.0f32, 0.25, 0.5, 0.9] {
        for dt in [0.01f32, 0.1, 0.5, 1.0] {
            for temp in [21.0f32, 50.0, 100.0, 1000.0] {
                let after = cool(&node(1.0, temp, insulation, 10.0), &env, dt);
                assert!(after < temp);
                assert!(after >= env.ambient_temp);
            }
        }
    }
}

// solar heating

#[test]
fn collect_multiplies_the_factors() {
    let env = Environment {
        sun_angle: 0.0,
        sun_irradiance: 1000.0,
        cloud_cover: 0.25,
        ambient_temp: 20.0,
    };
    let panel = SolarPanel {
        area: 2.0,
        efficiency: 0.5,
    };
    assert_eq!(collect(&panel, &env, 4.0, 0.5f32), 1500.0);
    assert_eq!(collect(&panel, &env, 4.0, 1.0f32), 3000.0);
}

#[test]
fn collect_gets_nothing_from_a_sun_below_the_horizon() {
    let env = environment();
    let panel = SolarPanel {
        area: 2.0,
        efficiency: 0.5,
    };
    assert_eq!(collect(&panel, &env, 4.0, -0.5f32), 0.0);
    assert_eq!(collect(&panel, &env, 4.0, 0.0f32), 0.0);
}

#[test]
fn collect_gets_nothing_under_full_cloud_cover() {
    let env = Environment {
        sun_angle: 0.0,
        sun_irradiance: 1000.0,
        cloud_cover: 1.0,
        ambient_temp: 20.0,
    };
    let panel = SolarPanel {
        area: 2.0,
        efficiency: 0.5,
    };
    assert_eq!(collect(&panel, &env, 4.0, 1.0f32), 0.0);
}

#[test]
fn heat_warms_water() {
    let env = Environment {
        sun_angle: 0.0,
        sun_irradiance: 1000.0,
        cloud_cover: 0.25,
        ambient_temp: 20.0,
    };
    let panel = SolarPanel {
        area: 2.0,
        efficiency: 0.5,
    };
    let warmed = heat(&node(250.0, 50.0, 1.0, 1000.0), &panel, &env, 4.0, 0.5f32);
    assert_eq!(warmed, 50.0 + 1500.0 / (250.0 * 1.0 * 4.186));
    assert_eq!(warmed, 51.433349609375);
}

#[test]
fn heat_passes_over_an_empty_node() {
    let env = environment();
    let panel = SolarPanel {
        area: 2.0,
        efficiency: 0.5,
    };
    assert_eq!(heat(&node(0.0, 50.0, 1.0, 1000.0), &panel, &env, 4.0, 1.0f32), 50.0);
    assert_eq!(heat(&node(-0.0, 50.0, 1.0, 1000.0), &panel, &env, 4.0, 1.0f32), 50.0);
}

#[test]
fn solar_pass_heats_only_nodes_with_panels() {
    let env = environment();
    let mut sim: Simulation<f32> = Simulation::new();
    sim.add_node(1000.0, 20.0, 1.0, 2000.0, glam::Vec3::ZERO);
    sim.add_node(1000.0, 20.0, 1.0, 2000.0, glam::Vec3::ZERO);
    sim.attach_solar_panel(
        1,
        SolarPanel {
            area: 1.0,
            efficiency: 1.0,
        },
    );

    sim.handle_solar_panels(&env, 1.0, |_| 1.0);

    assert_eq!(
        fluids(&sim),
        vec![(1000.0, 20.0), (1000.0, 20.2388916015625)]
    );
}

#[test]
fn solar_pass_asks_for_the_sine_of_the_sun_angle() {
    let env = Environment {
        sun_angle: 0.75,
        sun_irradiance: 1000.0,
        cloud_cover: 0.0,
        ambient_temp: 20.0,
    };
    let mut sim: Simulation<f32> = Simulation::new();
    sim.add_node(1000.0, 20.0, 1.0, 2000.0, glam::Vec3::ZERO);
    sim.attach_solar_panel(
        0,
        SolarPanel {
            area: 1.0,
            efficiency: 1.0,
        },
    );
    let asked = std::cell::Cell::new(f32::NAN);

    sim.handle_solar_panels(&env, 1.0, |angle| {
        asked.set(angle);
        1.0
    });

    assert_eq!(asked.get(), 0.75);
}

#[test]
fn solar_pass_with_the_real_sine() {
    let env = environment();
    let mut sim: Simulation<f32> = Simulation::new();
    sim.add_node(1000.0, 20.0, 1.0, 2000.0, glam::Vec3::ZERO);
    sim.attach_solar_panel(
        0,
        SolarPanel {
            area: 1.0,
            efficiency: 1.0,
        },
    );
    let mut by_hand = sim.clone();

    sim.handle_solar_panels(&env, 1.0, f32::sin);
    by_hand.heat_panels(&env, 1.0, env.sun_angle.sin());

    assert_eq!(fluids(&sim), fluids(&by_hand));
    assert!(sim.nodes()[0].fluid.temp > 20.2);
    assert!(sim.nodes()[0].fluid.temp < 20.3);
}

#[test]
fn solar_pass_skips_an_empty_node_with_a_panel() {
    let env = environment();
    let mut sim: Simulation<f32> = Simulation::new();
    sim.add_node(0.0, 37.5, 1.0, 2000.0, glam::Vec3::ZERO);
    sim.attach_solar_panel(
        0,
        SolarPanel {
            area: 1.0,
            efficiency: 1.0,
        },
    );

    sim.handle_solar_panels(&env, 1.0, f32::sin);

    assert_eq!(fluids(&sim), vec![(0.0, 37.5)]);
}

#[test]
fn solar_pass_never_cools() {
    let mut env = environment();
    env.sun_angle = -core::f32::consts::FRAC_PI_2;
    let mut sim: Simulation<f32> = Simulation::new();
    sim.add_node(1000.0, 20.0, 1.0, 2000.0, glam::Vec3::ZERO);
    sim.attach_solar_panel(
        0,
        SolarPanel {
            area: 1.0,
            efficiency: 1.0,
        },
    );

    sim.handle_solar_panels(&env, 1.0, f32::sin);

    assert_eq!(fluids(&sim), vec![(1000.0, 20.0)]);
}

#[test]
fn a_second_panel_replaces_the_first() {
    let env = environment();
    let mut sim: Simulation<f32> = Simulation::new();
    sim.add_node(1000.0, 20.0, 1.0, 2000.0, glam::Vec3::ZERO);
    sim.attach_solar_panel(
        0,
        SolarPanel {
            area: 50.0,
            efficiency: 1.0,
        },
    );
    sim.attach_solar_panel(
        0,
        SolarPanel {
            area: 1.0,
            efficiency: 1.0,
        },
    );

    sim.handle_solar_panels(&env, 1.0, |_| 1.0);

    assert_eq!(fluids(&sim), vec![(1000.0, 20.2388916015625)]);
}

// fluid transfer

fn pipe(flow_rate: f32) -> Connection<f32> {
    Connection {
        flow_rate,
        input: 0,
        output: 1,
    }
}

#[test]
fn transfer_volume_is_limited_by_the_flow_rate() {
    let input = node(10.0, 90.0, 1.0, 100.0);
    let output = node(2.0, 30.0, 1.0, 100.0);
    assert_eq!(transfer_volume(&pipe(1.0), &input, &output, 1.0), 1.0);
    assert_eq!(transfer_volume(&pipe(1.0), &input, &output, 0.5), 0.5);
    assert_eq!(transfer_volume(&pipe(4.0), &input, &output, 0.25), 1.0);
}

#[test]
fn transfer_volume_is_limited_by_what_the_input_holds() {
    let input = node(0.25, 90.0, 1.0, 100.0);
    let output = node(2.0, 30.0, 1.0, 100.0);
    assert_eq!(transfer_volume(&pipe(1.0), &input, &output, 1.0), 0.25);
    assert_eq!(transfer_volume(&pipe(1.0), &input, &output, 0.5), 0.125);
}

#[test]
fn transfer_volume_is_limited_by_the_room_in_the_output() {
    let input = node(10.0, 90.0, 1.0, 100.0);
    assert_eq!(
        transfer_volume(&pipe(1.0), &input, &node(2.0, 30.0, 1.0, 2.5), 1.0),
        0.5
    );
    assert_eq!(
        transfer_volume(&pipe(1.0), &input, &node(2.0, 30.0, 1.0, 2.0), 1.0),
        0.0
    );
}

#[test]
fn move_fluid_drains_the_input_and_fills_the_output() {
    let input = node(10.0, 90.0, 1.0, 100.0);
    let output = node(2.0, 30.0, 1.0, 100.0);
    let (left, filled) = move_fluid(&pipe(1.0), &input, &output, 1.0);
    assert_eq!(left, 9.0);
    assert_eq!(
        filled,
        Fluid {
            volume: 3.0,
            temp: 50.0
        }
    );
}

#[test]
fn move_fluid_stops_at_the_capacity() {
    let input = node(10.0, 90.0, 1.0, 100.0);
    let output = node(2.0, 30.0, 1.0, 2.5);
    let (left, filled) = move_fluid(&pipe(1.0), &input, &output, 1.0);
    assert_eq!(left, 9.5);
    assert_eq!(
        filled,
        Fluid {
            volume: 2.5,
            temp: 42.0
        }
    );
}

#[test]
fn transfer_scenario_of_two_nodes() {
    let mut sim: Simulation<f32> = Simulation::new();
    let a = sim.add_node(10.0, 100.0, 1.0, 100.0, glam::Vec3::ZERO);
    let b = sim.add_node(10.0, 20.0, 1.0, 100.0, glam::Vec3::ZERO);
    sim.connect_node(a, b, 1.0);

    sim.handle_fluid_transfer(1.0);

    let input = sim.get_node(a).unwrap().fluid;
    let output = sim.get_node(b).unwrap().fluid;
    assert_eq!(input.volume, 9.0);
    assert_eq!(output.volume, 11.0);
    assert_eq!(10.0 - input.volume, output.volume - 10.0);
    assert!(10.0 - input.volume <= 1.0);
    assert_eq!(input.temp, 100.0);
    assert!(output.temp > 20.0 && output.temp < 100.0);
    assert_eq!(output.temp, 27.272727966308594);
}

#[test]
fn transfer_keeps_volumes_within_bounds() {
    let mut sim: Simulation<f32> = Simulation::new();
    sim.add_node(0.5, 80.0, 1.0, 4.0, glam::Vec3::ZERO);
    sim.add_node(3.75, 20.0, 1.0, 4.0, glam::Vec3::ZERO);
    sim.add_node(0.0, 10.0, 1.0, 1.0, glam::Vec3::ZERO);
    sim.connect_node(0, 1, 2.0);
    sim.connect_node(1, 2, 8.0);
    sim.connect_node(2, 0, 0.5);
    sim.connect_node(0, 2, 1.0);

    for _ in 0..20 {
        sim.handle_fluid_transfer(0.5);
        for connection in sim.connections() {
            let input = &sim.nodes()[connection.input];
            let output = &sim.nodes()[connection.output];
            assert!(output.fluid.volume <= output.capacity);
            assert!(input.fluid.volume >= 0.0);
        }
        let total: f32 = sim.nodes().iter().map(|n| n.fluid.volume).sum();
        assert_eq!(total, 4.25);
    }
}

#[test]
fn transfer_into_a_full_node_moves_nothing() {
    let mut sim: Simulation<f32> = Simulation::new();
    sim.add_node(10.0, 100.0, 1.0, 100.0, glam::Vec3::ZERO);
    sim.add_node(5.0, 20.0, 1.0, 5.0, glam::Vec3::ZERO);
    sim.connect_node(0, 1, 1.0);

    sim.handle_fluid_transfer(1.0);

    assert_eq!(fluids(&sim), vec![(10.0, 100.0), (5.0, 20.0)]);
}

#[test]
fn transfer_passes_over_a_self_loop() {
    let mut sim: Simulation<f32> = Simulation::new();
    sim.add_node(10.0, 100.0, 1.0, 100.0, glam::Vec3::ZERO);
    sim.connect_node(0, 0, 1.0);
    assert_eq!(sim.connections().len(), 1);

    sim.handle_fluid_transfer(1.0);

    assert_eq!(fluids(&sim), vec![(10.0, 100.0)]);
}

#[test]
fn transfer_order_is_insertion_order() {
    let build = |first: (usize, usize), second: (usize, usize)| {
        let mut sim: Simulation<f32> = Simulation::new();
        sim.add_node(10.0, 100.0, 1.0, 100.0, glam::Vec3::ZERO);
        sim.add_node(0.0, 20.0, 1.0, 100.0, glam::Vec3::ZERO);
        sim.add_node(0.0, 20.0, 1.0, 100.0, glam::Vec3::ZERO);
        sim.connect_node(first.0, first.1, 1.0);
        sim.connect_node(second.0, second.1, 1.0);
        sim
    };
    let mut forward = build((0, 1), (1, 2));
    let mut backward = build((1, 2), (0, 1));

    forward.handle_fluid_transfer(1.0);
    backward.handle_fluid_transfer(1.0);

    // the second connection sees what the first one moved
    assert_eq!(
        fluids(&forward),
        vec![(9.0, 100.0), (0.0, 100.0), (1.0, 100.0)]
    );
    assert_eq!(
        fluids(&backward),
        vec![(9.0, 100.0), (1.0, 100.0), (0.0, 0.0)]
    );
    assert_ne!(fluids(&forward), fluids(&backward));
}

#[test]
fn transfer_leaves_untouched_nodes_alone() {
    let mut sim: Simulation<f32> = Simulation::new();
    sim.add_node(10.0, 100.0, 0.5, 100.0, glam::Vec3::X);
    sim.add_node(2.0, 30.0, 0.25, 100.0, glam::Vec3::Y);
    sim.add_node(7.0, 55.0, 0.75, 9.0, glam::Vec3::Z);
    sim.connect_node(0, 1, 1.0);

    sim.handle_fluid_transfer(1.0);

    let third = &sim.nodes()[2];
    assert_eq!((third.fluid.volume, third.fluid.temp), (7.0, 55.0));
    assert_eq!((third.capacity, third.insulation), (9.0, 0.75));
    assert_eq!(third.position, glam::Vec3::Z);
    assert_eq!(sim.nodes()[0].position, glam::Vec3::X);
    assert_eq!(sim.nodes()[1].insulation, 0.25);
}

// one whole step

#[test]
fn tick_runs_the_three_passes_in_order() {
    let env = environment();
    let mut sim: Simulation<f32> = Simulation::new();
    sim.add_node(10.0, 100.0, 0.5, 100.0, glam::Vec3::ZERO);
    sim.add_node(2.0, 30.0, 1.0, 100.0, glam::Vec3::ZERO);
    sim.add_node(1000.0, 20.0, 1.0, 2000.0, glam::Vec3::ZERO);
    sim.connect_node(0, 1, 4.0);
    sim.attach_solar_panel(
        2,
        SolarPanel {
            area: 4.0,
            efficiency: 1.0,
        },
    );

    sim.tick(&env, 0.25, |_| 1.0);

    // node 0 cools from 100 to 90 before one unit of it is poured into node 1
    assert_eq!(
        fluids(&sim),
        vec![(9.0, 90.0), (3.0, 50.0), (1000.0, 20.2388916015625)]
    );
}

#[test]
fn tick_is_the_three_passes() {
    let env = Environment {
        sun_angle: 0.6,
        sun_irradiance: 800.0,
        cloud_cover: 0.3,
        ambient_temp: 12.0,
    };
    let mut sim: Simulation<f32> = Simulation::new();
    sim.add_node(10.0, 50.0, 0.9, 30.0, glam::Vec3::ZERO);
    sim.add_node(10.0, 20.0, 0.9, 30.0, glam::Vec3::ZERO);
    sim.add_node(0.0, 5.0, 0.2, 30.0, glam::Vec3::ZERO);
    sim.connect_node(0, 1, 1.0);
    sim.connect_node(1, 0, 1.0);
    sim.connect_node(1, 2, 3.0);
    sim.attach_solar_panel(
        0,
        SolarPanel {
            area: 1.5,
            efficiency: 0.2,
        },
    );
    sim.attach_solar_panel(
        2,
        SolarPanel {
            area: 1.5,
            efficiency: 0.2,
        },
    );
    let mut by_hand = sim.clone();

    for _ in 0..10 {
        sim.tick(&env, 0.016, f32::sin);
        by_hand.handle_heat_losses(&env, 0.016);
        by_hand.handle_solar_panels(&env, 0.016, f32::sin);
        by_hand.handle_fluid_transfer(0.016);
    }

    assert_eq!(fluids(&sim), fluids(&by_hand));
    assert_ne!(fluids(&sim)[0], (10.0, 50.0));
}

#[test]
fn tick_on_an_empty_simulation_does_nothing() {
    let env = environment();
    let mut sim: Simulation<f32> = Simulation::new();
    sim.tick(&env, 1.0, f32::sin);
    assert!(sim.nodes().is_empty());
}

#[test]
fn tick_works_for_other_scalars() {
    let env: Environment<f64> = Environment {
        sun_angle: 0.0,
        sun_irradiance: 1000.0,
        cloud_cover: 0.0,
        ambient_temp: 20.0,
    };
    let mut sim: Simulation<f64> = Simulation::new();
    sim.add_node(10.0, 100.0, 0.5, 100.0, glam::Vec3::ZERO);
    sim.add_node(2.0, 30.0, 1.0, 100.0, glam::Vec3::ZERO);
    sim.connect_node(0, 1, 4.0);

    sim.tick(&env, 0.25, f64::sin);

    let seen: Vec<(f64, f64)> = sim
        .nodes()
        .iter()
        .map(|n| (n.fluid.volume, n.fluid.temp))
        .collect();
    assert_eq!(seen, vec![(9.0, 90.0), (3.0, 50.0)]);
}

#[test]
fn fluid_add_assign_pours_in_place() {
    let mut fluid: Fluid<f32> = Fluid {
        volume: 1.0,
        temp: 30.0,
    };
    fluid += Fluid {
        volume: 2.0,
        temp: 90.0,
    };
    assert_eq!(
        fluid,
        Fluid {
            volume: 3.0,
            temp: 70.0
        }
    );
}
