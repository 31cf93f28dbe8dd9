use thermal_network::simulation::{Environment, Fluid, Simulation};

fn default_environment() -> Environment<f32> {
    Environment {
        sun_angle: core::f32::consts::FRAC_PI_2,
        sun_irradiance: 1000.0,
        cloud_cover: 0.0,
        ambient_temp: 20.0,
    }
}

#[test]
fn test_fluid_add() {
    let a: Fluid<f32> = Fluid {
        volume: 1.0,
        temp: 30.0,
    };
    let b: Fluid<f32> = Fluid {
        volume: 2.0,
        temp: 90.0,
    };

    assert_eq!(
        a + b,
        Fluid {
            volume: 3.0,
            temp: 70.0
        }
    );
}

#[test]
fn test_heat_loss() {
    let environment = default_environment();
    let mut simulation: Simulation<f32> = Simulation::new();

    let num_nodes = 10;
    let nodes = (0..num_nodes)
        .map(|i| {
            let x = i as f32;
            simulation.add_node(x, x * 10.0, 0.9, 100.0, glam::Vec3 { x, y: 0.0, z: 0.0 })
        })
        .collect::<Vec<_>>();

    let original_sim = simulation.clone();

    simulation.handle_heat_losses(&environment, 0.1);

    for node in nodes {
        let original = original_sim.get_node(node).unwrap();
        let updated = simulation.get_node(node).unwrap();

        assert_eq!(original.fluid.volume, updated.fluid.volume);

        if original.fluid.temp < environment.ambient_temp {
            assert!(original.fluid.temp < updated.fluid.temp);
        } else if original.fluid.temp > environment.ambient_temp {
            assert!(original.fluid.temp > updated.fluid.temp);
        } else {
            assert_eq!(original.fluid.temp, updated.fluid.temp);
        }
    }
}

#[test]
fn test_fluid_transfer() {
    let mut sim: Simulation<f32> = Simulation::new();

    let a = sim.add_node(10.0, 100.0, 1.0, 100.0, glam::Vec3::ZERO);
    let b = sim.add_node(10.0, 20.0, 1.0, 100.0, glam::Vec3::ZERO);

    sim.connect_node(a, b, 1.0);

    let original = sim.clone();

    sim.handle_fluid_transfer(1.0);

    assert!(
        original.get_node(a).unwrap().fluid.volume > sim.get_node(a).unwrap().fluid.volume,
        "{}",
        sim.get_node(a).unwrap().fluid.volume
    );
    assert!(
        original.get_node(b).unwrap().fluid.volume < sim.get_node(b).unwrap().fluid.volume,
        "{}",
        sim.get_node(a).unwrap().fluid.volume
    );
}
