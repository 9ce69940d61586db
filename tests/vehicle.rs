use braitenberg::gene::{Coefficient, Crossed, Gene, Side};
use braitenberg::light::Light;
use braitenberg::math::{Direction, Offset, Point};
use braitenberg::world::{simulate_tick, toroid_map};
use braitenberg::vehicle::{
    advance_vehicle, compose_pos, sensor_intensity, stimulate, travel_heading, Vehicle,
    MINIMUM_SPEED,
};

const INITIAL_ANGLE: i64 = 45_000;

/// The unit vector of `angle` (thousandths of a degree), in thousandths.
fn direction_of(angle: i64) -> Direction {
    let radians = (angle as f64 / 1000.0).to_radians();
    Direction {
        x: (radians.cos() * 1000.0).round() as i64,
        y: (radians.sin() * 1000.0).round() as i64,
    }
}

fn empty_vehicle() -> Vehicle {
    Vehicle::new(vec![], Point { x: 0, y: 0 }, INITIAL_ANGLE)
}

#[test]
fn test_advance_no_stimuli() {
    let mut vehicle = empty_vehicle();
    let travel = direction_of(travel_heading(&vehicle));
    advance_vehicle(&mut vehicle, travel);
    assert_eq!(vehicle.angle, INITIAL_ANGLE);
    let expected = direction_of(INITIAL_ANGLE);
    assert_eq!(
        vehicle.position,
        Point { x: MINIMUM_SPEED * expected.x, y: MINIMUM_SPEED * expected.y }
    );
}

#[test]
fn test_advance_stimuli() {
    let mut vehicle = empty_vehicle();
    vehicle.left_engine_activation += 2000;
    vehicle.right_engine_activation += 1000;
    let travel = direction_of(travel_heading(&vehicle));
    advance_vehicle(&mut vehicle, travel);
    assert_eq!(vehicle.angle, INITIAL_ANGLE - 2000);
}

#[test]
fn idle_vehicle_moves_minimum_speed_along_heading() {
    let mut vehicle = empty_vehicle();
    assert_eq!(travel_heading(&vehicle), INITIAL_ANGLE);
    let travel = direction_of(INITIAL_ANGLE);
    assert_eq!(travel, Direction { x: 707, y: 707 });
    advance_vehicle(&mut vehicle, travel);
    assert_eq!(vehicle.angle, 45_000);
    assert_eq!(vehicle.position, Point { x: 500 * 707, y: 500 * 707 });
    assert_eq!(vehicle.left_engine_activation, 0);
    assert_eq!(vehicle.right_engine_activation, 0);
}

#[test]
fn turning_vehicle_travels_along_half_turn() {
    let mut vehicle = empty_vehicle();
    vehicle.left_engine_activation = 2000;
    vehicle.right_engine_activation = 1000;
    assert_eq!(travel_heading(&vehicle), 44_000);
    advance_vehicle(&mut vehicle, Direction { x: 719, y: 695 });
    assert_eq!(vehicle.angle, 43_000);
    assert_eq!(vehicle.position, Point { x: 3500 * 719, y: 3500 * 695 });
    assert_eq!(vehicle.left_engine_activation, 0);
    assert_eq!(vehicle.right_engine_activation, 0);
}

#[test]
fn new_vehicle_starts_at_baseline() {
    let genes = vec![Gene::new(Crossed::Straight, Side::Left, Coefficient::Excitatory)];
    let vehicle = Vehicle::new(genes, Point { x: 3, y: 4 }, 90_000);
    assert_eq!(vehicle.left_engine_activation, 0);
    assert_eq!(vehicle.right_engine_activation, 0);
    assert_eq!(vehicle.position, Point { x: 3, y: 4 });
    assert_eq!(vehicle.angle, 90_000);
    assert_eq!(vehicle.genes().len(), 1);
}

#[test]
fn compose_pos_rotates_offset_by_heading() {
    let vehicle = Vehicle::new(vec![], Point { x: 1_000_000, y: 2_000_000 }, 90_000);
    let left = compose_pos(&vehicle, Offset { x: 0, y: 15_000 }, Direction { x: 0, y: 1000 });
    assert_eq!(left, Point { x: 1_000_000 - 15_000_000, y: 2_000_000 });
    let ahead = compose_pos(&vehicle, Offset { x: 2_000, y: 0 }, Direction { x: 0, y: 1000 });
    assert_eq!(ahead, Point { x: 1_000_000, y: 4_000_000 });
}

#[test]
fn excitatory_sensor_at_center_reads_radius() {
    let light = Light { position: Point { x: 7_000_000, y: -2_000_000 }, radius: 50_000_000 };
    let r = sensor_intensity(light.position, &light, &Coefficient::Excitatory);
    assert_eq!(r, 50_000_000);
}

#[test]
fn excitatory_sensor_at_or_beyond_radius_reads_nothing() {
    let light = Light { position: Point { x: 0, y: 0 }, radius: 5_000_000 };
    let at_edge = Point { x: 3_000_000, y: 4_000_000 };
    assert_eq!(sensor_intensity(at_edge, &light, &Coefficient::Excitatory), 0);
    let beyond = Point { x: 30_000_000, y: 0 };
    assert_eq!(sensor_intensity(beyond, &light, &Coefficient::Excitatory), 0);
    let inside = Point { x: 0, y: 2_000_000 };
    assert_eq!(sensor_intensity(inside, &light, &Coefficient::Excitatory), 3_000_000);
}

#[test]
fn inhibitory_sensor_reads_distance() {
    let light = Light { position: Point { x: 0, y: 0 }, radius: 5_000_000 };
    let far = Point { x: 30_000_000, y: 40_000_000 };
    assert_eq!(sensor_intensity(far, &light, &Coefficient::Inhibitory), 50_000_000);
    assert_eq!(sensor_intensity(light.position, &light, &Coefficient::Inhibitory), 0);
}

#[test]
fn zero_radius_light_gives_no_excitation() {
    let light = Light { position: Point { x: 0, y: 0 }, radius: 0 };
    let near = Point { x: 1, y: 0 };
    assert_eq!(sensor_intensity(near, &light, &Coefficient::Excitatory), 0);
    assert_eq!(sensor_intensity(near, &light, &Coefficient::Inhibitory), 1);
}

#[test]
fn stimulate_adds_a_hundredth_of_intensity() {
    let genes = vec![Gene::new(Crossed::Straight, Side::Left, Coefficient::Excitatory)];
    let mut vehicle = Vehicle::new(genes, Point { x: 0, y: 0 }, 0);
    // the left sensor sits 15 px to the left: exactly on the light
    let light = Light { position: Point { x: 0, y: 15_000_000 }, radius: 100_000_000 };
    stimulate(&mut vehicle, &[light], Direction { x: 1000, y: 0 });
    assert_eq!(vehicle.left_engine_activation, 1000);
    assert_eq!(vehicle.right_engine_activation, 0);
    assert_eq!(vehicle.position, Point { x: 0, y: 0 });
    assert_eq!(vehicle.angle, 0);
}

#[test]
fn vehicle_without_genes_takes_no_stimulus() {
    let mut vehicle = empty_vehicle();
    let light = Light { position: Point { x: 1_000_000, y: 0 }, radius: 100_000_000 };
    stimulate(&mut vehicle, &[light, light], direction_of(INITIAL_ANGLE));
    assert_eq!(vehicle.left_engine_activation, 0);
    assert_eq!(vehicle.right_engine_activation, 0);
}

fn two_sided(crossed: Crossed, coefficient: Coefficient) -> Vec<Gene> {
    vec![Gene::new(crossed, Side::Left, coefficient), Gene::new(crossed, Side::Right, coefficient)]
}

fn activations(genes: Vec<Gene>, lights: &[Light]) -> (i64, i64) {
    let mut vehicle = Vehicle::new(genes, Point { x: 0, y: 0 }, 0);
    stimulate(&mut vehicle, lights, Direction { x: 1000, y: 0 });
    (vehicle.left_engine_activation, vehicle.right_engine_activation)
}

#[test]
fn stimulation_ignores_light_order() {
    let a = Light { position: Point { x: 40_000_000, y: 25_000_000 }, radius: 90_000_000 };
    let b = Light { position: Point { x: -10_000_000, y: -60_000_000 }, radius: 120_000_000 };
    for coefficient in [Coefficient::Excitatory, Coefficient::Inhibitory] {
        let genes = two_sided(Crossed::Straight, coefficient);
        let forward = activations(genes.clone(), &[a, b]);
        let backward = activations(genes.clone(), &[b, a]);
        assert_eq!(forward, backward);
        let only_a = activations(genes.clone(), &[a]);
        let only_b = activations(genes, &[b]);
        assert_eq!(forward, (only_a.0 + only_b.0, only_a.1 + only_b.1));
        assert!(forward.0 > 0 && forward.1 > 0);
    }
}

#[test]
fn stimulation_ignores_gene_order() {
    let a = Light { position: Point { x: 40_000_000, y: 25_000_000 }, radius: 90_000_000 };
    let g1 = Gene::new(Crossed::Crossed, Side::Left, Coefficient::Excitatory);
    let g2 = Gene::new(Crossed::Straight, Side::Left, Coefficient::Inhibitory);
    assert_eq!(activations(vec![g1, g2], &[a]), activations(vec![g2, g1], &[a]));
}

#[test]
fn crossed_wiring_swaps_activations() {
    let light = Light { position: Point { x: 30_000_000, y: 20_000_000 }, radius: 100_000_000 };
    for coefficient in [Coefficient::Excitatory, Coefficient::Inhibitory] {
        let straight = activations(two_sided(Crossed::Straight, coefficient), &[light]);
        let crossed = activations(two_sided(Crossed::Crossed, coefficient), &[light]);
        assert_eq!(straight, (crossed.1, crossed.0));
        assert_ne!(straight.0, straight.1);
    }
}

#[test]
fn to_strings_describes_genes_and_state() {
    let genes = two_sided(Crossed::Crossed, Coefficient::Inhibitory);
    let mut vehicle = Vehicle::new(genes, Point { x: -12, y: 340 }, -45_000);
    vehicle.left_engine_activation = 1000;
    let lines = vehicle.to_strings();
    assert_eq!(
        lines,
        vec![
            "Gene { sensor_side: Left, coefficient: Inhibitory, engine_connection: Right }"
                .to_string(),
            "Gene { sensor_side: Right, coefficient: Inhibitory, engine_connection: Left }"
                .to_string(),
            "left engine: 1000, right engine 0, pos: [-12, 340], angle: -45000".to_string(),
        ]
    );
}

#[test]
fn tick_moves_and_wraps() {
    let (width, height) = (10_000_000, 8_000_000);
    let mut vehicle = Vehicle::new(vec![], Point { x: width - 200_000, y: 4_000_000 }, 0);
    let used = simulate_tick(&mut vehicle, &[], width, height, direction_of);
    assert_eq!(used, (Direction { x: 1000, y: 0 }, Direction { x: 1000, y: 0 }));
    assert_eq!(vehicle.position, Point { x: 300_000, y: 4_000_000 });
    assert_eq!(vehicle.angle, 0);
}

#[test]
fn tick_runs_stimulation_kinematics_and_wrap_in_order() {
    let (width, height) = (1_280_000_000, 720_000_000);
    let lights = [Light { position: Point { x: 960_000_000, y: 288_000_000 }, radius: 360_000_000 }];
    let genes = vec![
        Gene::new(Crossed::Crossed, Side::Left, Coefficient::Excitatory),
        Gene::new(Crossed::Crossed, Side::Right, Coefficient::Excitatory),
    ];
    let mut ticked = Vehicle::new(genes.clone(), Point { x: 900_000_000, y: 300_000_000 }, 30_000);
    let mut stepped = Vehicle::new(genes, Point { x: 900_000_000, y: 300_000_000 }, 30_000);
    for _ in 0..50 {
        let (facing, travel) = simulate_tick(&mut ticked, &lights, width, height, direction_of);
        assert_eq!(facing, direction_of(stepped.angle));
        stimulate(&mut stepped, &lights, facing);
        assert_eq!(travel, direction_of(travel_heading(&stepped)));
        advance_vehicle(&mut stepped, travel);
        toroid_map(&mut stepped, width, height);
        assert_eq!(ticked.position, stepped.position);
        assert_eq!(ticked.angle, stepped.angle);
        assert_eq!(ticked.left_engine_activation, 0);
    }
    assert_ne!(ticked.angle, 30_000);
}

#[test]
fn new_vehicle_without_genes_moves_at_minimum_speed() {
    let mut vehicle = Vehicle::new(vec![], Point { x: 0, y: 0 }, 0);
    let light = Light { position: Point { x: 1_000_000, y: 0 }, radius: 100_000_000 };
    let facing = direction_of(vehicle.angle);
    stimulate(&mut vehicle, &[light], facing);
    let travel = direction_of(travel_heading(&vehicle));
    advance_vehicle(&mut vehicle, travel);
    assert_eq!(vehicle.position, Point { x: MINIMUM_SPEED * 1000, y: 0 });
    assert_eq!(vehicle.angle, 0);
}

#[test]
fn stimulation_ignores_order_of_three_lights_and_genes() {
    let a = Light { position: Point { x: 40_000_000, y: 25_000_000 }, radius: 90_000_000 };
    let b = Light { position: Point { x: -10_000_000, y: -60_000_000 }, radius: 120_000_000 };
    let c = Light { position: Point { x: 5_000_000, y: 70_000_000 }, radius: 30_000_000 };
    let g1 = Gene::new(Crossed::Crossed, Side::Left, Coefficient::Excitatory);
    let g2 = Gene::new(Crossed::Straight, Side::Left, Coefficient::Inhibitory);
    let g3 = Gene::new(Crossed::Straight, Side::Right, Coefficient::Excitatory);
    let expected = activations(vec![g1, g2, g3], &[a, b, c]);
    assert_eq!(activations(vec![g3, g1, g2], &[c, a, b]), expected);
    assert_eq!(activations(vec![g2, g3, g1], &[b, c, a]), expected);
    assert_eq!(activations(vec![g1, g3, g2], &[a, c, b]), expected);
}
