use braitenberg::gene::{Coefficient, Crossed, Gene, Side};
use braitenberg::math::{closer_than, distance, isqrt, Point};
use braitenberg::text::decimal;
use braitenberg::vehicle::Vehicle;
use braitenberg::world::{reset_vehicles, toroid_map, vehicles_under};

fn vehicle_at(x: i64, y: i64) -> Vehicle {
    Vehicle::new(vec![], Point { x, y }, 30_000)
}

#[test]
fn wrap_folds_position_into_world() {
    let (width, height) = (1_280_000_000, 720_000_000);
    let mut vehicle = vehicle_at(width + 5, -3);
    toroid_map(&mut vehicle, width, height);
    assert_eq!(vehicle.position, Point { x: 5, y: height - 3 });
    assert_eq!(vehicle.angle, 30_000);
}

#[test]
fn wrap_is_idempotent() {
    let (width, height) = (100, 50);
    let mut vehicle = vehicle_at(42, 7);
    toroid_map(&mut vehicle, width, height);
    assert_eq!(vehicle.position, Point { x: 42, y: 7 });
    let mut far = vehicle_at(-1234, 999);
    toroid_map(&mut far, width, height);
    let once = far.position;
    assert_eq!(once, Point { x: 66, y: 49 });
    toroid_map(&mut far, width, height);
    assert_eq!(far.position, once);
}

#[test]
fn wrap_edges() {
    let mut vehicle = vehicle_at(100, 0);
    toroid_map(&mut vehicle, 100, 50);
    assert_eq!(vehicle.position, Point { x: 0, y: 0 });
    let mut vehicle = vehicle_at(-100, -50);
    toroid_map(&mut vehicle, 100, 50);
    assert_eq!(vehicle.position, Point { x: 0, y: 0 });
    let mut vehicle = vehicle_at(i64::MIN, i64::MAX);
    toroid_map(&mut vehicle, 1000, 1000);
    assert_eq!(vehicle.position, Point { x: 192, y: 807 });
}

#[test]
fn reset_gives_four_wirings_at_center() {
    let vehicles = reset_vehicles(1_280_000_000, 720_000_000);
    assert_eq!(vehicles.len(), 4);
    let wirings = [
        (Crossed::Straight, Coefficient::Excitatory),
        (Crossed::Straight, Coefficient::Inhibitory),
        (Crossed::Crossed, Coefficient::Excitatory),
        (Crossed::Crossed, Coefficient::Inhibitory),
    ];
    for (vehicle, (crossed, coefficient)) in vehicles.iter().zip(wirings) {
        assert_eq!(vehicle.position, Point { x: 640_000_000, y: 360_000_000 });
        assert_eq!(vehicle.angle, 0);
        assert_eq!(vehicle.left_engine_activation, 0);
        assert_eq!(vehicle.right_engine_activation, 0);
        assert_eq!(
            vehicle.genes(),
            &vec![
                Gene::new(crossed, Side::Left, coefficient),
                Gene::new(crossed, Side::Right, coefficient)
            ]
        );
    }
}

#[test]
fn gene_wiring() {
    assert_eq!(Side::Left.cross(), Side::Right);
    assert_eq!(Side::Right.cross(), Side::Left);
    let straight = Gene::new(Crossed::Straight, Side::Right, Coefficient::Inhibitory);
    assert_eq!(straight, Gene::new_straight(Side::Right, Coefficient::Inhibitory));
    assert_eq!(straight.engine_connection, Side::Right);
    assert!(!straight.sensor_and_engine_is_crossed());
    let crossed = Gene::new(Crossed::Crossed, Side::Right, Coefficient::Excitatory);
    assert_eq!(crossed, Gene::new_crossed(Side::Right, Coefficient::Excitatory));
    assert_eq!(crossed.sensor_side, Side::Right);
    assert_eq!(crossed.coefficient, Coefficient::Excitatory);
    assert_eq!(crossed.engine_connection, Side::Left);
    assert!(crossed.sensor_and_engine_is_crossed());
}

#[test]
fn integer_square_root() {
    assert_eq!(isqrt(0), 0);
    assert_eq!(isqrt(1), 1);
    assert_eq!(isqrt(15), 3);
    assert_eq!(isqrt(16), 4);
    assert_eq!(isqrt(17), 4);
    assert_eq!(isqrt((1u128 << 124) - 1), (1u64 << 62) - 1);
}

#[test]
fn distances() {
    let a = Point { x: 1, y: 2 };
    let b = Point { x: 4, y: 6 };
    assert_eq!(distance(a, b), 5);
    assert_eq!(distance(a, Point { x: 2, y: 3 }), 1);
    assert!(closer_than(a, b, 6));
    assert!(!closer_than(a, b, 5));
    assert!(!closer_than(a, a, 0));
}

#[test]
fn decimal_text() {
    assert_eq!(decimal(0), "0");
    assert_eq!(decimal(-45_000), "-45000");
    assert_eq!(decimal(i64::MIN), i64::MIN.to_string());
    assert_eq!(decimal(i64::MAX), i64::MAX.to_string());
}

#[test]
fn click_picks_vehicles_under_point() {
    let vehicles = vec![
        vehicle_at(0, 0),
        vehicle_at(100_000_000, 0),
        vehicle_at(10_000_000, 0),
        vehicle_at(i64::MAX, 0),
    ];
    assert_eq!(vehicles_under(&vehicles, Point { x: 5_000_000, y: 0 }), vec![0, 2]);
    assert_eq!(vehicles_under(&vehicles, Point { x: 100_000_000, y: 14_999_999 }), vec![1]);
    assert_eq!(vehicles_under(&vehicles, Point { x: 100_000_000, y: 15_000_000 }), Vec::<usize>::new());
    assert_eq!(vehicles_under(&[], Point { x: 0, y: 0 }), Vec::<usize>::new());
}
