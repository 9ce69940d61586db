use vstd::prelude::*;
use crate::gene::{opposite, wired_side, Coefficient, Crossed, Gene, Side};
use crate::light::Light;
use crate::math::{closer_than, squared_distance, Direction, Point, COORD_LIMIT};
use crate::vehicle::{
    advance_vehicle, crossed_over, lemma_crossing_swaps_sides, lights_in_range, stimulate,
    total_stimulus, travel_heading, Vehicle, VEHICLE_RADIUS_IN_WORLD,
};
use vstd::arithmetic::div_mod::{
    lemma_fundamental_div_mod, lemma_fundamental_div_mod_converse, lemma_mod_bound, lemma_mod_twice,
    lemma_small_mod,
};

verus! {

/// `x` folded into `[0, extent)` by adding or taking away whole extents.
pub open spec fn wrapped(x: int, extent: int) -> int {
    x % extent
}

/// `x` folded into `[0, extent)` by adding or taking away whole extents.
fn wrap_coordinate(x: i64, extent: i64) -> (r: i64)
    requires
        extent > 0,
    ensures
        r == wrapped(x as int, extent as int),
        0 <= r < extent,
{
    let rem = x % extent;
    proof {
        let e = extent as int;
        if x < 0 {
            let y = -(x as int);
            lemma_fundamental_div_mod(y, e);
            let q = y / e;
            let s = y % e;
            assert(0 <= s < e);
            if s == 0 {
                assert(x as int == (-q) * e) by (nonlinear_arith)
                    requires
                        y == e * q + s,
                        s == 0,
                        x == -y,
                ;
                lemma_fundamental_div_mod_converse(x as int, e, -q, 0);
            } else {
                assert(x as int == (-q - 1) * e + (e - s)) by (nonlinear_arith)
                    requires
                        y == e * q + s,
                        x == -y,
                ;
                lemma_fundamental_div_mod_converse(x as int, e, -q - 1, e - s);
            }
        }
    }
    if rem < 0 {
        rem + extent
    } else {
        rem
    }
}

/// Folds the vehicle's position back into the `width` by `height` world,
/// whose edges join up; nothing else of the vehicle changes.
pub fn toroid_map(vehicle: &mut Vehicle, width: i64, height: i64)
    requires
        width > 0,
        height > 0,
    ensures
        final(vehicle).position.x == wrapped(old(vehicle).position.x as int, width as int),
        final(vehicle).position.y == wrapped(old(vehicle).position.y as int, height as int),
        final(vehicle).angle == old(vehicle).angle,
        final(vehicle).left_engine_activation == old(vehicle).left_engine_activation,
        final(vehicle).right_engine_activation == old(vehicle).right_engine_activation,
        final(vehicle).genes@ == old(vehicle).genes@,
{
    vehicle.position.x = wrap_coordinate(vehicle.position.x, width);
    vehicle.position.y = wrap_coordinate(vehicle.position.y, height);
}

/// `vehicle` after stimulation by `lights`, facing `facing`.
pub open spec fn stimulated(vehicle: Vehicle, lights: Seq<Light>, facing: Direction) -> Vehicle {
    Vehicle {
        left_engine_activation: (vehicle.left_engine_activation + vehicle.stimulus_from(
            lights,
            facing,
            Side::Left,
        )) as i64,
        right_engine_activation: (vehicle.right_engine_activation + vehicle.stimulus_from(
            lights,
            facing,
            Side::Right,
        )) as i64,
        ..vehicle
    }
}

/// Every value of a tick of `vehicle` that faces `facing` and then travels
/// along `travel` fits in an `i64`.
pub open spec fn tick_fits(
    vehicle: Vehicle,
    lights: Seq<Light>,
    facing: Direction,
    travel: Direction,
) -> bool {
    &&& vehicle.left_engine_activation + vehicle.stimulus_from(lights, facing, Side::Left)
        <= i64::MAX
    &&& vehicle.right_engine_activation + vehicle.stimulus_from(lights, facing, Side::Right)
        <= i64::MAX
    &&& stimulated(vehicle, lights, facing).step_fits(travel)
}

/// One tick of `vehicle` in a `width` by `height` world lit by `lights`:
/// stimulation, then one kinematic step, then the wrap. `direction_of` gives
/// the direction of a heading; the tick returns the two directions it used,
/// that of the vehicle's angle and that of its travel heading.
pub fn simulate_tick<F: Fn(i64) -> Direction>(
    vehicle: &mut Vehicle,
    lights: &[Light],
    width: i64,
    height: i64,
    direction_of: F,
) -> (r: (Direction, Direction))
    requires
        width > 0,
        height > 0,
        old(vehicle).position.in_range(),
        lights_in_range(lights@),
        forall|a: i64| direction_of.requires((a,)),
        forall|a: i64, d: Direction| direction_of.ensures((a,), d) ==> d.in_range(),
        forall|facing: Direction, travel: Direction|
            facing.in_range() && travel.in_range() ==> tick_fits(
                *old(vehicle),
                lights@,
                facing,
                travel,
            ),
    ensures
        direction_of.ensures((old(vehicle).angle,), r.0),
        direction_of.ensures((stimulated(*old(vehicle), lights@, r.0).travel_angle() as i64,), r.1),
        ({
            let mid = stimulated(*old(vehicle), lights@, r.0);
            &&& final(vehicle).angle == mid.next_angle()
            &&& final(vehicle).position.x == wrapped(mid.next_position(r.1).0, width as int)
            &&& final(vehicle).position.y == wrapped(mid.next_position(r.1).1, height as int)
            &&& final(vehicle).left_engine_activation == 0
            &&& final(vehicle).right_engine_activation == 0
            &&& final(vehicle).genes@ == old(vehicle).genes@
        }),
{
    let ghost start = *vehicle;
    let facing = direction_of(vehicle.angle);
    let ghost some_travel = Direction { x: 0, y: 0 };
    assert(tick_fits(start, lights@, facing, some_travel));
    stimulate(vehicle, lights, facing);
    let heading = travel_heading(vehicle);
    let travel = direction_of(heading);
    assert(tick_fits(start, lights@, facing, travel));
    advance_vehicle(vehicle, travel);
    toroid_map(vehicle, width, height);
    (facing, travel)
}

/// The two genes, one per sensor side, of a vehicle wired by `crossed` with
/// `coefficient`.
pub open spec fn gene_pair(crossed: Crossed, coefficient: Coefficient) -> Seq<Gene> {
    seq![
        Gene {
            sensor_side: Side::Left,
            coefficient,
            engine_connection: wired_side(crossed, Side::Left),
        },
        Gene {
            sensor_side: Side::Right,
            coefficient,
            engine_connection: wired_side(crossed, Side::Right),
        },
    ]
}

/// The wiring of the `k`-th vehicle of the starting roster.
pub open spec fn roster_wiring(k: int) -> (Crossed, Coefficient) {
    if k == 0 {
        (Crossed::Straight, Coefficient::Excitatory)
    } else if k == 1 {
        (Crossed::Straight, Coefficient::Inhibitory)
    } else if k == 2 {
        (Crossed::Crossed, Coefficient::Excitatory)
    } else {
        (Crossed::Crossed, Coefficient::Inhibitory)
    }
}

fn make_gene_pair(crossed: Crossed, coefficient: Coefficient) -> (r: Vec<Gene>)
    ensures
        r@ == gene_pair(crossed, coefficient),
{
    let genes = vec![
        Gene::new(crossed, Side::Left, coefficient),
        Gene::new(crossed, Side::Right, coefficient),
    ];
    assert(genes@ =~= gene_pair(crossed, coefficient));
    genes
}

/// The starting roster of a `width` by `height` world: one vehicle for each
/// of straight and crossed wiring with each of excitatory and inhibitory
/// sensors, each with a left and a right sensor, all at the world's center
/// with angle zero.
pub fn reset_vehicles(width: i64, height: i64) -> (r: Vec<Vehicle>)
    requires
        width >= 0,
        height >= 0,
    ensures
        r@.len() == 4,
        forall|k: int|
            0 <= k < 4 ==> {
                let v = #[trigger] r@[k];
                &&& v.genes@ == gene_pair(roster_wiring(k).0, roster_wiring(k).1)
                &&& v.position@ == (width / 2, height / 2)
                &&& v.angle == 0
                &&& v.left_engine_activation == 0
                &&& v.right_engine_activation == 0
            },
{
    let center = Point { x: width / 2, y: height / 2 };
    let vehicles = vec![
        Vehicle::new(make_gene_pair(Crossed::Straight, Coefficient::Excitatory), center, 0),
        Vehicle::new(make_gene_pair(Crossed::Straight, Coefficient::Inhibitory), center, 0),
        Vehicle::new(make_gene_pair(Crossed::Crossed, Coefficient::Excitatory), center, 0),
        Vehicle::new(make_gene_pair(Crossed::Crossed, Coefficient::Inhibitory), center, 0),
    ];
    vehicles
}

/// `point` lies on the body of `vehicle`, which lies within range.
pub open spec fn body_contains(vehicle: Vehicle, point: Point) -> bool {
    &&& vehicle.position.in_range()
    &&& squared_distance(point@, vehicle.position@) < VEHICLE_RADIUS_IN_WORLD
        * VEHICLE_RADIUS_IN_WORLD
}

/// The indices, in order, of the first `n` vehicles whose body holds `point`.
pub open spec fn vehicles_under_prefix(vehicles: Seq<Vehicle>, point: Point, n: int) -> Seq<usize>
    decreases n,
{
    if n <= 0 {
        seq![]
    } else {
        let earlier = vehicles_under_prefix(vehicles, point, n - 1);
        if body_contains(vehicles[n - 1], point) {
            earlier.push((n - 1) as usize)
        } else {
            earlier
        }
    }
}

/// The indices, in order, of the vehicles whose body holds `point`: those a
/// click at `point` picks.
pub fn vehicles_under(vehicles: &[Vehicle], point: Point) -> (r: Vec<usize>)
    requires
        point.in_range(),
    ensures
        r@ == vehicles_under_prefix(vehicles@, point, vehicles@.len() as int),
{
    let mut picked: Vec<usize> = Vec::new();
    let mut i: usize = 0;
    while i < vehicles.len()
        invariant
            0 <= i <= vehicles@.len(),
            point.in_range(),
            picked@ == vehicles_under_prefix(vehicles@, point, i as int),
        decreases vehicles@.len() - i,
    {
        let position = vehicles[i].position;
        let in_range = -COORD_LIMIT <= position.x && position.x <= COORD_LIMIT && -COORD_LIMIT
            <= position.y && position.y <= COORD_LIMIT;
        if in_range && closer_than(point, position, VEHICLE_RADIUS_IN_WORLD) {
            picked.push(i);
        }
        i = i + 1;
    }
    picked
}

/// A straight and a crossed vehicle with the same sensors, at the same
/// place and facing the same way, take swapped stimuli: `stimulate` leaves
/// each actuator of one with what the opposite actuator of the other gets,
/// when their activations start equal.
pub proof fn lemma_crossed_vehicle_swaps_sides(
    straight: Vehicle,
    crossed: Vehicle,
    coefficient: Coefficient,
    lights: Seq<Light>,
    facing: Direction,
    side: Side,
)
    requires
        straight.genes@ == gene_pair(Crossed::Straight, coefficient),
        crossed.genes@ == gene_pair(Crossed::Crossed, coefficient),
        straight.position == crossed.position,
    ensures
        crossed.stimulus_from(lights, facing, side) == straight.stimulus_from(
            lights,
            facing,
            opposite(side),
        ),
{
    lemma_crossed_pair_swaps_sides(straight.position@, facing, coefficient, lights, side);
}

/// Wrapping is idempotent: its result lies in `[0, extent)`, wrapping that
/// again changes nothing, and a coordinate already in range is left as it is.
pub proof fn lemma_wrap_idempotent(x: int, extent: int)
    requires
        extent > 0,
    ensures
        0 <= wrapped(x, extent) < extent,
        wrapped(wrapped(x, extent), extent) == wrapped(x, extent),
        0 <= x < extent ==> wrapped(x, extent) == x,
{
    lemma_mod_bound(x, extent);
    lemma_mod_twice(x, extent);
    if 0 <= x < extent {
        lemma_small_mod(x as nat, extent as nat);
    }
}

/// Of a straight and a crossed vehicle with the same sensors, standing at
/// the same place facing the same way, each actuator of one takes what the
/// opposite actuator of the other takes.
pub proof fn lemma_crossed_pair_swaps_sides(
    position: (int, int),
    facing: Direction,
    coefficient: Coefficient,
    lights: Seq<Light>,
    side: Side,
)
    ensures
        total_stimulus(position, facing, gene_pair(Crossed::Crossed, coefficient), lights, side)
            == total_stimulus(
            position,
            facing,
            gene_pair(Crossed::Straight, coefficient),
            lights,
            opposite(side),
        ),
{
    assert(gene_pair(Crossed::Crossed, coefficient) =~= crossed_over(
        gene_pair(Crossed::Straight, coefficient),
    ));
    lemma_crossing_swaps_sides(
        position,
        facing,
        gene_pair(Crossed::Straight, coefficient),
        lights,
        side,
    );
}

} // verus!
