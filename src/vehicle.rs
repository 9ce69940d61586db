use vstd::prelude::*;
use crate::gene::{opposite, Coefficient, Gene, Genes, Side};
use crate::light::Light;
use crate::text::{decimal, decimal_text, describe_gene, gene_text};
use vstd::string::StringExecFns;
use crate::math::{
    composed, distance, distance_between, floor_sqrt, lemma_floor_sqrt, rotate_and_translate,
    squared_distance, within, Direction, Offset, Point, COORD_LIMIT,
};

verus! {

/// Radius of a vehicle's body, in thousandths of a pixel; its sensors sit
/// this far to its left and right.
pub const VEHICLE_RADIUS: i64 = 15_000;

/// Radius of a vehicle's body in millionths of a pixel, as world lengths are
/// counted.
pub const VEHICLE_RADIUS_IN_WORLD: i64 = VEHICLE_RADIUS * 1000;

/// Speed of a vehicle without any activation, in thousandths of a pixel per
/// step.
pub const MINIMUM_SPEED: i64 = 500;

/// How much intensity (millionths of a pixel) makes one thousandth of
/// activation: a stimulus is a hundredth of the intensity.
pub const INTENSITY_TO_STIMULUS: i64 = 100_000;

/// A vehicle: its genes, and the state that a simulation step changes.
///
/// Activations are in thousandths, the position in millionths of a pixel,
/// the angle (the heading, in degrees, in no canonical range) in thousandths.
#[derive(Debug)]
pub struct Vehicle {
    pub genes: Genes,
    pub left_engine_activation: i64,
    pub right_engine_activation: i64,
    pub position: Point,
    pub angle: i64,
}

/// `v` fits in an `i64`.
pub open spec fn fits_i64(v: int) -> bool {
    i64::MIN <= v <= i64::MAX
}

/// Where the sensor on `side` sits in the body frame: one body radius to
/// that side.
pub open spec fn sensor_offset(side: Side) -> Offset {
    match side {
        Side::Left => Offset { x: 0, y: VEHICLE_RADIUS },
        Side::Right => Offset { x: 0, y: (-VEHICLE_RADIUS) as i64 },
    }
}

/// What a sensor at `sensor` reads of `light`: excitatory, the radius less
/// the distance; inhibitory, the distance; never below zero.
pub open spec fn intensity(sensor: (int, int), light: Light, coefficient: Coefficient) -> int {
    let d = distance_between(sensor, light.position@);
    let raw = match coefficient {
        Coefficient::Excitatory => light.radius - d,
        Coefficient::Inhibitory => d,
    };
    if raw > 0 {
        raw
    } else {
        0
    }
}

/// The stimulus that `gene` of a vehicle at `position` facing `facing`
/// takes from `light`.
pub open spec fn gene_stimulus(position: (int, int), facing: Direction, gene: Gene, light: Light) -> int {
    let sensor = composed(position, sensor_offset(gene.sensor_side), facing);
    intensity(sensor, light, gene.coefficient) / (INTENSITY_TO_STIMULUS as int)
}

/// The stimulus that the genes wired to `side` take from one light.
pub open spec fn light_stimulus(
    position: (int, int),
    facing: Direction,
    genes: Seq<Gene>,
    light: Light,
    side: Side,
) -> int
    decreases genes.len(),
{
    if genes.len() == 0 {
        0
    } else {
        let gene = genes.last();
        let own = if gene.engine_connection == side {
            gene_stimulus(position, facing, gene, light)
        } else {
            0
        };
        light_stimulus(position, facing, genes.drop_last(), light, side) + own
    }
}

/// The stimulus that the genes wired to `side` take from all `lights`.
pub open spec fn total_stimulus(
    position: (int, int),
    facing: Direction,
    genes: Seq<Gene>,
    lights: Seq<Light>,
    side: Side,
) -> int
    decreases lights.len(),
{
    if lights.len() == 0 {
        0
    } else {
        total_stimulus(position, facing, genes, lights.drop_last(), side) + light_stimulus(
            position,
            facing,
            genes,
            lights.last(),
            side,
        )
    }
}

impl Vehicle {
    /// The stimulus that `lights` give the actuator on `side` of this
    /// vehicle, seen facing `facing`.
    pub open spec fn stimulus_from(&self, lights: Seq<Light>, facing: Direction, side: Side) -> int {
        total_stimulus(self.position@, facing, self.genes@, lights, side)
    }

    /// A vehicle with `genes` at `position`, heading `angle`, both
    /// actuators at the baseline activation of zero.
    pub fn new(genes: Vec<Gene>, position: Point, angle: i64) -> (r: Self)
        ensures
            r.genes@ == genes@,
            r.position == position,
            r.angle == angle,
            r.left_engine_activation == 0,
            r.right_engine_activation == 0,
    {
        Self {
            genes,
            left_engine_activation: 0,
            right_engine_activation: 0,
            position,
            angle,
        }
    }

    /// How much the vehicle turns in one step: right activation less left.
    pub open spec fn turn(self) -> int {
        self.right_engine_activation - self.left_engine_activation
    }

    /// How far the vehicle travels in one step: both activations and the
    /// minimum speed.
    pub open spec fn speed(self) -> int {
        self.left_engine_activation + self.right_engine_activation + MINIMUM_SPEED
    }

    /// The heading the vehicle travels along in one step: halfway through
    /// its turn.
    pub open spec fn travel_angle(self) -> int {
        self.angle + self.turn()
    }

    /// The heading after one step: the whole turn, twice the activation
    /// difference.
    pub open spec fn next_angle(self) -> int {
        self.angle + 2 * self.turn()
    }

    /// The position after one step, travelling along `travel`.
    pub open spec fn next_position(self, travel: Direction) -> (int, int) {
        (
            self.position.x + self.speed() * travel.x,
            self.position.y + self.speed() * travel.y,
        )
    }

    /// Every value that one step computes fits in an `i64`.
    pub open spec fn step_fits(self, travel: Direction) -> bool {
        &&& fits_i64(self.turn())
        &&& fits_i64(self.left_engine_activation + self.right_engine_activation)
        &&& fits_i64(self.speed())
        &&& fits_i64(self.travel_angle())
        &&& fits_i64(self.next_angle())
        &&& fits_i64(self.speed() * travel.x)
        &&& fits_i64(self.speed() * travel.y)
        &&& fits_i64(self.next_position(travel).0)
        &&& fits_i64(self.next_position(travel).1)
    }

    /// The vehicle written out: one line per gene, then a line with its
    /// activations, position and angle.
    pub fn to_strings(&self) -> (r: Vec<String>)
        ensures
            r@.len() == self.genes@.len() + 1,
            forall|i: int| 0 <= i < self.genes@.len() ==> #[trigger] r@[i]@ == gene_text(self.genes@[i]),
            r@[self.genes@.len() as int]@ == state_text(*self),
    {
        let mut lines: Vec<String> = Vec::new();
        let mut i: usize = 0;
        while i < self.genes.len()
            invariant
                0 <= i <= self.genes@.len(),
                lines@.len() == i,
                forall|k: int| 0 <= k < i ==> #[trigger] lines@[k]@ == gene_text(self.genes@[k]),
            decreases self.genes@.len() - i,
        {
            lines.push(describe_gene(&self.genes[i]));
            i = i + 1;
        }
        let line = String::from_str("left engine: ");
        let line = line.concat(decimal(self.left_engine_activation).as_str());
        let line = line.concat(", right engine ");
        let line = line.concat(decimal(self.right_engine_activation).as_str());
        let line = line.concat(", pos: [");
        let line = line.concat(decimal(self.position.x).as_str());
        let line = line.concat(", ");
        let line = line.concat(decimal(self.position.y).as_str());
        let line = line.concat("], angle: ");
        let line = line.concat(decimal(self.angle).as_str());
        lines.push(line);
        lines
    }

    pub fn genes(&self) -> (r: &Genes)
        ensures
            r@ == self.genes@,
    {
        &self.genes
    }
}

/// The line that writes out a vehicle's activations, position and angle.
pub open spec fn state_text(v: Vehicle) -> Seq<char> {
    "left engine: "@ + decimal_text(v.left_engine_activation as int) + ", right engine "@
        + decimal_text(v.right_engine_activation as int) + ", pos: ["@ + decimal_text(
        v.position.x as int,
    ) + ", "@ + decimal_text(v.position.y as int) + "], angle: "@ + decimal_text(v.angle as int)
}

/// Every light lies within range.
pub open spec fn lights_in_range(lights: Seq<Light>) -> bool {
    forall|i: int| 0 <= i < lights.len() ==> #[trigger] lights[i].in_range()
}

/// The world position of a point at `relative_pos` in the body frame of
/// `vehicle`, which faces `facing`.
pub fn compose_pos(vehicle: &Vehicle, relative_pos: Offset, facing: Direction) -> (r: Point)
    requires
        vehicle.position.in_range(),
        relative_pos.in_range(),
        facing.in_range(),
    ensures
        r@ == composed(vehicle.position@, relative_pos, facing),
        within(r.x as int, 2 * COORD_LIMIT),
        within(r.y as int, 2 * COORD_LIMIT),
{
    rotate_and_translate(vehicle.position, relative_pos, facing)
}

/// What a sensor at `sensor_position` reads of `light`.
pub fn sensor_intensity(sensor_position: Point, light: &Light, coef: &Coefficient) -> (r: i64)
    requires
        within(sensor_position.x as int, 2 * COORD_LIMIT),
        within(sensor_position.y as int, 2 * COORD_LIMIT),
        light.in_range(),
    ensures
        r == intensity(sensor_position@, *light, *coef),
{
    let d = distance(sensor_position, light.position);
    let raw = match coef {
        Coefficient::Excitatory => light.radius - d,
        Coefficient::Inhibitory => d,
    };
    if raw > 0 {
        raw
    } else {
        0
    }
}

/// Where the sensor on `side` sits in the body frame.
fn sensor_offset_of(side: Side) -> (r: Offset)
    ensures
        r == sensor_offset(side),
{
    match side {
        Side::Left => Offset { x: 0, y: VEHICLE_RADIUS },
        Side::Right => Offset { x: 0, y: -VEHICLE_RADIUS },
    }
}

/// Adds to each actuator of `vehicle` the stimulus that its genes take from
/// `lights`, the vehicle facing `facing` (the direction of its angle).
/// Nothing else of the vehicle changes.
pub fn stimulate(vehicle: &mut Vehicle, lights: &[Light], facing: Direction)
    requires
        old(vehicle).position.in_range(),
        facing.in_range(),
        lights_in_range(lights@),
        old(vehicle).left_engine_activation + old(vehicle).stimulus_from(lights@, facing, Side::Left)
            <= i64::MAX,
        old(vehicle).right_engine_activation + old(vehicle).stimulus_from(
            lights@,
            facing,
            Side::Right,
        ) <= i64::MAX,
    ensures
        final(vehicle).left_engine_activation == old(vehicle).left_engine_activation
            + old(vehicle).stimulus_from(lights@, facing, Side::Left),
        final(vehicle).right_engine_activation == old(vehicle).right_engine_activation
            + old(vehicle).stimulus_from(lights@, facing, Side::Right),
        final(vehicle).genes@ == old(vehicle).genes@,
        final(vehicle).position == old(vehicle).position,
        final(vehicle).angle == old(vehicle).angle,
{
    let ghost start = *vehicle;
    let ghost genes = vehicle.genes@;
    let ghost pos = vehicle.position@;
    let mut i: usize = 0;
    while i < lights.len()
        invariant
            0 <= i <= lights@.len(),
            vehicle.genes@ == genes,
            vehicle.position == start.position,
            vehicle.angle == start.angle,
            genes == start.genes@,
            pos == start.position@,
            start.position.in_range(),
            facing.in_range(),
            lights_in_range(lights@),
            start.left_engine_activation + start.stimulus_from(lights@, facing, Side::Left)
                <= i64::MAX,
            start.right_engine_activation + start.stimulus_from(lights@, facing, Side::Right)
                <= i64::MAX,
            vehicle.left_engine_activation == start.left_engine_activation + total_stimulus(
                pos,
                facing,
                genes,
                lights@.subrange(0, i as int),
                Side::Left,
            ),
            vehicle.right_engine_activation == start.right_engine_activation + total_stimulus(
                pos,
                facing,
                genes,
                lights@.subrange(0, i as int),
                Side::Right,
            ),
        decreases lights@.len() - i,
    {
        let light = &lights[i];
        proof {
            assert(lights@.subrange(0, i + 1).drop_last() =~= lights@.subrange(0, i as int));
            lemma_total_stimulus_prefix(pos, facing, genes, lights@, Side::Left, i + 1);
            lemma_total_stimulus_prefix(pos, facing, genes, lights@, Side::Right, i + 1);
        }
        let ghost left_before = vehicle.left_engine_activation;
        let ghost right_before = vehicle.right_engine_activation;
        let mut j: usize = 0;
        while j < vehicle.genes.len()
            invariant
                0 <= j <= genes.len(),
                vehicle.genes@ == genes,
                vehicle.position == start.position,
                vehicle.angle == start.angle,
                pos == start.position@,
                start.position.in_range(),
                facing.in_range(),
                light.in_range(),
                left_before + light_stimulus(pos, facing, genes, *light, Side::Left) <= i64::MAX,
                right_before + light_stimulus(pos, facing, genes, *light, Side::Right) <= i64::MAX,
                vehicle.left_engine_activation == left_before + light_stimulus(
                    pos,
                    facing,
                    genes.subrange(0, j as int),
                    *light,
                    Side::Left,
                ),
                vehicle.right_engine_activation == right_before + light_stimulus(
                    pos,
                    facing,
                    genes.subrange(0, j as int),
                    *light,
                    Side::Right,
                ),
                left_before >= i64::MIN,
                right_before >= i64::MIN,
            decreases genes.len() - j,
        {
            let gene = vehicle.genes[j];
            let relative_sensor_pos = sensor_offset_of(gene.sensor_side);
            let sensor_pos = compose_pos(vehicle, relative_sensor_pos, facing);
            let intensity = sensor_intensity(sensor_pos, light, &gene.coefficient);
            let stimulus = intensity / INTENSITY_TO_STIMULUS;
            proof {
                assert(genes.subrange(0, j + 1).drop_last() =~= genes.subrange(0, j as int));
                lemma_light_stimulus_prefix(pos, facing, genes, *light, Side::Left, j + 1);
                lemma_light_stimulus_prefix(pos, facing, genes, *light, Side::Right, j + 1);
                lemma_light_stimulus_prefix(pos, facing, genes, *light, Side::Left, j as int);
                lemma_light_stimulus_prefix(pos, facing, genes, *light, Side::Right, j as int);
            }
            match gene.engine_connection {
                Side::Left => vehicle.left_engine_activation = vehicle.left_engine_activation
                    + stimulus,
                Side::Right => vehicle.right_engine_activation = vehicle.right_engine_activation
                    + stimulus,
            }
            j = j + 1;
        }
        proof {
            assert(genes.subrange(0, genes.len() as int) =~= genes);
        }
        i = i + 1;
    }
    proof {
        assert(lights@.subrange(0, lights@.len() as int) =~= lights@);
    }
}

/// The heading along which `vehicle` travels in its next step, of which the
/// caller hands `advance_vehicle` the direction.
pub fn travel_heading(vehicle: &Vehicle) -> (r: i64)
    requires
        fits_i64(vehicle.turn()),
        fits_i64(vehicle.travel_angle()),
    ensures
        r == vehicle.travel_angle(),
{
    let curve = vehicle.right_engine_activation - vehicle.left_engine_activation;
    vehicle.angle + curve
}

/// Moves `vehicle` one step: it turns by twice its activation difference,
/// travels its speed along `travel` (the direction of its travel heading),
/// and both activations fall back to zero.
pub fn advance_vehicle(vehicle: &mut Vehicle, travel: Direction)
    requires
        old(vehicle).step_fits(travel),
    ensures
        final(vehicle).angle == old(vehicle).next_angle(),
        final(vehicle).position@ == old(vehicle).next_position(travel),
        final(vehicle).left_engine_activation == 0,
        final(vehicle).right_engine_activation == 0,
        final(vehicle).genes@ == old(vehicle).genes@,
{
    let curve = vehicle.right_engine_activation - vehicle.left_engine_activation;
    let distance = vehicle.left_engine_activation + vehicle.right_engine_activation + MINIMUM_SPEED;
    let new_half_angle = vehicle.angle + curve;
    let new_angle = new_half_angle + curve;
    let new_pos = Point {
        x: vehicle.position.x + distance * travel.x,
        y: vehicle.position.y + distance * travel.y,
    };
    vehicle.angle = new_angle;
    vehicle.position = new_pos;
    vehicle.left_engine_activation = 0;
    vehicle.right_engine_activation = 0;
}

/// Each gene's stimulus is never negative.
pub proof fn lemma_gene_stimulus_nonneg(position: (int, int), facing: Direction, gene: Gene, light: Light)
    ensures
        gene_stimulus(position, facing, gene, light) >= 0,
{
}

/// The stimulus from one light grows with each gene taken in: that of the
/// first `j` genes is between zero and that of all of them.
pub proof fn lemma_light_stimulus_prefix(
    position: (int, int),
    facing: Direction,
    genes: Seq<Gene>,
    light: Light,
    side: Side,
    j: int,
)
    requires
        0 <= j <= genes.len(),
    ensures
        0 <= light_stimulus(position, facing, genes.subrange(0, j), light, side) <= light_stimulus(
            position,
            facing,
            genes,
            light,
            side,
        ),
    decreases genes.len(),
{
    if genes.len() > 0 {
        lemma_gene_stimulus_nonneg(position, facing, genes.last(), light);
        if j < genes.len() {
            lemma_light_stimulus_prefix(position, facing, genes.drop_last(), light, side, j);
            assert(genes.drop_last().subrange(0, j) =~= genes.subrange(0, j));
        } else {
            lemma_light_stimulus_prefix(
                position,
                facing,
                genes.drop_last(),
                light,
                side,
                j - 1,
            );
            assert(genes.subrange(0, j) =~= genes);
        }
    } else {
        assert(genes.subrange(0, j) =~= genes);
    }
}

/// The stimulus from all lights grows with each light taken in: that of the
/// first `i` lights is between zero and that of all of them.
pub proof fn lemma_total_stimulus_prefix(
    position: (int, int),
    facing: Direction,
    genes: Seq<Gene>,
    lights: Seq<Light>,
    side: Side,
    i: int,
)
    requires
        0 <= i <= lights.len(),
    ensures
        0 <= total_stimulus(position, facing, genes, lights.subrange(0, i), side) <= total_stimulus(
            position,
            facing,
            genes,
            lights,
            side,
        ),
    decreases lights.len(),
{
    if lights.len() > 0 {
        lemma_light_stimulus_prefix(position, facing, genes, lights.last(), side, genes.len() as int);
        if i < lights.len() {
            lemma_total_stimulus_prefix(position, facing, genes, lights.drop_last(), side, i);
            assert(lights.drop_last().subrange(0, i) =~= lights.subrange(0, i));
        } else {
            lemma_total_stimulus_prefix(
                position,
                facing,
                genes,
                lights.drop_last(),
                side,
                i - 1,
            );
            assert(lights.subrange(0, i) =~= lights);
        }
    } else {
        assert(lights.subrange(0, i) =~= lights);
    }
}

/// `genes` with every wiring crossed over: each sensor drives the actuator
/// opposite to the one it drove.
pub open spec fn crossed_over(genes: Seq<Gene>) -> Seq<Gene> {
    genes.map_values(|g: Gene| Gene { engine_connection: opposite(g.engine_connection), ..g })
}

/// The stimulus from one light is additive over genes: the genes `a` and
/// then `b` take the sum of what each takes alone.
pub proof fn lemma_light_stimulus_concat(
    position: (int, int),
    facing: Direction,
    a: Seq<Gene>,
    b: Seq<Gene>,
    light: Light,
    side: Side,
)
    ensures
        light_stimulus(position, facing, a + b, light, side) == light_stimulus(
            position,
            facing,
            a,
            light,
            side,
        ) + light_stimulus(position, facing, b, light, side),
    decreases b.len(),
{
    if b.len() == 0 {
        assert(a + b =~= a);
    } else {
        lemma_light_stimulus_concat(position, facing, a, b.drop_last(), light, side);
        assert((a + b).drop_last() =~= a + b.drop_last());
        assert((a + b).last() == b.last());
    }
}

/// Stimulation is additive over lights: the lights `a` and then `b` give
/// the sum of what each gives alone.
pub proof fn lemma_total_stimulus_concat_lights(
    position: (int, int),
    facing: Direction,
    genes: Seq<Gene>,
    a: Seq<Light>,
    b: Seq<Light>,
    side: Side,
)
    ensures
        total_stimulus(position, facing, genes, a + b, side) == total_stimulus(
            position,
            facing,
            genes,
            a,
            side,
        ) + total_stimulus(position, facing, genes, b, side),
    decreases b.len(),
{
    if b.len() == 0 {
        assert(a + b =~= a);
    } else {
        lemma_total_stimulus_concat_lights(position, facing, genes, a, b.drop_last(), side);
        assert((a + b).drop_last() =~= a + b.drop_last());
        assert((a + b).last() == b.last());
    }
}

/// Stimulation is additive over genes: the genes `a` and then `b` take the
/// sum of what each takes alone from all lights.
pub proof fn lemma_total_stimulus_concat_genes(
    position: (int, int),
    facing: Direction,
    a: Seq<Gene>,
    b: Seq<Gene>,
    lights: Seq<Light>,
    side: Side,
)
    ensures
        total_stimulus(position, facing, a + b, lights, side) == total_stimulus(
            position,
            facing,
            a,
            lights,
            side,
        ) + total_stimulus(position, facing, b, lights, side),
    decreases lights.len(),
{
    if lights.len() > 0 {
        lemma_total_stimulus_concat_genes(position, facing, a, b, lights.drop_last(), side);
        lemma_light_stimulus_concat(position, facing, a, b, lights.last(), side);
    }
}

/// Stimulation does not depend on order: two groups of lights, or two
/// groups of genes, give the same activation whichever comes first, and
/// stimulating with `a` and then with `b` adds what stimulating with `a + b`
/// adds.
pub proof fn lemma_stimulation_order_independent(
    position: (int, int),
    facing: Direction,
    genes: Seq<Gene>,
    other_genes: Seq<Gene>,
    a: Seq<Light>,
    b: Seq<Light>,
    side: Side,
)
    ensures
        total_stimulus(position, facing, genes, a + b, side) == total_stimulus(
            position,
            facing,
            genes,
            b + a,
            side,
        ),
        total_stimulus(position, facing, genes, a + b, side) == total_stimulus(
            position,
            facing,
            genes,
            a,
            side,
        ) + total_stimulus(position, facing, genes, b, side),
        total_stimulus(position, facing, genes + other_genes, a, side) == total_stimulus(
            position,
            facing,
            other_genes + genes,
            a,
            side,
        ),
{
    lemma_total_stimulus_concat_lights(position, facing, genes, a, b, side);
    lemma_total_stimulus_concat_lights(position, facing, genes, b, a, side);
    lemma_total_stimulus_concat_genes(position, facing, genes, other_genes, a, side);
    lemma_total_stimulus_concat_genes(position, facing, other_genes, genes, a, side);
}

/// Of two sequences with the same elements, each as often: they are as long,
/// and when not empty the last element of `a` stands at some index `k` of
/// `b`, whose removal leaves the elements of `a` without its last.
pub proof fn lemma_same_elements_split<A>(a: Seq<A>, b: Seq<A>) -> (k: int)
    requires
        a.to_multiset() == b.to_multiset(),
    ensures
        a.len() == b.len(),
        a.len() > 0 ==> {
            &&& 0 <= k < b.len()
            &&& b[k] == a.last()
            &&& b.remove(k).to_multiset() == a.drop_last().to_multiset()
        },
{
    broadcast use vstd::seq_lib::group_to_multiset_ensures, vstd::multiset::group_multiset_axioms;

    assert(a.to_multiset().len() == a.len());
    assert(b.to_multiset().len() == b.len());
    if a.len() > 0 {
        let x = a.last();
        let rest = a.drop_last();
        assert(rest.push(x) =~= a);
        assert(b.to_multiset().count(x) > 0);
        assert(b.contains(x));
        let k = choose|k: int| 0 <= k < b.len() && b[k] == x;
        assert(b.remove(k).to_multiset() =~= rest.to_multiset());
        k
    } else {
        0
    }
}

/// The stimulus from one light is the same for any order of the genes: two
/// gene lists with the same genes, each as often, take the same stimulus.
pub proof fn lemma_light_stimulus_permutation(
    position: (int, int),
    facing: Direction,
    a: Seq<Gene>,
    b: Seq<Gene>,
    light: Light,
    side: Side,
)
    requires
        a.to_multiset() == b.to_multiset(),
    ensures
        light_stimulus(position, facing, a, light, side) == light_stimulus(
            position,
            facing,
            b,
            light,
            side,
        ),
    decreases a.len(),
{
    let k = lemma_same_elements_split(a, b);
    if a.len() > 0 {
        let x = a.last();
        let rest = a.drop_last();
        let front = b.subrange(0, k);
        let back = b.subrange(k + 1, b.len() as int);
        assert(b.remove(k) =~= front + back);
        assert(b =~= front + seq![x] + back);
        lemma_light_stimulus_permutation(position, facing, rest, front + back, light, side);
        lemma_light_stimulus_concat(position, facing, front, back, light, side);
        lemma_light_stimulus_concat(position, facing, front + seq![x], back, light, side);
        lemma_light_stimulus_concat(position, facing, front, seq![x], light, side);
        assert(seq![x].drop_last() =~= Seq::<Gene>::empty());
        assert(light_stimulus(position, facing, Seq::<Gene>::empty(), light, side) == 0);
        assert(light_stimulus(position, facing, seq![x], light, side) == light_stimulus(
            position,
            facing,
            a,
            light,
            side,
        ) - light_stimulus(position, facing, rest, light, side));
    }
}

/// Stimulation is the same for any order of the lights: two light lists
/// with the same lights, each as often, give the same stimulus.
pub proof fn lemma_total_stimulus_permutation_lights(
    position: (int, int),
    facing: Direction,
    genes: Seq<Gene>,
    a: Seq<Light>,
    b: Seq<Light>,
    side: Side,
)
    requires
        a.to_multiset() == b.to_multiset(),
    ensures
        total_stimulus(position, facing, genes, a, side) == total_stimulus(
            position,
            facing,
            genes,
            b,
            side,
        ),
    decreases a.len(),
{
    let k = lemma_same_elements_split(a, b);
    if a.len() > 0 {
        let x = a.last();
        let rest = a.drop_last();
        let front = b.subrange(0, k);
        let back = b.subrange(k + 1, b.len() as int);
        assert(b.remove(k) =~= front + back);
        assert(b =~= front + seq![x] + back);
        lemma_total_stimulus_permutation_lights(position, facing, genes, rest, front + back, side);
        lemma_total_stimulus_concat_lights(position, facing, genes, front, back, side);
        lemma_total_stimulus_concat_lights(position, facing, genes, front + seq![x], back, side);
        lemma_total_stimulus_concat_lights(position, facing, genes, front, seq![x], side);
        assert(seq![x].drop_last() =~= Seq::<Light>::empty());
        assert(total_stimulus(position, facing, genes, Seq::<Light>::empty(), side) == 0);
        assert(total_stimulus(position, facing, genes, seq![x], side) == total_stimulus(
            position,
            facing,
            genes,
            a,
            side,
        ) - total_stimulus(position, facing, genes, rest, side));
    }
}

/// Stimulation is the same for any order of the genes, over all lights.
pub proof fn lemma_total_stimulus_permutation_genes(
    position: (int, int),
    facing: Direction,
    a: Seq<Gene>,
    b: Seq<Gene>,
    lights: Seq<Light>,
    side: Side,
)
    requires
        a.to_multiset() == b.to_multiset(),
    ensures
        total_stimulus(position, facing, a, lights, side) == total_stimulus(
            position,
            facing,
            b,
            lights,
            side,
        ),
    decreases lights.len(),
{
    if lights.len() > 0 {
        lemma_total_stimulus_permutation_genes(position, facing, a, b, lights.drop_last(), side);
        lemma_light_stimulus_permutation(position, facing, a, b, lights.last(), side);
    }
}

/// Two vehicles at the same place, facing the same way, whose genes are the
/// same up to order, take the same stimulus on each side from lights that
/// are the same up to order: `stimulate` leaves them with equal activations
/// when they start equal.
pub proof fn lemma_vehicle_stimulation_order_independent(
    first: Vehicle,
    second: Vehicle,
    first_lights: Seq<Light>,
    second_lights: Seq<Light>,
    facing: Direction,
    side: Side,
)
    requires
        first.position == second.position,
        first.genes@.to_multiset() == second.genes@.to_multiset(),
        first_lights.to_multiset() == second_lights.to_multiset(),
    ensures
        first.stimulus_from(first_lights, facing, side) == second.stimulus_from(
            second_lights,
            facing,
            side,
        ),
{
    lemma_total_stimulus_permutation_lights(
        first.position@,
        facing,
        first.genes@,
        first_lights,
        second_lights,
        side,
    );
    lemma_total_stimulus_permutation_genes(
        first.position@,
        facing,
        first.genes@,
        second.genes@,
        second_lights,
        side,
    );
}

/// Crossing every wiring over swaps the sides: what the crossed genes give
/// one actuator is what the uncrossed genes give the other, from the same
/// readings.
pub proof fn lemma_crossing_swaps_sides(
    position: (int, int),
    facing: Direction,
    genes: Seq<Gene>,
    lights: Seq<Light>,
    side: Side,
)
    ensures
        total_stimulus(position, facing, crossed_over(genes), lights, side) == total_stimulus(
            position,
            facing,
            genes,
            lights,
            opposite(side),
        ),
    decreases lights.len(),
{
    if lights.len() > 0 {
        lemma_crossing_swaps_sides(position, facing, genes, lights.drop_last(), side);
        lemma_crossing_swaps_sides_one_light(position, facing, genes, lights.last(), side);
    }
}

proof fn lemma_crossing_swaps_sides_one_light(
    position: (int, int),
    facing: Direction,
    genes: Seq<Gene>,
    light: Light,
    side: Side,
)
    ensures
        light_stimulus(position, facing, crossed_over(genes), light, side) == light_stimulus(
            position,
            facing,
            genes,
            light,
            opposite(side),
        ),
    decreases genes.len(),
{
    if genes.len() > 0 {
        lemma_crossing_swaps_sides_one_light(position, facing, genes.drop_last(), light, side);
        assert(crossed_over(genes).drop_last() =~= crossed_over(genes.drop_last()));
    }
}

/// An excitatory sensor at a light's center reads the light's whole radius,
/// and one at the radius or farther reads nothing.
pub proof fn lemma_excitatory_intensity(sensor: (int, int), light: Light)
    requires
        light.radius >= 0,
    ensures
        sensor == light.position@ ==> intensity(sensor, light, Coefficient::Excitatory)
            == light.radius,
        squared_distance(sensor, light.position@) >= light.radius * light.radius ==> intensity(
            sensor,
            light,
            Coefficient::Excitatory,
        ) == 0,
{
    let n = squared_distance(sensor, light.position@);
    let dx = light.position@.0 - sensor.0;
    let dy = light.position@.1 - sensor.1;
    assert(n >= 0) by (nonlinear_arith)
        requires
            n == dx * dx + dy * dy,
    ;
    lemma_floor_sqrt(n as nat);
    let d = floor_sqrt(n as nat) as int;
    let r = light.radius as int;
    if sensor == light.position@ {
        assert(dx == 0 && dy == 0);
        assert(n == 0) by (nonlinear_arith)
            requires
                n == dx * dx + dy * dy,
                dx == 0,
                dy == 0,
        ;
        assert(floor_sqrt(0) == 0);
    }
    if n >= r * r {
        assert(d >= r) by (nonlinear_arith)
            requires
                n < (d + 1) * (d + 1),
                n >= r * r,
                d >= 0,
                r >= 0,
        ;
    }
}

/// A vehicle without genes takes no stimulus, and one with both
/// activations at zero keeps its heading and travels the minimum speed
/// along it.
pub proof fn lemma_idle_vehicle_goes_straight(
    vehicle: Vehicle,
    lights: Seq<Light>,
    facing: Direction,
    side: Side,
    travel: Direction,
)
    ensures
        vehicle.genes@.len() == 0 ==> vehicle.stimulus_from(lights, facing, side) == 0,
        vehicle.left_engine_activation == 0 && vehicle.right_engine_activation == 0 ==> {
            &&& vehicle.next_angle() == vehicle.angle
            &&& vehicle.travel_angle() == vehicle.angle
            &&& vehicle.next_position(travel) == (
                vehicle.position.x + MINIMUM_SPEED * travel.x,
                vehicle.position.y + MINIMUM_SPEED * travel.y,
            )
        },
{
    if vehicle.genes@.len() == 0 {
        lemma_no_genes_no_stimulus(vehicle.position@, facing, vehicle.genes@, lights, side);
    }
}

proof fn lemma_no_genes_no_stimulus(
    position: (int, int),
    facing: Direction,
    genes: Seq<Gene>,
    lights: Seq<Light>,
    side: Side,
)
    requires
        genes.len() == 0,
    ensures
        total_stimulus(position, facing, genes, lights, side) == 0,
    decreases lights.len(),
{
    if lights.len() > 0 {
        lemma_no_genes_no_stimulus(position, facing, genes, lights.drop_last(), side);
    }
}

} // verus!
