use vstd::prelude::*;

verus! {

/// One side of a vehicle's body.
#[derive(PartialEq, Eq, Structural, Copy, Clone, Debug)]
pub enum Side {
    Left,
    Right,
}

/// The side opposite to `side`.
pub open spec fn opposite(side: Side) -> Side {
    match side {
        Side::Left => Side::Right,
        Side::Right => Side::Left,
    }
}

impl Side {
    /// The opposite side: what a crossed wiring drives.
    pub fn cross(&self) -> (r: Side)
        ensures
            r == opposite(*self),
    {
        match self {
            Side::Left => Side::Right,
            Side::Right => Side::Left,
        }
    }
}

/// Whether a gene drives the actuator on its sensor's own side or the other one.
#[derive(PartialEq, Eq, Structural, Copy, Clone, Debug)]
pub enum Crossed {
    Crossed,
    Straight,
}

/// Whether light near the sensor raises (excitatory) or its distance
/// raises (inhibitory) the driven actuator's activation.
#[derive(PartialEq, Eq, Structural, Copy, Clone, Debug)]
pub enum Coefficient {
    Excitatory,
    Inhibitory,
}

/// One sensor-to-actuator wiring.
#[derive(PartialEq, Eq, Structural, Copy, Clone, Debug)]
pub struct Gene {
    pub sensor_side: Side,
    pub coefficient: Coefficient,
    pub engine_connection: Side,
}

pub type Genes = Vec<Gene>;

/// The actuator side that a sensor on `sensor_side` drives under `crossed`.
pub open spec fn wired_side(crossed: Crossed, sensor_side: Side) -> Side {
    match crossed {
        Crossed::Crossed => opposite(sensor_side),
        Crossed::Straight => sensor_side,
    }
}

impl Gene {
    pub fn new(crossed: Crossed, sensor_side: Side, coefficient: Coefficient) -> (r: Self)
        ensures
            r.sensor_side == sensor_side,
            r.coefficient == coefficient,
            r.engine_connection == wired_side(crossed, sensor_side),
    {
        match crossed {
            Crossed::Crossed => Self::new_crossed(sensor_side, coefficient),
            Crossed::Straight => Self::new_straight(sensor_side, coefficient),
        }
    }

    /// A gene whose sensor drives the actuator on its own side.
    pub fn new_straight(sensor_side: Side, coefficient: Coefficient) -> (r: Self)
        ensures
            r == (Gene { sensor_side, coefficient, engine_connection: sensor_side }),
    {
        Self { sensor_side, coefficient, engine_connection: sensor_side }
    }

    /// A gene whose sensor drives the actuator on the opposite side.
    pub fn new_crossed(sensor_side: Side, coefficient: Coefficient) -> (r: Self)
        ensures
            r == (Gene { sensor_side, coefficient, engine_connection: opposite(sensor_side) }),
    {
        Self { sensor_side, coefficient, engine_connection: sensor_side.cross() }
    }

    /// True when the gene is crossed: its sensor drives the actuator on the
    /// opposite side.
    pub fn sensor_and_engine_is_crossed(&self) -> (r: bool)
        ensures
            r == (self.sensor_side != self.engine_connection),
    {
        self.sensor_side != self.engine_connection
    }
}

} // verus!
