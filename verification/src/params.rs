//! The tunable numbers of the erosion simulation.

use vstd::prelude::*;
use crate::fixed::Fixed;

verus! {

/// The numbers that steer a simulation. None of them is derived: they are
/// tuned by eye, and a different grid size may want different values.
#[derive(Clone, Copy, Debug, PartialEq, Eq, Structural)]
pub struct ErosionParams {
    /// How much of its previous velocity a particle keeps, from zero (pure
    /// steepest descent) to one (never turns).
    pub inertia: Fixed,
    /// Scales how much sediment moving water can carry.
    pub capacity_factor: Fixed,
    /// The most sediment a particle can carry, whatever its speed.
    pub max_capacity: Fixed,
    /// The part of its excess sediment a particle drops in one step.
    pub deposit_rate: Fixed,
    /// The part of its free capacity a particle fills in one step.
    pub erode_rate: Fixed,
    /// The part of its water and sediment a particle loses in one step.
    pub evaporation: Fixed,
    /// A particle with less water than this has dried up.
    pub min_volume: Fixed,
    /// The water a particle starts with.
    pub initial_volume: Fixed,
    /// No particle starts below this height.
    pub sea_level: Fixed,
    /// The most steps a particle takes.
    pub max_age: usize,
    /// The largest stable height difference between neighbouring cells.
    pub talus: Fixed,
    /// Scales the talus threshold.
    pub settling: Fixed,
}

impl ErosionParams {
    /// The values the library was tuned with.
    pub open spec fn spec_standard() -> ErosionParams {
        ErosionParams {
            inertia: Fixed::spec_ratio(3, 10),
            capacity_factor: Fixed::spec_from_int(1),
            max_capacity: Fixed::spec_from_int(10),
            deposit_rate: Fixed::spec_ratio(1, 100),
            erode_rate: Fixed::spec_ratio(1, 100),
            evaporation: Fixed::spec_ratio(1, 100),
            min_volume: Fixed::spec_ratio(1, 100),
            initial_volume: Fixed::spec_from_int(1),
            sea_level: Fixed::spec_ratio(1, 2),
            max_age: 64,
            talus: Fixed::spec_ratio(1, 100),
            settling: Fixed::spec_ratio(4, 5),
        }
    }

    /// The values the library was tuned with.
    pub fn standard() -> (r: ErosionParams)
        ensures
            r == ErosionParams::spec_standard(),
    {
        ErosionParams {
            inertia: Fixed::ratio(3, 10),
            capacity_factor: Fixed::from_int(1),
            max_capacity: Fixed::from_int(10),
            deposit_rate: Fixed::ratio(1, 100),
            erode_rate: Fixed::ratio(1, 100),
            evaporation: Fixed::ratio(1, 100),
            min_volume: Fixed::ratio(1, 100),
            initial_volume: Fixed::from_int(1),
            sea_level: Fixed::ratio(1, 2),
            max_age: 64,
            talus: Fixed::ratio(1, 100),
            settling: Fixed::ratio(4, 5),
        }
    }
}

} // verus!
