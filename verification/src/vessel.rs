use vstd::prelude::*;

verus! {

/// Static catalogue entry for a supply vessel.
///
/// Speed and fuel-consumption rates are held as exact integers in
/// thousandths of their natural unit (knots, units of fuel per hour);
/// callers convert from fractional readings.
#[derive(Debug, Clone)]
pub struct Vessel {
    pub idx: u32,
    pub name: String,
    /// Deck capacity, in deck-cargo units.
    pub deck_capacity: u32,
    /// Bulk capacity, in bulk-cargo units.
    pub bulk_capacity: u32,
    /// Sailing speed, in thousandths of a knot.
    pub speed: u64,
    pub vessel_type: String,
    /// Fuel consumption while sailing, in thousandths of a unit per hour.
    pub fcs: u64,
    /// Fuel consumption while waiting, in thousandths of a unit per hour.
    pub fcw: u64,
    /// Operating cost of the vessel.
    pub cost: u32,
}

} // verus!
