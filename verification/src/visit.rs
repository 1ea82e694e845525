use vstd::prelude::*;
use crate::constants::DAYS_IN_PERIOD;
use crate::errors::ModelError;
use crate::node::Installation;

verus! {

/// One scheduled call at an installation within a route.
///
/// An installation that needs several calls per period has several
/// `Visit` instances. A visit records the identifier and deck demand of
/// its installation and moves in two phases toward full assignment: a
/// departure day and a vessel, in either order.
#[derive(Debug, Clone)]
pub struct Visit {
    /// Identifier of the installation this visit serves.
    pub installation_id: u32,
    /// Deck demand of that installation, copied at construction.
    pub demand: u32,
    /// The scheduled departure day for the visit, zero-indexed within
    /// the planning period.
    pub departure_day: Option<u32>,
    /// The vessel assigned to this visit.
    pub vessel_id: Option<u32>,
    /// Whether the visit is fully scheduled; recomputed after every
    /// mutation, never stale.
    pub is_assigned: bool,
}

impl Visit {
    /// `is_assigned` is exactly "both the departure day and the vessel
    /// are set".
    pub open spec fn wf(self) -> bool {
        self.is_assigned == (self.departure_day is Some && self.vessel_id is Some)
    }

    /// Creates an unassigned visit to the given installation.
    pub fn new(installation: &Installation) -> (v: Visit)
        ensures
            v.installation_id == installation.node.id,
            v.demand == installation.demand,
            v.departure_day is None,
            v.vessel_id is None,
            !v.is_assigned,
            v.wf(),
    {
        Visit {
            installation_id: installation.node.id,
            demand: installation.demand,
            departure_day: None,
            vessel_id: None,
            is_assigned: false,
        }
    }

    /// Returns the identifier of the installation this visit serves.
    pub fn installation_id(&self) -> (r: u32)
        ensures
            r == self.installation_id,
    {
        self.installation_id
    }

    /// Sets the departure day and recomputes `is_assigned`.
    ///
    /// A day at or beyond the planning period is rejected without any
    /// change of state.
    pub fn set_departure_day(&mut self, departure_day: u32) -> (r: Result<(), ModelError>)
        ensures
            (r is Ok) <==> departure_day < DAYS_IN_PERIOD,
            r is Err ==> r == Err::<(), ModelError>(ModelError::PreconditionViolation),
            r is Err ==> *final(self) == *old(self),
            r is Ok ==> final(self).departure_day == Some(departure_day),
            r is Ok ==> final(self).vessel_id == old(self).vessel_id,
            r is Ok ==> final(self).installation_id == old(self).installation_id,
            r is Ok ==> final(self).demand == old(self).demand,
            r is Ok ==> final(self).is_assigned == (old(self).vessel_id is Some),
            r is Ok ==> final(self).wf(),
    {
        if departure_day >= DAYS_IN_PERIOD {
            return Err(ModelError::PreconditionViolation);
        }
        self.departure_day = Some(departure_day);
        self.update_assign_status();
        Ok(())
    }

    /// Assigns the vessel and recomputes `is_assigned`; always succeeds.
    pub fn assign_vessel(&mut self, vessel_id: u32)
        ensures
            final(self).vessel_id == Some(vessel_id),
            final(self).departure_day == old(self).departure_day,
            final(self).installation_id == old(self).installation_id,
            final(self).demand == old(self).demand,
            final(self).is_assigned == (old(self).departure_day is Some),
            final(self).wf(),
    {
        self.vessel_id = Some(vessel_id);
        self.update_assign_status();
    }

    /// Recomputes `is_assigned` from the departure day and the vessel.
    fn update_assign_status(&mut self)
        ensures
            final(self).is_assigned == (old(self).departure_day is Some
                && old(self).vessel_id is Some),
            final(self).departure_day == old(self).departure_day,
            final(self).vessel_id == old(self).vessel_id,
            final(self).installation_id == old(self).installation_id,
            final(self).demand == old(self).demand,
            final(self).wf(),
    {
        self.is_assigned = self.departure_day.is_some() && self.vessel_id.is_some();
    }

    /// Returns the deck demand the visit places on a vessel.
    pub fn deck_demand(&self) -> (r: u32)
        ensures
            r == self.demand,
    {
        self.demand
    }

    /// Assignment equivalence: in every well-formed visit state,
    /// `is_assigned` holds exactly when both the departure day and the
    /// vessel are set.
    pub proof fn lemma_assignment_equivalence(v: Visit)
        requires
            v.wf(),
        ensures
            v.is_assigned == (v.departure_day is Some && v.vessel_id is Some),
    {
    }
}

} // verus!
