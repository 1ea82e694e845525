use vstd::prelude::*;
use crate::constants::{DAYS_IN_PERIOD, REL_DEPARTURE_TIME};
use crate::distance_manager::DistanceManager;
use crate::errors::ModelError;
use crate::node::Base;
use crate::vessel::Vessel;
use crate::visit::Visit;

verus! {

/// One vessel round trip from the base through an ordered sequence of
/// visits, enforcing deck capacity and propagating timing as visits are
/// appended. A voyage never shrinks: no operation removes a visit or
/// decreases the deck load.
#[derive(Debug, Clone)]
pub struct Voyage {
    /// Vessel assigned to this voyage, if any.
    pub vessel: Option<Vessel>,
    /// Start time in hours from the period's origin, derived from the
    /// start day whenever one is set.
    pub start_time: Option<u32>,
    /// Start day of the voyage, if assigned.
    pub start_day: Option<u32>,
    /// Running sum of the deck demands accepted while a vessel was
    /// assigned.
    pub deck_load: u32,
    /// End time in hours; declared for future route-duration work and
    /// deliberately never derived here, so it stays `None`.
    pub end_time: Option<u32>,
    /// Identifier of the base the voyage departs from and returns to.
    pub base_id: u32,
    /// Ordered sequence of visits.
    pub route: Vec<Visit>,
    /// Whether vessel, start day and start time are all set; recomputed
    /// after every mutation, never stale.
    pub is_scheduled: bool,
}

/// The state a visit takes when `voyage` accepts it: the voyage's
/// vessel (if any) is assigned to it, the voyage's start day (if any)
/// becomes its departure day, and `is_assigned` is recomputed by
/// whichever of those two mutations ran.
pub open spec fn spec_placed(visit: Visit, voyage: Voyage) -> Visit {
    let vessel_id = match voyage.vessel {
        Some(v) => Some(v.idx),
        None => visit.vessel_id,
    };
    let departure_day = match voyage.start_day {
        Some(d) => Some(d),
        None => visit.departure_day,
    };
    let is_assigned = if voyage.vessel is Some || voyage.start_day is Some {
        departure_day is Some && vessel_id is Some
    } else {
        visit.is_assigned
    };
    Visit {
        installation_id: visit.installation_id,
        demand: visit.demand,
        departure_day,
        vessel_id,
        is_assigned,
    }
}

impl Voyage {
    /// Scheduling and timing consistency: `is_scheduled` is exactly
    /// "vessel, start day and start time are all set"; the start time
    /// exists exactly when the start day does and is derived from it;
    /// the end time is never derived.
    pub open spec fn wf(self) -> bool {
        &&& self.is_scheduled == (self.vessel is Some && self.start_time is Some
            && self.start_day is Some)
        &&& match self.start_day {
            Some(d) => self.start_time matches Some(t) && t == d * 24 + REL_DEPARTURE_TIME,
            None => self.start_time is None,
        }
        &&& self.end_time is None
    }

    /// Creates an empty voyage from the given base: no vessel, no
    /// timing, zero load, empty route.
    ///
    /// The distance matrix is shared context for later route-cost
    /// evaluation; the voyage itself records only the base's identifier.
    #[allow(unused_variables)]
    pub fn new(distance_manager: &DistanceManager, base: &Base) -> (r: Voyage)
        ensures
            r.vessel is None,
            r.start_time is None,
            r.start_day is None,
            r.deck_load == 0,
            r.end_time is None,
            r.base_id == base.node.id,
            r.route@ == Seq::<Visit>::empty(),
            !r.is_scheduled,
            r.wf(),
    {
        Voyage {
            vessel: None,
            start_time: None,
            start_day: None,
            deck_load: 0,
            end_time: None,
            base_id: base.node.id,
            route: Vec::new(),
            is_scheduled: false,
        }
    }

    /// Assigns a vessel to the voyage and recomputes the scheduled
    /// status.
    ///
    /// The accumulated deck load is deliberately not re-validated
    /// against the new vessel's capacity: a route accepted under an
    /// earlier (or absent) vessel is kept as it stands, so capacity
    /// checking is order-dependent on when the vessel is bound.
    pub fn set_vessel(&mut self, vessel: Vessel)
        ensures
            final(self).vessel == Some(vessel),
            final(self).start_time == old(self).start_time,
            final(self).start_day == old(self).start_day,
            final(self).deck_load == old(self).deck_load,
            final(self).end_time == old(self).end_time,
            final(self).base_id == old(self).base_id,
            final(self).route == old(self).route,
            final(self).is_scheduled == (old(self).start_time is Some
                && old(self).start_day is Some),
            old(self).wf() ==> final(self).wf(),
    {
        self.vessel = Some(vessel);
        self.update_scheduled_status();
    }

    /// Sets the start day, derives the start time from it and
    /// recomputes the scheduled status.
    pub fn set_start_day(&mut self, start_day: u32)
        requires
            start_day * 24 + REL_DEPARTURE_TIME <= u32::MAX,
        ensures
            final(self).start_day == Some(start_day),
            final(self).start_time matches Some(t) && t == start_day * 24 + REL_DEPARTURE_TIME,
            final(self).vessel == old(self).vessel,
            final(self).deck_load == old(self).deck_load,
            final(self).end_time == old(self).end_time,
            final(self).base_id == old(self).base_id,
            final(self).route == old(self).route,
            final(self).is_scheduled == (old(self).vessel is Some),
            old(self).end_time is None ==> final(self).wf(),
    {
        self.start_day = Some(start_day);
        self.update_start_time();
    }

    /// Derives the start time from the start day, when one is set, and
    /// recomputes the scheduled status.
    fn update_start_time(&mut self)
        requires
            old(self).start_day matches Some(d) ==> d * 24 + REL_DEPARTURE_TIME <= u32::MAX,
        ensures
            old(self).start_day matches Some(d) ==> final(self).start_time matches Some(t) && t
                == d * 24 + REL_DEPARTURE_TIME,
            old(self).start_day matches Some(d) ==> final(self).is_scheduled == (old(
                self,
            ).vessel is Some),
            old(self).start_day is None ==> *final(self) == *old(self),
            final(self).start_day == old(self).start_day,
            final(self).vessel == old(self).vessel,
            final(self).deck_load == old(self).deck_load,
            final(self).end_time == old(self).end_time,
            final(self).base_id == old(self).base_id,
            final(self).route == old(self).route,
    {
        if let Some(day) = self.start_day {
            self.start_time = Some(day * 24 + REL_DEPARTURE_TIME);
            self.update_scheduled_status();
        }
    }

    /// Recomputes `is_scheduled` from the vessel, start time and start
    /// day.
    fn update_scheduled_status(&mut self)
        ensures
            final(self).is_scheduled == (old(self).vessel is Some && old(
                self,
            ).start_time is Some && old(self).start_day is Some),
            final(self).vessel == old(self).vessel,
            final(self).start_time == old(self).start_time,
            final(self).start_day == old(self).start_day,
            final(self).deck_load == old(self).deck_load,
            final(self).end_time == old(self).end_time,
            final(self).base_id == old(self).base_id,
            final(self).route == old(self).route,
    {
        self.is_scheduled = self.vessel.is_some() && self.start_time.is_some()
            && self.start_day.is_some();
    }

    /// Appends a visit to the route.
    ///
    /// With a vessel assigned, the visit is accepted only if the new
    /// deck load stays within the vessel's deck capacity; a rejected
    /// call reports the capacity error and changes nothing. Without a
    /// vessel, capacity is not checked and the load is left untracked.
    /// An accepted visit inherits the voyage's vessel and start day, as
    /// far as they are set, before it is appended.
    pub fn add_visit(&mut self, visit: Visit) -> (r: Result<(), ModelError>)
        requires
            old(self).start_day matches Some(d) ==> d < DAYS_IN_PERIOD,
        ensures
            (r is Err) <==> (old(self).vessel matches Some(v) && old(self).deck_load + visit.demand
                > v.deck_capacity),
            r is Err ==> r == Err::<(), ModelError>(ModelError::CapacityExceeded),
            r is Err ==> *final(self) == *old(self),
            r is Ok ==> final(self).route@ == old(self).route@.push(
                spec_placed(visit, *old(self)),
            ),
            r is Ok ==> final(self).deck_load == match old(self).vessel {
                Some(_) => old(self).deck_load + visit.demand,
                None => old(self).deck_load as int,
            },
            (r is Ok && old(self).vessel is Some) ==> final(self).deck_load
                <= old(self).vessel->Some_0.deck_capacity,
            final(self).vessel == old(self).vessel,
            final(self).start_time == old(self).start_time,
            final(self).start_day == old(self).start_day,
            final(self).end_time == old(self).end_time,
            final(self).base_id == old(self).base_id,
            final(self).is_scheduled == old(self).is_scheduled,
            old(self).wf() ==> final(self).wf(),
    {
        let mut visit = visit;
        let vessel_info: Option<(u32, u32)> = match &self.vessel {
            Some(v) => Some((v.idx, v.deck_capacity)),
            None => None,
        };
        if let Some((vessel_idx, deck_capacity)) = vessel_info {
            let new_load: u64 = self.deck_load as u64 + visit.demand as u64;
            if new_load > deck_capacity as u64 {
                return Err(ModelError::CapacityExceeded);
            }
            self.deck_load = new_load as u32;
            visit.assign_vessel(vessel_idx);
        }
        if let Some(start_day) = self.start_day {
            match visit.set_departure_day(start_day) {
                Ok(()) => {},
                Err(_) => {
                    proof {
                        assert(false);
                    }
                },
            }
        }
        self.route.push(visit);
        Ok(())
    }

    /// Returns the current deck load.
    pub fn get_deck_load(&self) -> (r: u32)
        ensures
            r == self.deck_load,
    {
        self.deck_load
    }

    /// Returns the scheduled status.
    pub fn is_scheduled(&self) -> (r: bool)
        ensures
            r == self.is_scheduled,
    {
        self.is_scheduled
    }

    /// Returns the start time, if one has been derived.
    pub fn get_start_time(&self) -> (r: Option<u32>)
        ensures
            r == self.start_time,
    {
        self.start_time
    }

    /// Returns the end time; never derived here, so always `None` for a
    /// well-formed voyage.
    pub fn get_end_time(&self) -> (r: Option<u32>)
        ensures
            r == self.end_time,
            self.wf() ==> r is None,
    {
        self.end_time
    }

    /// Scheduling equivalence: in every well-formed voyage state,
    /// `is_scheduled` holds exactly when the vessel, the start day and
    /// the start time are all set.
    pub proof fn lemma_scheduling_equivalence(v: Voyage)
        requires
            v.wf(),
        ensures
            v.is_scheduled == (v.vessel is Some && v.start_day is Some && v.start_time is Some),
    {
    }

    /// Start-time derivation: in every well-formed voyage state with a
    /// start day `d`, the start time is exactly `d * 24` hours plus the
    /// relative departure time.
    pub proof fn lemma_start_time_derivation(v: Voyage)
        requires
            v.wf(),
            v.start_day is Some,
        ensures
            v.start_time matches Some(t) && t == v.start_day->Some_0 * 24 + REL_DEPARTURE_TIME,
    {
    }
}

} // verus!
