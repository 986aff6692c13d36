//! The read side of a team: a view that is folded from the team's events,
//! one event at a time, and carries statistics over the latest forecasts.

use crate::events::{EventView, TeamEvent};
use crate::forecasts::{Entries, ForecastMap};
use crate::statistics::{distribution_of, mean_temperature_of, ConditionDistribution, Extreme};
use crate::team::{clone_members, Member, MemberView, TeamId};
use crate::weather::{CelsiusTemperature, WeatherCode};
use vstd::prelude::*;

verus! {

/// What a contract sees of a team's view.
pub ghost struct ViewState {
    pub id: Seq<char>,
    pub name: Seq<char>,
    pub members: Seq<MemberView>,
    pub forecasts: Entries,
    pub total_forecasts_tracked: nat,
    pub avg_minimum_temperature: Option<CelsiusTemperature>,
    pub avg_maximum_temperature: Option<CelsiusTemperature>,
    pub weather_condition_distribution: Map<WeatherCode, nat>,
}

/// The view after `event`.
///
/// A new member is appended as it comes: the view checks nothing, since
/// only a team that has checked its commands records events. A tracked
/// forecast replaces all forecasts and counts as one more tracking; the two
/// means and the distribution are those of the new forecasts alone.
pub open spec fn update_spec(view: ViewState, event: EventView) -> ViewState {
    match event {
        EventView::MemberAdded { member_id, email } => ViewState {
            members: view.members.push(MemberView { id: member_id, email }),
            ..view
        },
        EventView::ForecastTracked { forecasts } => ViewState {
            forecasts,
            total_forecasts_tracked: view.total_forecasts_tracked + 1,
            avg_minimum_temperature: mean_temperature_of(forecasts, Extreme::Minimum),
            avg_maximum_temperature: mean_temperature_of(forecasts, Extreme::Maximum),
            weather_condition_distribution: distribution_of(forecasts),
            ..view
        },
    }
}

/// The view after `events`, in their order.
pub open spec fn project_spec(view: ViewState, events: Seq<EventView>) -> ViewState
    decreases events.len(),
{
    if events.len() == 0 {
        view
    } else {
        update_spec(project_spec(view, events.drop_last()), events.last())
    }
}

/// The read side of one team.
#[derive(Debug)]
pub struct TeamView {
    pub id: TeamId,
    pub name: String,
    pub members: Vec<Member>,
    /// The latest forecast of each member.
    pub forecasts: ForecastMap,
    /// How many forecasts were ever tracked: a count of events, not of
    /// members.
    pub total_forecasts_tracked: u64,
    /// The mean minimum temperature of the latest forecasts.
    pub avg_minimum_temperature: Option<CelsiusTemperature>,
    /// The mean maximum temperature of the latest forecasts.
    pub avg_maximum_temperature: Option<CelsiusTemperature>,
    /// How often each condition occurs among the latest forecasts.
    pub weather_condition_distribution: ConditionDistribution,
}

impl View for TeamView {
    type V = ViewState;

    open spec fn view(&self) -> ViewState {
        ViewState {
            id: self.id@,
            name: self.name@,
            members: self.members@.map_values(|m: Member| m@),
            forecasts: self.forecasts@,
            total_forecasts_tracked: self.total_forecasts_tracked as nat,
            avg_minimum_temperature: self.avg_minimum_temperature,
            avg_maximum_temperature: self.avg_maximum_temperature,
            weather_condition_distribution: self.weather_condition_distribution@,
        }
    }
}

/// The view of a team of which nothing is known yet.
pub open spec fn empty_view() -> ViewState {
    ViewState {
        id: Seq::empty(),
        name: Seq::empty(),
        members: Seq::empty(),
        forecasts: Seq::empty(),
        total_forecasts_tracked: 0,
        avg_minimum_temperature: None,
        avg_maximum_temperature: None,
        weather_condition_distribution: Map::empty(),
    }
}

impl Clone for TeamView {
    fn clone(&self) -> (r: Self)
        ensures
            r@ == self@,
    {
        TeamView {
            id: self.id.clone(),
            name: self.name.clone(),
            members: clone_members(&self.members),
            forecasts: self.forecasts.clone(),
            total_forecasts_tracked: self.total_forecasts_tracked,
            avg_minimum_temperature: self.avg_minimum_temperature,
            avg_maximum_temperature: self.avg_maximum_temperature,
            weather_condition_distribution: self.weather_condition_distribution.clone(),
        }
    }
}

impl Default for TeamView {
    fn default() -> (r: Self)
        ensures
            r@ == empty_view(),
    {
        let r = TeamView {
            id: TeamId::default(),
            name: String::new(),
            members: Vec::new(),
            forecasts: ForecastMap::new(),
            total_forecasts_tracked: 0,
            avg_minimum_temperature: None,
            avg_maximum_temperature: None,
            weather_condition_distribution: ConditionDistribution::new(),
        };
        assert(r@.members =~= Seq::empty());
        r
    }
}

impl TeamView {
    /// Folds `event` into the view.
    ///
    /// The count of tracked forecasts is a `u64`: a view that has counted
    /// `u64::MAX` of them can take no further one.
    pub fn update(&mut self, event: &TeamEvent)
        requires
            event is ForecastTracked ==> old(self).total_forecasts_tracked < u64::MAX,
        ensures
            final(self)@ == update_spec(old(self)@, event@),
    {
        match event {
            TeamEvent::MemberAdded { member_id, email } => {
                let member = Member { id: member_id.clone(), email: email.clone() };
                let ghost added = member@;
                self.members.push(member);
                assert(self@.members =~= old(self)@.members.push(added));
            },
            TeamEvent::ForecastTracked { forecasts } => {
                let avg_minimum_temperature = forecasts.mean_temperature(Extreme::Minimum);
                let avg_maximum_temperature = forecasts.mean_temperature(Extreme::Maximum);
                let weather_condition_distribution = forecasts.condition_distribution();
                self.forecasts = forecasts.clone();
                self.avg_maximum_temperature = avg_maximum_temperature;
                self.avg_minimum_temperature = avg_minimum_temperature;
                self.weather_condition_distribution = weather_condition_distribution;
                self.total_forecasts_tracked += 1;
            },
        }
    }
}

} // verus!
