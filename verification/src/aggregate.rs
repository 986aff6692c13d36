//! The write side of a team: the state that commands are checked against,
//! rebuilt from the team's events.

use crate::commands::{CommandView, TeamCommand};
use crate::error::{Error, ErrorView};
use crate::events::{events_view, EventView, TeamEvent};
use crate::forecasts::{with_forecast, Entries, ForecastMap};
use crate::team::{Member, MemberId, MemberView, Team};
use vstd::prelude::*;

verus! {

/// What a contract sees of a team's write side.
pub ghost struct TeamState {
    pub team_id: Seq<char>,
    pub members: Seq<MemberView>,
    pub forecasts: Entries,
}

/// Some member has the identity `id`.
pub open spec fn is_member(members: Seq<MemberView>, id: Seq<char>) -> bool {
    exists|i: int| 0 <= i < members.len() && (#[trigger] members[i]).id == id
}

/// Some member has the email `email` or the identity `id`.
pub open spec fn is_taken(members: Seq<MemberView>, id: Seq<char>, email: Seq<char>) -> bool {
    exists|i: int|
        0 <= i < members.len() && ((#[trigger] members[i]).email == email || members[i].id == id)
}

/// What a team in `state` answers to `command`: the events that record it,
/// or the reason for which it is rejected.
pub open spec fn handle_spec(state: TeamState, command: CommandView) -> Result<
    Seq<EventView>,
    ErrorView,
> {
    match command {
        CommandView::AddMember { member_id, email } => {
            if is_taken(state.members, member_id, email) {
                Err(ErrorView::MemberAlreadyExists(email))
            } else {
                Ok(seq![EventView::MemberAdded { member_id, email }])
            }
        },
        CommandView::TrackMemberForecast { member_id, forecast } => {
            if !is_member(state.members, member_id) {
                Err(ErrorView::MemberNotFoundInTeam(member_id, state.team_id))
            } else {
                Ok(
                    seq![
                        EventView::ForecastTracked {
                            forecasts: with_forecast(state.forecasts, member_id, forecast),
                        },
                    ],
                )
            }
        },
    }
}

/// The state of a team after `event`.
pub open spec fn apply_spec(state: TeamState, event: EventView) -> TeamState {
    match event {
        EventView::MemberAdded { member_id, email } => TeamState {
            members: state.members.push(MemberView { id: member_id, email }),
            ..state
        },
        EventView::ForecastTracked { forecasts } => TeamState { forecasts, ..state },
    }
}

/// The state of a team after `events`, in their order.
pub open spec fn replay_spec(state: TeamState, events: Seq<EventView>) -> TeamState
    decreases events.len(),
{
    if events.len() == 0 {
        state
    } else {
        apply_spec(replay_spec(state, events.drop_last()), events.last())
    }
}

/// The state of a team after `command` has been handled and its events, if
/// it was accepted, have been applied. A rejected command leaves the state
/// as it was.
pub open spec fn execute_spec(state: TeamState, command: CommandView) -> TeamState {
    match handle_spec(state, command) {
        Ok(events) => replay_spec(state, events),
        Err(_) => state,
    }
}

/// What a command handler may consult besides the team's state. A team
/// consults nothing.
#[derive(Debug, Clone, Copy, Default)]
pub struct TeamServices;

/// The write side of one team: who is in it, and the latest forecast of
/// each member.
#[derive(Debug)]
pub struct TeamAggregate {
    pub team: Team,
    pub members: Vec<Member>,
    pub forecasts: ForecastMap,
}

impl View for TeamAggregate {
    type V = TeamState;

    open spec fn view(&self) -> TeamState {
        TeamState {
            team_id: self.team.id@,
            members: self.members@.map_values(|m: Member| m@),
            forecasts: self.forecasts@,
        }
    }
}

impl Default for TeamAggregate {
    /// The empty team: no members, no forecasts.
    fn default() -> (r: Self)
        ensures
            r@ == (TeamState {
                team_id: Seq::empty(),
                members: Seq::empty(),
                forecasts: Seq::empty(),
            }),
    {
        let r = TeamAggregate {
            team: Team::default(),
            members: Vec::new(),
            forecasts: ForecastMap::new(),
        };
        assert(r@.members =~= Seq::empty());
        r
    }
}

impl TeamAggregate {
    /// The name under which teams are stored.
    pub fn aggregate_type() -> (name: String)
        ensures
            name@ == "team"@,
    {
        "team".to_owned()
    }

    /// Whether `id` is a member.
    pub fn has_member(&self, id: &MemberId) -> (b: bool)
        ensures
            b == is_member(self@.members, id@),
    {
        let mut i: usize = 0;
        while i < self.members.len()
            invariant
                i <= self.members@.len(),
                forall|k: int| 0 <= k < i ==> (#[trigger] self@.members[k]).id != id@,
            decreases self.members@.len() - i,
        {
            if self.members[i].id == *id {
                assert(self@.members[i as int].id == id@);
                return true;
            }
            i += 1;
        }
        false
    }

    /// Whether a member has the email `email` or the identity `id`.
    pub fn has_member_with(&self, id: &MemberId, email: &String) -> (b: bool)
        ensures
            b == is_taken(self@.members, id@, email@),
    {
        let mut i: usize = 0;
        while i < self.members.len()
            invariant
                i <= self.members@.len(),
                forall|k: int|
                    0 <= k < i ==> (#[trigger] self@.members[k]).email != email@
                        && self@.members[k].id != id@,
            decreases self.members@.len() - i,
        {
            if self.members[i].email == *email || self.members[i].id == *id {
                assert(self@.members[i as int].email == email@ || self@.members[i as int].id
                    == id@);
                return true;
            }
            i += 1;
        }
        false
    }

    /// Checks `command` against the team's state. An accepted command gives
    /// the one event that records it; a rejected one gives the reason and no
    /// event. The team itself is not changed: that is for `apply`.
    pub fn handle(&self, command: TeamCommand, _services: &TeamServices) -> (r: Result<
        Vec<TeamEvent>,
        Error,
    >)
        ensures
            match r {
                Ok(events) => handle_spec(self@, command@) == Ok::<Seq<EventView>, ErrorView>(
                    events_view(events@),
                ),
                Err(e) => handle_spec(self@, command@) == Err::<Seq<EventView>, ErrorView>(e@),
            },
            r matches Ok(events) ==> events@.len() == 1,
    {
        match command {
            TeamCommand::AddMember { member_id, email } => {
                if self.has_member_with(&member_id, &email) {
                    return Err(Error::MemberAlreadyExists(email));
                }
                let member = Member::new(member_id, email);
                let event = TeamEvent::MemberAdded { member_id: member.id, email: member.email };
                let events = vec![event];
                assert(events_view(events@) =~= seq![event@]);
                Ok(events)
            },
            TeamCommand::TrackMemberForecast { member_id, forecast } => {
                if !self.has_member(&member_id) {
                    return Err(Error::MemberNotFoundInTeam(member_id, self.team.id.clone()));
                }
                let mut new_forecasts = self.forecasts.clone();
                new_forecasts.insert(member_id, forecast);
                let event = TeamEvent::ForecastTracked { forecasts: new_forecasts };
                let events = vec![event];
                assert(events_view(events@) =~= seq![event@]);
                Ok(events)
            },
        }
    }

    /// Records `event` in the team's state. Every event is accepted.
    pub fn apply(&mut self, event: TeamEvent)
        ensures
            final(self)@ == apply_spec(old(self)@, event@),
    {
        match event {
            TeamEvent::MemberAdded { member_id, email } => {
                let member = Member::new(member_id, email);
                let ghost added = member@;
                self.members.push(member);
                assert(self@.members =~= old(self)@.members.push(added));
            },
            TeamEvent::ForecastTracked { forecasts } => {
                self.forecasts = forecasts;
            },
        }
    }

    /// Handles `command` and, if it is accepted, applies its events. Gives
    /// what `handle` gives; a rejected command leaves the team as it was.
    pub fn execute(&mut self, command: TeamCommand, services: &TeamServices) -> (r: Result<
        Vec<TeamEvent>,
        Error,
    >)
        ensures
            match r {
                Ok(events) => handle_spec(old(self)@, command@) == Ok::<
                    Seq<EventView>,
                    ErrorView,
                >(events_view(events@)),
                Err(e) => handle_spec(old(self)@, command@) == Err::<Seq<EventView>, ErrorView>(
                    e@,
                ),
            },
            r matches Ok(events) ==> events@.len() == 1,
            final(self)@ == execute_spec(old(self)@, command@),
    {
        match self.handle(command, services) {
            Ok(events) => {
                self.replay(&events);
                Ok(events)
            },
            Err(e) => Err(e),
        }
    }

    /// Records `events` in the team's state, in their order.
    pub fn replay(&mut self, events: &Vec<TeamEvent>)
        ensures
            final(self)@ == replay_spec(old(self)@, events_view(events@)),
    {
        let ghost all = events_view(events@);
        let mut i: usize = 0;
        while i < events.len()
            invariant
                i <= events@.len(),
                all == events_view(events@),
                self@ == replay_spec(old(self)@, all.take(i as int)),
            decreases events@.len() - i,
        {
            let event = events[i].clone();
            assert(all.take(i + 1).drop_last() =~= all.take(i as int));
            self.apply(event);
            i += 1;
        }
        assert(all.take(i as int) =~= all);
    }
}

} // verus!
