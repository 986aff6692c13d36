//! The facts that a team records. Each is the outcome of one accepted
//! command, and once recorded it never changes.

use crate::forecasts::{Entries, ForecastMap};
use crate::team::MemberId;
use vstd::prelude::*;

verus! {

/// What a contract sees of an event.
pub ghost enum EventView {
    ForecastTracked { forecasts: Entries },
    MemberAdded { member_id: Seq<char>, email: Seq<char> },
}

/// A fact about a team.
#[derive(Debug, PartialEq)]
pub enum TeamEvent {
    /// A forecast was tracked. Holds the latest forecast of every member
    /// after it: the whole map, not the one entry that changed.
    ForecastTracked { forecasts: ForecastMap },
    /// A person joined the team.
    MemberAdded { member_id: MemberId, email: String },
}

impl View for TeamEvent {
    type V = EventView;

    open spec fn view(&self) -> EventView {
        match self {
            TeamEvent::ForecastTracked { forecasts } => EventView::ForecastTracked {
                forecasts: forecasts@,
            },
            TeamEvent::MemberAdded { member_id, email } => EventView::MemberAdded {
                member_id: member_id@,
                email: email@,
            },
        }
    }
}

impl Clone for TeamEvent {
    fn clone(&self) -> (r: Self)
        ensures
            r@ == self@,
    {
        match self {
            TeamEvent::ForecastTracked { forecasts } => TeamEvent::ForecastTracked {
                forecasts: forecasts.clone(),
            },
            TeamEvent::MemberAdded { member_id, email } => TeamEvent::MemberAdded {
                member_id: member_id.clone(),
                email: email.clone(),
            },
        }
    }
}

/// What a contract sees of a list of events.
pub open spec fn events_view(events: Seq<TeamEvent>) -> Seq<EventView> {
    events.map_values(|e: TeamEvent| e@)
}

impl TeamEvent {
    /// The name under which events of this variant are stored.
    pub open spec fn spec_event_type(self) -> Seq<char> {
        match self {
            TeamEvent::ForecastTracked { .. } => "forecast-tracked"@,
            TeamEvent::MemberAdded { .. } => "member-added"@,
        }
    }

    /// The name under which this event is stored: one fixed name per
    /// variant.
    pub fn event_type(&self) -> (name: String)
        ensures
            name@ == self.spec_event_type(),
    {
        let event_type: &str = match self {
            TeamEvent::ForecastTracked { .. } => "forecast-tracked",
            TeamEvent::MemberAdded { .. } => "member-added",
        };
        event_type.to_owned()
    }

    /// The version of the stored shape of this event.
    pub fn event_version(&self) -> (version: String)
        ensures
            version@ == "1.0"@,
    {
        "1.0".to_owned()
    }
}

/// The two variants are stored under different names.
pub proof fn event_types_differ(a: TeamEvent, b: TeamEvent)
    ensures
        a.spec_event_type() == b.spec_event_type() <==> (a is ForecastTracked) == (
        b is ForecastTracked),
{
    reveal_strlit("forecast-tracked");
    reveal_strlit("member-added");
    assert("forecast-tracked"@.len() != "member-added"@.len());
}

} // verus!
