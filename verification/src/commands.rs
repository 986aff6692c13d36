//! The commands that a caller may submit against a team.

use crate::team::MemberId;
use crate::weather::WeatherForecast;
use vstd::prelude::*;

verus! {

/// What a contract sees of a command.
pub ghost enum CommandView {
    AddMember { member_id: Seq<char>, email: Seq<char> },
    TrackMemberForecast { member_id: Seq<char>, forecast: WeatherForecast },
}

/// A request to change a team. It may be rejected.
#[derive(Debug)]
pub enum TeamCommand {
    /// Take a person into the team.
    AddMember { member_id: MemberId, email: String },
    /// Record the latest forecast of a member.
    TrackMemberForecast { member_id: MemberId, forecast: WeatherForecast },
}

impl View for TeamCommand {
    type V = CommandView;

    open spec fn view(&self) -> CommandView {
        match self {
            TeamCommand::AddMember { member_id, email } => CommandView::AddMember {
                member_id: member_id@,
                email: email@,
            },
            TeamCommand::TrackMemberForecast { member_id, forecast } => {
                CommandView::TrackMemberForecast { member_id: member_id@, forecast: *forecast }
            },
        }
    }
}

impl Clone for TeamCommand {
    fn clone(&self) -> (r: Self)
        ensures
            r@ == self@,
    {
        match self {
            TeamCommand::AddMember { member_id, email } => TeamCommand::AddMember {
                member_id: member_id.clone(),
                email: email.clone(),
            },
            TeamCommand::TrackMemberForecast { member_id, forecast } => {
                TeamCommand::TrackMemberForecast {
                    member_id: member_id.clone(),
                    forecast: *forecast,
                }
            },
        }
    }
}

} // verus!
