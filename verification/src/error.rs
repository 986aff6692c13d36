//! The reasons for which a team rejects a command.

use crate::team::{MemberId, TeamId};
use vstd::prelude::*;

verus! {

/// What a contract sees of a rejection.
pub ghost enum ErrorView {
    MemberAlreadyExists(Seq<char>),
    MemberNotFoundInTeam(Seq<char>, Seq<char>),
}

/// A command was rejected. The caller has to submit a corrected command.
#[derive(Debug, PartialEq)]
pub enum Error {
    /// A member of the team already has this email, or the identity that
    /// came with it. Holds the email of the command.
    MemberAlreadyExists(String),
    /// The member is not in the team. Holds the member's identity and the
    /// team's.
    MemberNotFoundInTeam(MemberId, TeamId),
}

impl View for Error {
    type V = ErrorView;

    open spec fn view(&self) -> ErrorView {
        match self {
            Error::MemberAlreadyExists(email) => ErrorView::MemberAlreadyExists(email@),
            Error::MemberNotFoundInTeam(member_id, team_id) => ErrorView::MemberNotFoundInTeam(
                member_id@,
                team_id@,
            ),
        }
    }
}

} // verus!
