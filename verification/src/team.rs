//! Team value types: member and team identities, members, and the team's own
//! description.

use vstd::prelude::*;
use vstd::std_specs::cmp::PartialEqSpecImpl;
use vstd::std_specs::convert::FromSpecImpl;

verus! {

/// The identity of a person: an opaque token, unique within a team.
#[derive(Debug, Eq, Hash)]
pub struct MemberId(String);

impl View for MemberId {
    type V = Seq<char>;

    open spec fn view(&self) -> Seq<char> {
        self.token()
    }
}

impl MemberId {
    /// The characters of the token.
    pub closed spec fn token(&self) -> Seq<char> {
        self.0@
    }

    /// The identity with the token `id`.
    pub fn new(id: String) -> (r: Self)
        ensures
            r@ == id@,
    {
        Self(id)
    }

    /// The token as text.
    pub fn as_str(&self) -> (s: &str)
        ensures
            s@ == self@,
    {
        self.0.as_str()
    }
}

impl Clone for MemberId {
    fn clone(&self) -> (r: Self)
        ensures
            r@ == self@,
    {
        MemberId(self.0.clone())
    }
}

impl PartialEq for MemberId {
    fn eq(&self, other: &Self) -> (r: bool) {
        self.0 == other.0
    }
}

impl PartialEqSpecImpl for MemberId {
    open spec fn obeys_eq_spec() -> bool {
        true
    }

    open spec fn eq_spec(&self, other: &Self) -> bool {
        self@ == other@
    }
}

impl Default for MemberId {
    fn default() -> (r: Self)
        ensures
            r@ == Seq::<char>::empty(),
    {
        MemberId(String::new())
    }
}

/// What a contract sees of a member: the identity and the email, as text.
pub ghost struct MemberView {
    pub id: Seq<char>,
    pub email: Seq<char>,
}

/// A person tracked in a team.
#[derive(Debug, Eq)]
pub struct Member {
    pub id: MemberId,
    pub email: String,
}

impl View for Member {
    type V = MemberView;

    open spec fn view(&self) -> MemberView {
        MemberView { id: self.id@, email: self.email@ }
    }
}

impl Member {
    /// The member with the identity `id` and the email `email`.
    pub fn new(id: MemberId, email: String) -> (r: Self)
        ensures
            r@ == (MemberView { id: id@, email: email@ }),
    {
        Self { id, email }
    }
}

impl Clone for Member {
    fn clone(&self) -> (r: Self)
        ensures
            r@ == self@,
    {
        Member { id: self.id.clone(), email: self.email.clone() }
    }
}

impl PartialEq for Member {
    fn eq(&self, other: &Self) -> (r: bool) {
        self.id == other.id && self.email == other.email
    }
}

impl PartialEqSpecImpl for Member {
    open spec fn obeys_eq_spec() -> bool {
        true
    }

    open spec fn eq_spec(&self, other: &Self) -> bool {
        self@ == other@
    }
}

impl Default for Member {
    fn default() -> (r: Self)
        ensures
            r@ == (MemberView { id: Seq::empty(), email: Seq::empty() }),
    {
        Member { id: MemberId::default(), email: String::new() }
    }
}

/// A copy of a list of members.
pub fn clone_members(members: &Vec<Member>) -> (r: Vec<Member>)
    ensures
        r@.map_values(|m: Member| m@) == members@.map_values(|m: Member| m@),
{
    let mut copy: Vec<Member> = Vec::new();
    let mut i: usize = 0;
    while i < members.len()
        invariant
            i <= members@.len(),
            copy@.len() == i,
            forall|k: int| 0 <= k < i ==> (#[trigger] copy@[k])@ == members@[k]@,
        decreases members@.len() - i,
    {
        copy.push(members[i].clone());
        i += 1;
    }
    assert(copy@.map_values(|m: Member| m@) =~= members@.map_values(|m: Member| m@));
    copy
}

/// The identity of a team: an opaque token.
#[derive(Debug, Eq)]
pub struct TeamId(String);

impl View for TeamId {
    type V = Seq<char>;

    open spec fn view(&self) -> Seq<char> {
        self.token()
    }
}

impl TeamId {
    /// The characters of the token.
    pub closed spec fn token(&self) -> Seq<char> {
        self.0@
    }

    /// The token as text.
    pub fn as_str(&self) -> (s: &str)
        ensures
            s@ == self@,
    {
        self.0.as_str()
    }
}

impl Clone for TeamId {
    fn clone(&self) -> (r: Self)
        ensures
            r@ == self@,
    {
        TeamId(self.0.clone())
    }
}

impl PartialEq for TeamId {
    fn eq(&self, other: &Self) -> (r: bool) {
        self.0 == other.0
    }
}

impl PartialEqSpecImpl for TeamId {
    open spec fn obeys_eq_spec() -> bool {
        true
    }

    open spec fn eq_spec(&self, other: &Self) -> bool {
        self@ == other@
    }
}

impl Default for TeamId {
    fn default() -> (r: Self)
        ensures
            r@ == Seq::<char>::empty(),
    {
        TeamId(String::new())
    }
}

impl From<String> for TeamId {
    fn from(id: String) -> (r: Self)
        ensures
            r@ == id@,
    {
        TeamId(id)
    }
}

impl FromSpecImpl<String> for TeamId {
    open spec fn obeys_from_spec() -> bool {
        true
    }

    closed spec fn from_spec(id: String) -> Self {
        TeamId(id)
    }
}

impl<'a> From<&'a str> for TeamId {
    fn from(id: &'a str) -> (r: Self)
        ensures
            r@ == id@,
    {
        TeamId(id.to_owned())
    }
}

impl<'a> FromSpecImpl<&'a str> for TeamId {
    open spec fn obeys_from_spec() -> bool {
        false
    }

    open spec fn from_spec(id: &'a str) -> Self {
        arbitrary()
    }
}

/// A team's own description.
#[derive(Debug, PartialEq)]
pub struct Team {
    pub id: TeamId,
    pub name: String,
    pub roles: Vec<String>,
}

impl Clone for Team {
    fn clone(&self) -> (r: Self)
        ensures
            r.id@ == self.id@,
            r.name@ == self.name@,
            r.roles@ == self.roles@,
    {
        let roles = self.roles.clone();
        assert(roles@ =~= self.roles@);
        Team { id: self.id.clone(), name: self.name.clone(), roles }
    }
}

impl Default for Team {
    fn default() -> (r: Self)
        ensures
            r.id@ == Seq::<char>::empty(),
            r.name@ == Seq::<char>::empty(),
            r.roles@ == Seq::<String>::empty(),
    {
        Team { id: TeamId::default(), name: String::new(), roles: Vec::new() }
    }
}

} // verus!
