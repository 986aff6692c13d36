//! What holds of a team and of its view whatever the commands and events:
//! stated over the same models as the contracts of `handle`, `apply` and
//! `update`, and proved from them.

use crate::aggregate::{
    apply_spec, execute_spec, handle_spec, is_member, is_taken, replay_spec, TeamState,
};
use crate::commands::CommandView;
use crate::error::ErrorView;
use crate::events::EventView;
use crate::forecasts::{
    as_map, distinct_ids, has_id, position, with_forecast, with_forecast_is_insert, Entries,
};
use crate::statistics::{distribution_of, mean_temperature_of, Extreme};
use crate::team::MemberView;
use crate::view::{project_spec, update_spec, ViewState};
use crate::weather::WeatherForecast;
use vstd::prelude::*;

verus! {

/// A team's state holds together: no two members share an identity or an
/// email, no identity has two forecasts, and every forecast belongs to a
/// member.
pub open spec fn consistent(state: TeamState) -> bool {
    &&& forall|i: int, j: int|
        0 <= i < j < state.members.len() ==> (#[trigger] state.members[i]).id != (
        #[trigger] state.members[j]).id && state.members[i].email != state.members[j].email
    &&& distinct_ids(state.forecasts)
    &&& forall|k: int|
        0 <= k < state.forecasts.len() ==> is_member(
            state.members,
            (#[trigger] state.forecasts[k]).0,
        )
}

/// The number of `ForecastTracked` events among `events`.
pub open spec fn tracked_count(events: Seq<EventView>) -> nat
    decreases events.len(),
{
    if events.len() == 0 {
        0
    } else {
        tracked_count(events.drop_last()) + if events.last() is ForecastTracked {
            1nat
        } else {
            0nat
        }
    }
}

/// The state of a team after `commands` have been executed in their
/// order.
pub open spec fn run_spec(state: TeamState, commands: Seq<CommandView>) -> TeamState
    decreases commands.len(),
{
    if commands.len() == 0 {
        state
    } else {
        execute_spec(run_spec(state, commands.drop_last()), commands.last())
    }
}

/// Two commands are about different people: they name different
/// identities, and two newcomers come with different emails as well.
pub open spec fn independent(a: CommandView, b: CommandView) -> bool {
    match (a, b) {
        (
            CommandView::AddMember { member_id: first_id, email: first_email },
            CommandView::AddMember { member_id: second_id, email: second_email },
        ) => first_id != second_id && first_email != second_email,
        (
            CommandView::AddMember { member_id: first_id, .. },
            CommandView::TrackMemberForecast { member_id: second_id, .. },
        ) => first_id != second_id,
        (
            CommandView::TrackMemberForecast { member_id: first_id, .. },
            CommandView::AddMember { member_id: second_id, .. },
        ) => first_id != second_id,
        (
            CommandView::TrackMemberForecast { member_id: first_id, .. },
            CommandView::TrackMemberForecast { member_id: second_id, .. },
        ) => first_id != second_id,
    }
}

/// Two states describe the same team: the same members, in whatever order
/// they stand, and the same latest forecast for each of them.
pub open spec fn same_team(a: TeamState, b: TeamState) -> bool {
    &&& a.team_id == b.team_id
    &&& a.members.len() == b.members.len()
    &&& forall|m: MemberView| a.members.contains(m) == b.members.contains(m)
    &&& distinct_ids(a.forecasts)
    &&& distinct_ids(b.forecasts)
    &&& as_map(a.forecasts) == as_map(b.forecasts)
}

/// Replaying one event is applying it.
pub proof fn replay_of_one_event(state: TeamState, event: EventView)
    ensures
        replay_spec(state, seq![event]) == apply_spec(state, event),
{
    let events = seq![event];
    assert(events.drop_last() =~= Seq::<EventView>::empty());
    assert(events.last() == event);
    assert(replay_spec(state, events.drop_last()) == state);
}

/// Replaying a history in two parts gives the state that replaying it in
/// one piece gives: a state rebuilt from the stored events and then moved on
/// by new ones is the state that the whole history stands for.
pub proof fn replay_in_parts(state: TeamState, first: Seq<EventView>, second: Seq<EventView>)
    ensures
        replay_spec(state, first + second) == replay_spec(replay_spec(state, first), second),
    decreases second.len(),
{
    if second.len() == 0 {
        assert(first + second =~= first);
    } else {
        replay_in_parts(state, first, second.drop_last());
        assert((first + second).drop_last() =~= first + second.drop_last());
        assert((first + second).last() == second.last());
    }
}

/// Equal histories replayed from equal states give equal states, and equal
/// event streams folded into equal views give equal views: both folds
/// depend on nothing but their arguments.
pub proof fn replay_is_deterministic(
    state_a: TeamState,
    state_b: TeamState,
    view_a: ViewState,
    view_b: ViewState,
    events_a: Seq<EventView>,
    events_b: Seq<EventView>,
)
    requires
        state_a == state_b,
        view_a == view_b,
        events_a =~= events_b,
    ensures
        replay_spec(state_a, events_a) == replay_spec(state_b, events_b),
        project_spec(view_a, events_a) == project_spec(view_b, events_b),
{
}

/// A member who shares the email or the identity of the newcomer has the
/// command rejected, with the newcomer's email as the reason, and the team
/// stays as it was.
pub proof fn colliding_member_is_rejected(
    state: TeamState,
    member_id: Seq<char>,
    email: Seq<char>,
    i: int,
)
    requires
        0 <= i < state.members.len(),
        state.members[i].email == email || state.members[i].id == member_id,
    ensures
        handle_spec(state, CommandView::AddMember { member_id, email }) == Err::<
            Seq<EventView>,
            ErrorView,
        >(ErrorView::MemberAlreadyExists(email)),
        execute_spec(state, CommandView::AddMember { member_id, email }) == state,
{
}

/// A newcomer who shares neither email nor identity with a member is
/// accepted, with one event that names the newcomer.
pub proof fn new_member_is_accepted(state: TeamState, member_id: Seq<char>, email: Seq<char>)
    requires
        forall|i: int|
            0 <= i < state.members.len() ==> (#[trigger] state.members[i]).email != email
                && state.members[i].id != member_id,
    ensures
        handle_spec(state, CommandView::AddMember { member_id, email }) == Ok::<
            Seq<EventView>,
            ErrorView,
        >(seq![EventView::MemberAdded { member_id, email }]),
{
}

/// A forecast for somebody who is not a member is rejected, with the
/// identity and the team as the reason, and the team stays as it was.
pub proof fn forecast_of_a_stranger_is_rejected(
    state: TeamState,
    member_id: Seq<char>,
    forecast: WeatherForecast,
)
    requires
        forall|i: int| 0 <= i < state.members.len() ==> (#[trigger] state.members[i]).id != member_id,
    ensures
        handle_spec(state, CommandView::TrackMemberForecast { member_id, forecast }) == Err::<
            Seq<EventView>,
            ErrorView,
        >(ErrorView::MemberNotFoundInTeam(member_id, state.team_id)),
        execute_spec(state, CommandView::TrackMemberForecast { member_id, forecast }) == state,
{
}

/// After a member has joined, the members are those that were, and the
/// newcomer.
pub proof fn member_after_joining(members: Seq<MemberView>, newcomer: MemberView, m: MemberView)
    ensures
        members.push(newcomer).contains(m) <==> members.contains(m) || m == newcomer,
{
    let after = members.push(newcomer);
    let last = members.len() as int;
    assert(after[last] == newcomer);
    if members.contains(m) {
        let i = choose|i: int| 0 <= i < members.len() && members[i] == m;
        assert(after[i] == m);
    }
    if after.contains(m) {
        let i = choose|i: int| 0 <= i < after.len() && after[i] == m;
        if i < last {
            assert(members[i] == m);
        }
    }
}

/// Which identities and emails are taken depends on who the members are,
/// not on their order.
pub proof fn taken_whatever_the_order(
    a: Seq<MemberView>,
    b: Seq<MemberView>,
    id: Seq<char>,
    email: Seq<char>,
)
    requires
        forall|m: MemberView| a.contains(m) == b.contains(m),
    ensures
        is_member(a, id) == is_member(b, id),
        is_taken(a, id, email) == is_taken(b, id, email),
{
    if is_member(a, id) {
        let i = choose|i: int| 0 <= i < a.len() && (#[trigger] a[i]).id == id;
        assert(a.contains(a[i]));
        let j = choose|j: int| 0 <= j < b.len() && b[j] == a[i];
        assert(b[j].id == id);
    }
    if is_member(b, id) {
        let i = choose|i: int| 0 <= i < b.len() && (#[trigger] b[i]).id == id;
        assert(b.contains(b[i]));
        let j = choose|j: int| 0 <= j < a.len() && a[j] == b[i];
        assert(a[j].id == id);
    }
    if is_taken(a, id, email) {
        let i = choose|i: int|
            0 <= i < a.len() && ((#[trigger] a[i]).email == email || a[i].id == id);
        assert(a.contains(a[i]));
        let j = choose|j: int| 0 <= j < b.len() && b[j] == a[i];
        assert(b[j].email == email || b[j].id == id);
    }
    if is_taken(b, id, email) {
        let i = choose|i: int|
            0 <= i < b.len() && ((#[trigger] b[i]).email == email || b[i].id == id);
        assert(b.contains(b[i]));
        let j = choose|j: int| 0 <= j < a.len() && a[j] == b[i];
        assert(a[j].email == email || a[j].id == id);
    }
}

/// After a member has joined, the identities and emails that are taken are
/// those that were, and the newcomer's.
pub proof fn taken_after_joining(
    members: Seq<MemberView>,
    newcomer: MemberView,
    id: Seq<char>,
    email: Seq<char>,
)
    ensures
        is_member(members.push(newcomer), id) <==> is_member(members, id) || newcomer.id == id,
        is_taken(members.push(newcomer), id, email) <==> is_taken(members, id, email)
            || newcomer.email == email || newcomer.id == id,
{
    let after = members.push(newcomer);
    let last = members.len() as int;
    assert(after[last] == newcomer);
    if is_member(members, id) {
        let i = choose|i: int| 0 <= i < members.len() && (#[trigger] members[i]).id == id;
        assert(after[i].id == id);
    }
    if is_member(after, id) {
        let i = choose|i: int| 0 <= i < after.len() && (#[trigger] after[i]).id == id;
        if i < last {
            assert(members[i].id == id);
        }
    }
    if is_taken(members, id, email) {
        let i = choose|i: int|
            0 <= i < members.len() && ((#[trigger] members[i]).email == email || members[i].id
                == id);
        assert(after[i].email == email || after[i].id == id);
    }
    if is_taken(after, id, email) {
        let i = choose|i: int|
            0 <= i < after.len() && ((#[trigger] after[i]).email == email || after[i].id == id);
        if i < last {
            assert(members[i].email == email || members[i].id == id);
        }
    }
}

/// Forecasts for two different people may be recorded in either order: each
/// is accepted or rejected as in the other order, the members are the same
/// and every member has the same latest forecast.
pub proof fn forecasts_of_two_members_commute(
    state: TeamState,
    first_id: Seq<char>,
    first: WeatherForecast,
    second_id: Seq<char>,
    second: WeatherForecast,
)
    requires
        distinct_ids(state.forecasts),
        first_id != second_id,
    ensures
        ({
            let a = CommandView::TrackMemberForecast { member_id: first_id, forecast: first };
            let b = CommandView::TrackMemberForecast { member_id: second_id, forecast: second };
            let ab = execute_spec(execute_spec(state, a), b);
            let ba = execute_spec(execute_spec(state, b), a);
            &&& ab.team_id == ba.team_id
            &&& ab.members == ba.members
            &&& as_map(ab.forecasts) == as_map(ba.forecasts)
            &&& handle_spec(execute_spec(state, a), b) is Ok == handle_spec(state, b) is Ok
            &&& handle_spec(execute_spec(state, b), a) is Ok == handle_spec(state, a) is Ok
        }),
{
    let a = CommandView::TrackMemberForecast { member_id: first_id, forecast: first };
    let b = CommandView::TrackMemberForecast { member_id: second_id, forecast: second };
    let f = state.forecasts;
    let fa = with_forecast(f, first_id, first);
    let fb = with_forecast(f, second_id, second);
    with_forecast_is_insert(f, first_id, first);
    with_forecast_is_insert(f, second_id, second);
    with_forecast_is_insert(fa, second_id, second);
    with_forecast_is_insert(fb, first_id, first);
    replay_of_one_event(state, EventView::ForecastTracked { forecasts: fa });
    replay_of_one_event(state, EventView::ForecastTracked { forecasts: fb });
    let sa = execute_spec(state, a);
    let sb = execute_spec(state, b);
    assert(sa.members == state.members && sa.team_id == state.team_id);
    assert(sb.members == state.members && sb.team_id == state.team_id);
    replay_of_one_event(
        sa,
        EventView::ForecastTracked { forecasts: with_forecast(sa.forecasts, second_id, second) },
    );
    replay_of_one_event(
        sb,
        EventView::ForecastTracked { forecasts: with_forecast(sb.forecasts, first_id, first) },
    );
    let ab = execute_spec(sa, b);
    let ba = execute_spec(sb, a);
    assert(as_map(f).insert(first_id, first).insert(second_id, second) =~= as_map(f).insert(
        second_id,
        second,
    ).insert(first_id, first));
    assert(as_map(ab.forecasts) == as_map(ba.forecasts));
}

/// A newcomer may join before or after a forecast is recorded for somebody
/// else: each command is accepted or rejected as in the other order, and
/// the team ends in the very same state.
pub proof fn joining_commutes_with_a_forecast_of_another(
    state: TeamState,
    newcomer_id: Seq<char>,
    email: Seq<char>,
    member_id: Seq<char>,
    forecast: WeatherForecast,
)
    requires
        newcomer_id != member_id,
    ensures
        ({
            let a = CommandView::AddMember { member_id: newcomer_id, email };
            let b = CommandView::TrackMemberForecast { member_id, forecast };
            &&& execute_spec(execute_spec(state, a), b) == execute_spec(execute_spec(state, b), a)
            &&& handle_spec(execute_spec(state, a), b) is Ok == handle_spec(state, b) is Ok
            &&& handle_spec(execute_spec(state, b), a) is Ok == handle_spec(state, a) is Ok
        }),
{
    let a = CommandView::AddMember { member_id: newcomer_id, email };
    let b = CommandView::TrackMemberForecast { member_id, forecast };
    let joined = EventView::MemberAdded { member_id: newcomer_id, email };
    let recorded = EventView::ForecastTracked {
        forecasts: with_forecast(state.forecasts, member_id, forecast),
    };
    replay_of_one_event(state, joined);
    replay_of_one_event(state, recorded);
    let sa = execute_spec(state, a);
    let sb = execute_spec(state, b);
    replay_of_one_event(sa, recorded);
    replay_of_one_event(sb, joined);
    taken_after_joining(state.members, MemberView { id: newcomer_id, email }, member_id, email);
    assert(sb.members == state.members);
    assert(sa.forecasts == state.forecasts);
}

/// Two newcomers who share neither identity nor email may join in either
/// order: each is accepted or rejected as in the other order, the
/// forecasts are untouched, and the team has the same members afterwards.
/// Only the order of the two in the member list follows the order of the
/// commands.
pub proof fn two_newcomers_commute(
    state: TeamState,
    first_id: Seq<char>,
    first_email: Seq<char>,
    second_id: Seq<char>,
    second_email: Seq<char>,
)
    requires
        first_id != second_id,
        first_email != second_email,
    ensures
        ({
            let a = CommandView::AddMember { member_id: first_id, email: first_email };
            let b = CommandView::AddMember { member_id: second_id, email: second_email };
            let ab = execute_spec(execute_spec(state, a), b);
            let ba = execute_spec(execute_spec(state, b), a);
            &&& ab.team_id == ba.team_id
            &&& ab.forecasts == ba.forecasts
            &&& ab.members.len() == ba.members.len()
            &&& forall|m: MemberView| ab.members.contains(m) == ba.members.contains(m)
            &&& handle_spec(execute_spec(state, a), b) is Ok == handle_spec(state, b) is Ok
            &&& handle_spec(execute_spec(state, b), a) is Ok == handle_spec(state, a) is Ok
        }),
{
    let a = CommandView::AddMember { member_id: first_id, email: first_email };
    let b = CommandView::AddMember { member_id: second_id, email: second_email };
    let va = MemberView { id: first_id, email: first_email };
    let vb = MemberView { id: second_id, email: second_email };
    let ja = EventView::MemberAdded { member_id: first_id, email: first_email };
    let jb = EventView::MemberAdded { member_id: second_id, email: second_email };
    replay_of_one_event(state, ja);
    replay_of_one_event(state, jb);
    let sa = execute_spec(state, a);
    let sb = execute_spec(state, b);
    replay_of_one_event(sa, jb);
    replay_of_one_event(sb, ja);
    taken_after_joining(state.members, va, second_id, second_email);
    taken_after_joining(state.members, vb, first_id, first_email);
    let ab = execute_spec(sa, b);
    let ba = execute_spec(sb, a);
    assert forall|m: MemberView| ab.members.contains(m) == ba.members.contains(m) by {
        member_after_joining(state.members, va, m);
        member_after_joining(state.members, vb, m);
        member_after_joining(state.members.push(va), vb, m);
        member_after_joining(state.members.push(vb), va, m);
    }
}

/// Executing a command never gives an identity two forecasts.
pub proof fn execute_keeps_forecasts_distinct(state: TeamState, command: CommandView)
    requires
        distinct_ids(state.forecasts),
    ensures
        distinct_ids(execute_spec(state, command).forecasts),
{
    match command {
        CommandView::AddMember { member_id, email } => {
            replay_of_one_event(state, EventView::MemberAdded { member_id, email });
        },
        CommandView::TrackMemberForecast { member_id, forecast } => {
            let forecasts = with_forecast(state.forecasts, member_id, forecast);
            replay_of_one_event(state, EventView::ForecastTracked { forecasts });
            with_forecast_is_insert(state.forecasts, member_id, forecast);
        },
    }
}

/// Two independent commands may be executed in either order: the team is
/// the same afterwards.
pub proof fn independent_commands_commute(state: TeamState, a: CommandView, b: CommandView)
    requires
        distinct_ids(state.forecasts),
        independent(a, b),
    ensures
        same_team(
            execute_spec(execute_spec(state, a), b),
            execute_spec(execute_spec(state, b), a),
        ),
{
    execute_keeps_forecasts_distinct(state, a);
    execute_keeps_forecasts_distinct(state, b);
    execute_keeps_forecasts_distinct(execute_spec(state, a), b);
    execute_keeps_forecasts_distinct(execute_spec(state, b), a);
    match (a, b) {
        (
            CommandView::AddMember { member_id: first_id, email: first_email },
            CommandView::AddMember { member_id: second_id, email: second_email },
        ) => {
            two_newcomers_commute(state, first_id, first_email, second_id, second_email);
        },
        (
            CommandView::AddMember { member_id: first_id, email },
            CommandView::TrackMemberForecast { member_id: second_id, forecast },
        ) => {
            joining_commutes_with_a_forecast_of_another(state, first_id, email, second_id, forecast);
        },
        (
            CommandView::TrackMemberForecast { member_id: first_id, forecast },
            CommandView::AddMember { member_id: second_id, email },
        ) => {
            joining_commutes_with_a_forecast_of_another(state, second_id, email, first_id, forecast);
        },
        (
            CommandView::TrackMemberForecast { member_id: first_id, forecast: first },
            CommandView::TrackMemberForecast { member_id: second_id, forecast: second },
        ) => {
            forecasts_of_two_members_commute(state, first_id, first, second_id, second);
        },
    }
}

/// A command does to the same team the same thing: it is accepted or
/// rejected alike, and the team is the same afterwards.
pub proof fn execute_respects_same_team(a: TeamState, b: TeamState, command: CommandView)
    requires
        same_team(a, b),
    ensures
        same_team(execute_spec(a, command), execute_spec(b, command)),
        handle_spec(a, command) is Ok == handle_spec(b, command) is Ok,
{
    execute_keeps_forecasts_distinct(a, command);
    execute_keeps_forecasts_distinct(b, command);
    let after_a = execute_spec(a, command);
    let after_b = execute_spec(b, command);
    match command {
        CommandView::AddMember { member_id, email } => {
            let newcomer = MemberView { id: member_id, email };
            taken_whatever_the_order(a.members, b.members, member_id, email);
            replay_of_one_event(a, EventView::MemberAdded { member_id, email });
            replay_of_one_event(b, EventView::MemberAdded { member_id, email });
            assert forall|m: MemberView| after_a.members.contains(m) == after_b.members.contains(
                m,
            ) by {
                member_after_joining(a.members, newcomer, m);
                member_after_joining(b.members, newcomer, m);
            }
        },
        CommandView::TrackMemberForecast { member_id, forecast } => {
            taken_whatever_the_order(a.members, b.members, member_id, Seq::empty());
            replay_of_one_event(
                a,
                EventView::ForecastTracked {
                    forecasts: with_forecast(a.forecasts, member_id, forecast),
                },
            );
            replay_of_one_event(
                b,
                EventView::ForecastTracked {
                    forecasts: with_forecast(b.forecasts, member_id, forecast),
                },
            );
            with_forecast_is_insert(a.forecasts, member_id, forecast);
            with_forecast_is_insert(b.forecasts, member_id, forecast);
        },
    }
}

/// Commands do to the same team the same thing.
pub proof fn run_respects_same_team(a: TeamState, b: TeamState, commands: Seq<CommandView>)
    requires
        same_team(a, b),
    ensures
        same_team(run_spec(a, commands), run_spec(b, commands)),
    decreases commands.len(),
{
    if commands.len() > 0 {
        run_respects_same_team(a, b, commands.drop_last());
        execute_respects_same_team(
            run_spec(a, commands.drop_last()),
            run_spec(b, commands.drop_last()),
            commands.last(),
        );
    }
}

/// Running commands never gives an identity two forecasts.
pub proof fn run_keeps_forecasts_distinct(state: TeamState, commands: Seq<CommandView>)
    requires
        distinct_ids(state.forecasts),
    ensures
        distinct_ids(run_spec(state, commands).forecasts),
    decreases commands.len(),
{
    if commands.len() > 0 {
        run_keeps_forecasts_distinct(state, commands.drop_last());
        execute_keeps_forecasts_distinct(run_spec(state, commands.drop_last()), commands.last());
    }
}

/// Running commands in two parts is running them in one piece.
pub proof fn run_in_parts(state: TeamState, first: Seq<CommandView>, second: Seq<CommandView>)
    ensures
        run_spec(state, first + second) == run_spec(run_spec(state, first), second),
    decreases second.len(),
{
    if second.len() == 0 {
        assert(first + second =~= first);
    } else {
        run_in_parts(state, first, second.drop_last());
        assert((first + second).drop_last() =~= first + second.drop_last());
        assert((first + second).last() == second.last());
    }
}

/// In any run of commands, two neighbours that are about different people
/// may change places: the team is the same at the end. The order of
/// commands matters only between commands about the same person, such as
/// taking a member in before tracking that member's forecast.
pub proof fn independent_neighbours_may_change_places(
    state: TeamState,
    before: Seq<CommandView>,
    a: CommandView,
    b: CommandView,
    after: Seq<CommandView>,
)
    requires
        distinct_ids(state.forecasts),
        independent(a, b),
    ensures
        same_team(
            run_spec(state, before + seq![a, b] + after),
            run_spec(state, before + seq![b, a] + after),
        ),
{
    let reached = run_spec(state, before);
    run_keeps_forecasts_distinct(state, before);
    independent_commands_commute(reached, a, b);
    let ab = seq![a, b];
    let ba = seq![b, a];
    assert(run_spec(reached, ab) == execute_spec(execute_spec(reached, a), b)) by {
        assert(ab.drop_last() =~= seq![a]);
        assert(seq![a].drop_last() =~= Seq::<CommandView>::empty());
        assert(run_spec(reached, seq![a].drop_last()) == reached);
        assert(run_spec(reached, seq![a]) == execute_spec(reached, a));
    }
    assert(run_spec(reached, ba) == execute_spec(execute_spec(reached, b), a)) by {
        assert(ba.drop_last() =~= seq![b]);
        assert(seq![b].drop_last() =~= Seq::<CommandView>::empty());
        assert(run_spec(reached, seq![b].drop_last()) == reached);
        assert(run_spec(reached, seq![b]) == execute_spec(reached, b));
    }
    run_in_parts(state, before, ab);
    run_in_parts(state, before, ba);
    run_in_parts(state, before + ab, after);
    run_in_parts(state, before + ba, after);
    run_respects_same_team(run_spec(reached, ab), run_spec(reached, ba), after);
}

/// The empty team holds together.
pub proof fn empty_team_is_consistent(team_id: Seq<char>)
    ensures
        consistent(TeamState { team_id, members: Seq::empty(), forecasts: Seq::empty() }),
{
}

/// A team that holds together still does after any command, accepted or
/// rejected, has been handled and its events applied.
pub proof fn commands_keep_the_team_consistent(state: TeamState, command: CommandView)
    requires
        consistent(state),
    ensures
        consistent(execute_spec(state, command)),
{
    let after = execute_spec(state, command);
    match command {
        CommandView::AddMember { member_id, email } => {
            if !is_taken(state.members, member_id, email) {
                let newcomer = MemberView { id: member_id, email };
                replay_of_one_event(state, EventView::MemberAdded { member_id, email });
                assert(after.members == state.members.push(newcomer));
                assert forall|i: int, j: int| 0 <= i < j < after.members.len() implies (
                #[trigger] after.members[i]).id != (#[trigger] after.members[j]).id
                    && after.members[i].email != after.members[j].email by {
                    if j == state.members.len() {
                        assert(state.members[i].email != email && state.members[i].id
                            != member_id);
                    } else {
                        assert(after.members[i] == state.members[i]);
                        assert(after.members[j] == state.members[j]);
                    }
                }
                assert forall|k: int| 0 <= k < after.forecasts.len() implies is_member(
                    after.members,
                    (#[trigger] after.forecasts[k]).0,
                ) by {
                    assert(is_member(state.members, state.forecasts[k].0));
                    taken_after_joining(state.members, newcomer, state.forecasts[k].0, email);
                }
            }
        },
        CommandView::TrackMemberForecast { member_id, forecast } => {
            if is_member(state.members, member_id) {
                let forecasts = with_forecast(state.forecasts, member_id, forecast);
                replay_of_one_event(state, EventView::ForecastTracked { forecasts });
                with_forecast_is_insert(state.forecasts, member_id, forecast);
                assert(after.forecasts == forecasts);
                assert forall|k: int| 0 <= k < forecasts.len() implies is_member(
                    after.members,
                    (#[trigger] forecasts[k]).0,
                ) by {
                    if has_id(state.forecasts, member_id) {
                        if k != position(state.forecasts, member_id) {
                            assert(forecasts[k] == state.forecasts[k]);
                        }
                    } else {
                        if k < state.forecasts.len() {
                            assert(forecasts[k] == state.forecasts[k]);
                        }
                    }
                }
            }
        },
    }
}

/// The view follows the team: a view that has the members and forecasts of
/// a team still has them after both have taken the same events.
pub proof fn view_follows_the_team(state: TeamState, view: ViewState, events: Seq<EventView>)
    requires
        view.members == state.members,
        view.forecasts == state.forecasts,
    ensures
        project_spec(view, events).members == replay_spec(state, events).members,
        project_spec(view, events).forecasts == replay_spec(state, events).forecasts,
        project_spec(view, events).id == view.id,
        project_spec(view, events).name == view.name,
    decreases events.len(),
{
    if events.len() > 0 {
        view_follows_the_team(state, view, events.drop_last());
    }
}

/// The count of recorded forecasts counts events: after `events` it has
/// grown by the number of `ForecastTracked` events among them, whatever
/// they hold.
pub proof fn total_counts_tracking_events(view: ViewState, events: Seq<EventView>)
    ensures
        project_spec(view, events).total_forecasts_tracked == view.total_forecasts_tracked
            + tracked_count(events),
    decreases events.len(),
{
    if events.len() > 0 {
        total_counts_tracking_events(view, events.drop_last());
    }
}

/// The means and the distribution describe the forecasts of the latest
/// `ForecastTracked` event and nothing else: whatever the view held before,
/// they are the same afterwards.
pub proof fn statistics_forget_earlier_forecasts(
    earlier: ViewState,
    other: ViewState,
    forecasts: Entries,
)
    ensures
        ({
            let event = EventView::ForecastTracked { forecasts };
            let a = update_spec(earlier, event);
            let b = update_spec(other, event);
            &&& a.forecasts == forecasts
            &&& a.avg_minimum_temperature == b.avg_minimum_temperature
            &&& a.avg_maximum_temperature == b.avg_maximum_temperature
            &&& a.weather_condition_distribution == b.weather_condition_distribution
            &&& a.avg_minimum_temperature == mean_temperature_of(forecasts, Extreme::Minimum)
            &&& a.avg_maximum_temperature == mean_temperature_of(forecasts, Extreme::Maximum)
            &&& a.weather_condition_distribution == distribution_of(forecasts)
        }),
{
}

/// A view has its two means exactly when it holds a forecast: without
/// forecasts nothing is divided and both means are absent.
pub proof fn means_exist_with_forecasts(view: ViewState, forecasts: Entries)
    ensures
        ({
            let after = update_spec(view, EventView::ForecastTracked { forecasts });
            &&& after.avg_minimum_temperature is Some <==> forecasts.len() > 0
            &&& after.avg_maximum_temperature is Some <==> forecasts.len() > 0
            &&& forecasts.len() == 0 ==> after.weather_condition_distribution =~= Map::empty()
        }),
{
}

/// A member added to the view is appended to its members; nothing else
/// changes.
pub proof fn view_takes_members_unchecked(view: ViewState, member_id: Seq<char>, email: Seq<char>)
    ensures
        update_spec(view, EventView::MemberAdded { member_id, email }) == (ViewState {
            members: view.members.push(MemberView { id: member_id, email }),
            ..view
        }),
{
}

} // verus!
