use snowy::aggregate::{TeamAggregate, TeamServices};
use snowy::commands::TeamCommand;
use snowy::error::Error;
use snowy::events::TeamEvent;
use snowy::forecasts::ForecastMap;
use snowy::{CelsiusTemperature, Member, MemberId, TeamId, WeatherCode, WeatherForecast};

fn team_after(events: Vec<TeamEvent>) -> TeamAggregate {
    let mut team = TeamAggregate::default();
    team.replay(&events);
    team
}

fn single(member_id: &MemberId, forecast: &WeatherForecast) -> ForecastMap {
    let mut forecasts = ForecastMap::new();
    forecasts.insert(member_id.clone(), *forecast);
    forecasts
}

#[test]
fn test_add_member() {
    let email = "test@example.com".to_string();
    let member_id = MemberId::new(uuid::Uuid::new_v4().to_string());
    let command = TeamCommand::AddMember {
        member_id: member_id.clone(),
        email: email.clone(),
    };
    let expected_event = TeamEvent::MemberAdded { member_id, email };

    let team = team_after(vec![]);
    assert_eq!(team.handle(command, &TeamServices), Ok(vec![expected_event]));
}

#[test]
fn test_add_existing_member() {
    let email = "test@example.com".to_string();
    let member_id = MemberId::new(uuid::Uuid::new_v4().to_string());
    let command = TeamCommand::AddMember {
        member_id: member_id.clone(),
        email: email.clone(),
    };

    let team = team_after(vec![TeamEvent::MemberAdded {
        member_id: member_id.clone(),
        email: email.clone(),
    }]);
    assert_eq!(
        team.handle(command, &TeamServices),
        Err(Error::MemberAlreadyExists(email))
    );
}

#[test]
fn test_track_first_member_forecast() {
    let member_id = MemberId::new(uuid::Uuid::new_v4().to_string());
    let email = "test@example.com".to_string();
    let member_added_event = TeamEvent::MemberAdded {
        member_id: member_id.clone(),
        email,
    };

    let forecast = WeatherForecast {
        minimum_temperature: CelsiusTemperature(10_000),
        maximum_temperature: CelsiusTemperature(20_000),
        weather_code: Some(WeatherCode::ClearSky),
        ..Default::default()
    };

    let track_forecast_command = TeamCommand::TrackMemberForecast {
        member_id: member_id.clone(),
        forecast: forecast.clone(),
    };
    let expected_events = vec![TeamEvent::ForecastTracked {
        forecasts: single(&member_id, &forecast),
    }];

    let team = team_after(vec![member_added_event]);
    assert_eq!(
        team.handle(track_forecast_command, &TeamServices),
        Ok(expected_events)
    );
}

#[test]
fn test_apply_member_added() {
    let mut team = TeamAggregate::default();
    let member_id = MemberId::new(uuid::Uuid::new_v4().to_string());
    let email = "test@example.com".to_string();
    let event = TeamEvent::MemberAdded {
        member_id: member_id.clone(),
        email: email.clone(),
    };

    team.apply(event);

    assert_eq!(team.members.len(), 1);
    assert_eq!(team.members[0].id, member_id);
    assert_eq!(team.members[0].email, email);
}

#[test]
fn test_apply_many_member_added() {
    let mut team = TeamAggregate::default();

    let events = vec![
        TeamEvent::MemberAdded {
            member_id: MemberId::new(uuid::Uuid::new_v4().to_string()),
            email: "test0@example.com".to_string(),
        },
        TeamEvent::MemberAdded {
            member_id: MemberId::new(uuid::Uuid::new_v4().to_string()),
            email: "test1@example.com".to_string(),
        },
        TeamEvent::MemberAdded {
            member_id: MemberId::new(uuid::Uuid::new_v4().to_string()),
            email: "test2@example.com".to_string(),
        },
    ];

    for event in events {
        team.apply(event);
    }

    assert_eq!(team.members.len(), 3);
    assert_eq!(team.members[0].email, "test0@example.com");
    assert_eq!(team.members[1].email, "test1@example.com");
    assert_eq!(team.members[2].email, "test2@example.com");
}

#[test]
fn test_apply_weather_forecast_tracked() {
    let member_id = MemberId::new(uuid::Uuid::new_v4().to_string());
    let mut team = TeamAggregate::default();
    team.members.push(Member::new(
        member_id.clone(),
        "test@example.com".to_string(),
    ));

    let forecast = WeatherForecast {
        minimum_temperature: CelsiusTemperature(10_000),
        maximum_temperature: CelsiusTemperature(20_000),
        weather_code: Some(WeatherCode::ClearSky),
        ..Default::default()
    };
    let event = TeamEvent::ForecastTracked {
        forecasts: single(&member_id, &forecast),
    };

    team.apply(event);

    assert_eq!(team.forecasts.len(), 1);
    assert_eq!(team.forecasts.get(&member_id).unwrap(), &forecast);
}

#[test]
fn test_apply_many_weather_forecast_tracked() {
    // given a team with 4 members
    let member0_id = MemberId::new(uuid::Uuid::new_v4().to_string());
    let member0_email = "test0@example.com";
    let member1_id = MemberId::new(uuid::Uuid::new_v4().to_string());
    let member1_email = "test1@example.com";
    let member2_id = MemberId::new(uuid::Uuid::new_v4().to_string());
    let member2_email = "test2@example.com";
    let member3_id = MemberId::new(uuid::Uuid::new_v4().to_string());
    let member3_email = "test3@example.com";

    let mut team = TeamAggregate::default();
    team.members.extend(vec![
        Member::new(member0_id.clone(), member0_email.to_string()),
        Member::new(member1_id.clone(), member1_email.to_string()),
        Member::new(member2_id.clone(), member2_email.to_string()),
        Member::new(member3_id.clone(), member3_email.to_string()),
    ]);

    let service = TeamServices {};

    // when a forecast is tracked for each member
    let member0_forecast0 = WeatherForecast {
        minimum_temperature: CelsiusTemperature(10_000),
        maximum_temperature: CelsiusTemperature(20_000),
        weather_code: Some(WeatherCode::ClearSky),
        ..Default::default()
    };
    let member0_forecast0_command = TeamCommand::TrackMemberForecast {
        member_id: member0_id.clone(),
        forecast: member0_forecast0.clone(),
    };
    let member0_forecast0_events = team.handle(member0_forecast0_command, &service).unwrap();

    for event in member0_forecast0_events {
        team.apply(event);
    }

    // check after first forecast
    assert_eq!(team.forecasts.len(), 1);
    assert_eq!(team.forecasts.get(&member0_id).unwrap(), &member0_forecast0);

    // another forecast for the same member
    let member0_forecast1 = WeatherForecast {
        minimum_temperature: CelsiusTemperature(8_000),
        maximum_temperature: CelsiusTemperature(12_000),
        weather_code: Some(WeatherCode::ModerateRain),
        ..Default::default()
    };
    let member0_forecast1_command = TeamCommand::TrackMemberForecast {
        member_id: member0_id.clone(),
        forecast: member0_forecast1.clone(),
    };
    let member0_forecast1_events = team.handle(member0_forecast1_command, &service).unwrap();

    for event in member0_forecast1_events {
        team.apply(event);
    }

    // check after another forecast for the same member
    assert_eq!(team.forecasts.len(), 1);
    assert_eq!(team.forecasts.get(&member0_id).unwrap(), &member0_forecast1);

    // forecast for another member
    let member1_forecast0 = WeatherForecast {
        minimum_temperature: CelsiusTemperature(15_000),
        maximum_temperature: CelsiusTemperature(25_000),
        weather_code: Some(WeatherCode::MainlyClear),
        ..Default::default()
    };
    let member1_forecast0_command = TeamCommand::TrackMemberForecast {
        member_id: member1_id.clone(),
        forecast: member1_forecast0.clone(),
    };
    let member1_forecast0_events = team.handle(member1_forecast0_command, &service).unwrap();
    for event in member1_forecast0_events {
        team.apply(event);
    }

    // check after forecast for another member
    assert_eq!(team.forecasts.len(), 2);
    assert_eq!(team.forecasts.get(&member1_id).unwrap(), &member1_forecast0);
}

#[test]
fn test_event_logging_query() {
    let mut team = TeamAggregate::default();
    let mut log: Vec<TeamEvent> = Vec::new();

    let commands = vec![
        TeamCommand::AddMember {
            member_id: MemberId::new("member-1".to_string()),
            email: "test@example.com".to_string(),
        },
        TeamCommand::TrackMemberForecast {
            member_id: MemberId::new("member-1".to_string()),
            forecast: WeatherForecast {
                weather_code: Some(WeatherCode::Fog),
                minimum_temperature: CelsiusTemperature(10_000),
                maximum_temperature: CelsiusTemperature(20_000),
                ..Default::default()
            },
        },
        TeamCommand::AddMember {
            member_id: MemberId::new("member-2".to_string()),
            email: "test2@example.com".to_string(),
        },
        TeamCommand::TrackMemberForecast {
            member_id: MemberId::new("member-2".to_string()),
            forecast: WeatherForecast {
                weather_code: Some(WeatherCode::DenseDrizzle),
                minimum_temperature: CelsiusTemperature(5_000),
                maximum_temperature: CelsiusTemperature(12_000),
                ..Default::default()
            },
        },
    ];

    for command in commands {
        let events = team.handle(command, &TeamServices).unwrap();
        team.replay(&events);
        log.extend(events);
    }

    let names: Vec<String> = log.iter().map(|e| e.event_type()).collect();
    assert_eq!(
        names,
        vec!["member-added", "forecast-tracked", "member-added", "forecast-tracked"]
    );
    assert_eq!(team.members.len(), 2);
    assert_eq!(team.forecasts.len(), 2);
}

#[test]
fn add_member_with_known_id_and_new_email_is_rejected() {
    let member_id = MemberId::new("member-1".to_string());
    let team = team_after(vec![TeamEvent::MemberAdded {
        member_id: member_id.clone(),
        email: "first@example.com".to_string(),
    }]);
    let command = TeamCommand::AddMember {
        member_id,
        email: "second@example.com".to_string(),
    };
    assert_eq!(
        team.handle(command, &TeamServices),
        Err(Error::MemberAlreadyExists("second@example.com".to_string()))
    );
}

#[test]
fn add_member_with_known_email_and_new_id_is_rejected() {
    let team = team_after(vec![TeamEvent::MemberAdded {
        member_id: MemberId::new("member-1".to_string()),
        email: "shared@example.com".to_string(),
    }]);
    let command = TeamCommand::AddMember {
        member_id: MemberId::new("member-2".to_string()),
        email: "shared@example.com".to_string(),
    };
    assert_eq!(
        team.handle(command, &TeamServices),
        Err(Error::MemberAlreadyExists("shared@example.com".to_string()))
    );
    assert_eq!(team.members.len(), 1);
}

#[test]
fn forecast_for_unknown_member_is_rejected() {
    let mut team = team_after(vec![TeamEvent::MemberAdded {
        member_id: MemberId::new("member-1".to_string()),
        email: "test@example.com".to_string(),
    }]);
    team.team.id = TeamId::from("team-1");
    let stranger = MemberId::new("member-9".to_string());
    let command = TeamCommand::TrackMemberForecast {
        member_id: stranger.clone(),
        forecast: WeatherForecast::default(),
    };
    assert_eq!(
        team.handle(command, &TeamServices),
        Err(Error::MemberNotFoundInTeam(stranger, TeamId::from("team-1".to_string())))
    );
    assert!(team.forecasts.is_empty());
}

#[test]
fn forecast_on_an_empty_team_is_rejected() {
    let team = TeamAggregate::default();
    let stranger = MemberId::new("member-1".to_string());
    let command = TeamCommand::TrackMemberForecast {
        member_id: stranger.clone(),
        forecast: WeatherForecast::default(),
    };
    assert_eq!(
        team.handle(command, &TeamServices),
        Err(Error::MemberNotFoundInTeam(stranger, TeamId::default()))
    );
}

#[test]
fn tracked_event_carries_every_latest_forecast() {
    let m1 = MemberId::new("member-1".to_string());
    let m2 = MemberId::new("member-2".to_string());
    let mut team = team_after(vec![
        TeamEvent::MemberAdded { member_id: m1.clone(), email: "a@example.com".to_string() },
        TeamEvent::MemberAdded { member_id: m2.clone(), email: "b@example.com".to_string() },
    ]);
    let f1 = WeatherForecast { minimum_temperature: CelsiusTemperature(1_000), ..Default::default() };
    let f2 = WeatherForecast { minimum_temperature: CelsiusTemperature(2_000), ..Default::default() };
    let events = team
        .handle(TeamCommand::TrackMemberForecast { member_id: m1.clone(), forecast: f1 }, &TeamServices)
        .unwrap();
    team.replay(&events);
    let events = team
        .handle(TeamCommand::TrackMemberForecast { member_id: m2.clone(), forecast: f2 }, &TeamServices)
        .unwrap();
    assert_eq!(events.len(), 1);
    match &events[0] {
        TeamEvent::ForecastTracked { forecasts } => {
            assert_eq!(forecasts.len(), 2);
            assert_eq!(forecasts.get(&m1), Some(&f1));
            assert_eq!(forecasts.get(&m2), Some(&f2));
        }
        other => panic!("unexpected event {:?}", other),
    }
    // handling changes nothing: only apply does
    assert_eq!(team.forecasts.len(), 1);
}

#[test]
fn forecasts_of_two_members_in_either_order() {
    let m1 = MemberId::new("member-1".to_string());
    let m2 = MemberId::new("member-2".to_string());
    let history = vec![
        TeamEvent::MemberAdded { member_id: m1.clone(), email: "a@example.com".to_string() },
        TeamEvent::MemberAdded { member_id: m2.clone(), email: "b@example.com".to_string() },
    ];
    let f1 = WeatherForecast { minimum_temperature: CelsiusTemperature(1_000), ..Default::default() };
    let f2 = WeatherForecast { minimum_temperature: CelsiusTemperature(2_000), ..Default::default() };
    let c1 = TeamCommand::TrackMemberForecast { member_id: m1.clone(), forecast: f1 };
    let c2 = TeamCommand::TrackMemberForecast { member_id: m2.clone(), forecast: f2 };

    let mut forth = team_after(history.clone());
    for command in vec![c1.clone(), c2.clone()] {
        let events = forth.handle(command, &TeamServices).unwrap();
        forth.replay(&events);
    }
    let mut back = team_after(history);
    for command in vec![c2, c1] {
        let events = back.handle(command, &TeamServices).unwrap();
        back.replay(&events);
    }
    assert_eq!(forth.forecasts, back.forecasts);
    assert_eq!(forth.members, back.members);
    assert_eq!(forth.forecasts.entry_at(0).0, &m1);
    assert_eq!(back.forecasts.entry_at(0).0, &m2);
}

#[test]
fn replaying_a_history_twice_gives_the_same_team() {
    let m1 = MemberId::new("member-1".to_string());
    let f1 = WeatherForecast { weather_code: Some(WeatherCode::Fog), ..Default::default() };
    let history = vec![
        TeamEvent::MemberAdded { member_id: m1.clone(), email: "a@example.com".to_string() },
        TeamEvent::ForecastTracked { forecasts: single(&m1, &f1) },
    ];
    let one = team_after(history.clone());
    let two = team_after(history);
    assert_eq!(one.members, two.members);
    assert_eq!(one.forecasts, two.forecasts);
    assert_eq!(one.forecasts.get(&m1), Some(&f1));
}

#[test]
fn names_under_which_teams_and_events_are_stored() {
    assert_eq!(TeamAggregate::aggregate_type(), "team");
    let joined = TeamEvent::MemberAdded {
        member_id: MemberId::new("m".to_string()),
        email: "e".to_string(),
    };
    let recorded = TeamEvent::ForecastTracked { forecasts: ForecastMap::new() };
    assert_eq!(joined.event_type(), "member-added");
    assert_eq!(recorded.event_type(), "forecast-tracked");
    assert_eq!(joined.event_version(), "1.0");
    assert_eq!(recorded.event_version(), "1.0");
}

#[test]
fn two_newcomers_in_either_order() {
    let a = TeamCommand::AddMember {
        member_id: MemberId::new("member-1".to_string()),
        email: "a@example.com".to_string(),
    };
    let b = TeamCommand::AddMember {
        member_id: MemberId::new("member-2".to_string()),
        email: "b@example.com".to_string(),
    };
    let mut forth = TeamAggregate::default();
    for command in vec![a.clone(), b.clone()] {
        let events = forth.handle(command, &TeamServices).unwrap();
        forth.replay(&events);
    }
    let mut back = TeamAggregate::default();
    for command in vec![b, a] {
        let events = back.handle(command, &TeamServices).unwrap();
        back.replay(&events);
    }
    assert_eq!(forth.members.len(), 2);
    assert_eq!(back.members.len(), 2);
    assert!(forth.members.iter().all(|m| back.members.contains(m)));
    assert!(back.members.iter().all(|m| forth.members.contains(m)));
    assert_eq!(forth.members[0], back.members[1]);
    assert_eq!(forth.forecasts, back.forecasts);
}

#[test]
fn member_checks() {
    let team = team_after(vec![TeamEvent::MemberAdded {
        member_id: MemberId::new("member-1".to_string()),
        email: "a@example.com".to_string(),
    }]);
    let known = MemberId::new("member-1".to_string());
    let unknown = MemberId::new("member-2".to_string());
    assert!(team.has_member(&known));
    assert!(!team.has_member(&unknown));
    assert!(team.has_member_with(&known, &"x@example.com".to_string()));
    assert!(team.has_member_with(&unknown, &"a@example.com".to_string()));
    assert!(!team.has_member_with(&unknown, &"x@example.com".to_string()));
}

#[test]
fn execute_applies_what_is_accepted_and_nothing_else() {
    let mut team = TeamAggregate::default();
    let m1 = MemberId::new("member-1".to_string());
    let joined = team
        .execute(
            TeamCommand::AddMember { member_id: m1.clone(), email: "a@example.com".to_string() },
            &TeamServices,
        )
        .unwrap();
    assert_eq!(
        joined,
        vec![TeamEvent::MemberAdded { member_id: m1.clone(), email: "a@example.com".to_string() }]
    );
    assert_eq!(team.members, vec![Member::new(m1.clone(), "a@example.com".to_string())]);

    let again = team.execute(
        TeamCommand::AddMember { member_id: m1.clone(), email: "b@example.com".to_string() },
        &TeamServices,
    );
    assert_eq!(again, Err(Error::MemberAlreadyExists("b@example.com".to_string())));
    assert_eq!(team.members.len(), 1);

    let forecast = WeatherForecast {
        maximum_temperature: CelsiusTemperature(31_500),
        ..Default::default()
    };
    let recorded = team
        .execute(TeamCommand::TrackMemberForecast { member_id: m1.clone(), forecast }, &TeamServices)
        .unwrap();
    assert_eq!(recorded, vec![TeamEvent::ForecastTracked { forecasts: single(&m1, &forecast) }]);
    assert_eq!(team.forecasts.get(&m1), Some(&forecast));

    let stranger = MemberId::new("member-2".to_string());
    let rejected = team.execute(
        TeamCommand::TrackMemberForecast { member_id: stranger.clone(), forecast },
        &TeamServices,
    );
    assert_eq!(rejected, Err(Error::MemberNotFoundInTeam(stranger, TeamId::default())));
    assert_eq!(team.forecasts.len(), 1);
}
