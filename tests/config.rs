use bloombot::config::{
    member_update_type, plan_role_update, reaches_star_board, ChallengeChoices, Channels, Emotes, Roles,
    StreakRoles, TimeSumRoles, UpdateType,
};

#[test]
fn minutes_thresholds() {
    assert_eq!(TimeSumRoles::from_sum(i64::MIN), None);
    assert_eq!(TimeSumRoles::from_sum(49), None);
    assert_eq!(TimeSumRoles::from_sum(50), Some(TimeSumRoles::One));
    assert_eq!(TimeSumRoles::from_sum(99), Some(TimeSumRoles::One));
    assert_eq!(TimeSumRoles::from_sum(100), Some(TimeSumRoles::Two));
    assert_eq!(TimeSumRoles::from_sum(249), Some(TimeSumRoles::Three));
    assert_eq!(TimeSumRoles::from_sum(1000), Some(TimeSumRoles::Six));
    assert_eq!(TimeSumRoles::from_sum(119_999), Some(TimeSumRoles::Twelve));
    assert_eq!(TimeSumRoles::from_sum(120_000), Some(TimeSumRoles::Thirteen));
    assert_eq!(TimeSumRoles::from_sum(199_999), Some(TimeSumRoles::Fourteen));
    assert_eq!(TimeSumRoles::from_sum(200_000), Some(TimeSumRoles::Fifteen));
    assert_eq!(TimeSumRoles::from_sum(i64::MAX), Some(TimeSumRoles::Fifteen));
}

#[test]
fn streak_thresholds() {
    assert_eq!(StreakRoles::from_streak(0), None);
    assert_eq!(StreakRoles::from_streak(6), None);
    assert_eq!(StreakRoles::from_streak(7), Some(StreakRoles::Egg));
    assert_eq!(StreakRoles::from_streak(13), Some(StreakRoles::Egg));
    assert_eq!(StreakRoles::from_streak(14), Some(StreakRoles::HatchingChick));
    assert_eq!(StreakRoles::from_streak(364), Some(StreakRoles::Eagle));
    assert_eq!(StreakRoles::from_streak(365), Some(StreakRoles::Dragon));
    assert_eq!(StreakRoles::from_streak(1824), Some(StreakRoles::Alien));
    assert_eq!(StreakRoles::from_streak(u64::MAX), Some(StreakRoles::SpaceInvader));
}

#[test]
fn role_ids_round_trip() {
    for r in [TimeSumRoles::One, TimeSumRoles::Seven, TimeSumRoles::Fifteen] {
        assert_eq!(TimeSumRoles::from_role_id(r.to_role_id()), Some(r));
    }
    for r in [StreakRoles::Egg, StreakRoles::Alien, StreakRoles::SpaceInvader] {
        assert_eq!(StreakRoles::from_role_id(r.to_role_id()), Some(r));
    }
    assert_eq!(TimeSumRoles::One.to_role_id(), 504641899890475018);
    assert_eq!(StreakRoles::Alien.to_role_id(), 857242155784863754);
    assert_eq!(TimeSumRoles::from_role_id(1), None);
    assert_eq!(StreakRoles::from_role_id(504641899890475018), None);
}

#[test]
fn current_roles_filter() {
    let member = vec![
        42,
        TimeSumRoles::Two.to_role_id(),
        StreakRoles::Egg.to_role_id(),
        TimeSumRoles::Five.to_role_id(),
    ];
    let guild = vec![TimeSumRoles::Five.to_role_id(), TimeSumRoles::Two.to_role_id(), 42, StreakRoles::Egg.to_role_id()];
    assert_eq!(
        TimeSumRoles::get_users_current_roles(&member, &guild),
        vec![TimeSumRoles::Two.to_role_id(), TimeSumRoles::Five.to_role_id()]
    );
    assert_eq!(StreakRoles::get_users_current_roles(&member, &guild), vec![StreakRoles::Egg.to_role_id()]);
    let smaller_guild = vec![TimeSumRoles::Five.to_role_id()];
    assert_eq!(
        TimeSumRoles::get_users_current_roles(&member, &smaller_guild),
        vec![TimeSumRoles::Five.to_role_id()]
    );
}

#[test]
fn role_update_plan() {
    let current = vec![TimeSumRoles::Two.to_role_id()];
    let up = plan_role_update(&current, Some(TimeSumRoles::Three.to_role_id()));
    assert_eq!(up.remove, current);
    assert_eq!(up.add, Some(TimeSumRoles::Three.to_role_id()));
    let same = plan_role_update(&current, Some(TimeSumRoles::Two.to_role_id()));
    assert!(same.remove.is_empty());
    assert_eq!(same.add, None);
    let none = plan_role_update(&current, None);
    assert!(none.remove.is_empty());
    assert_eq!(none.add, None);
}

#[test]
fn configured_ids() {
    assert_eq!(Roles::configured().staff, 788760128010059786);
    assert_eq!(Channels::configured().bloomlogs, 1161911290915209297);
    let e = Emotes::configured();
    assert_eq!(e.star, "\u{2b50}");
    assert_eq!(e.report, 852463521894629376);
}

#[test]
fn challenge_roles() {
    let roles = Roles::configured();
    assert_eq!(ChallengeChoices::Monthly.role_id(&roles), 796821826369617970);
    assert_eq!(ChallengeChoices::YearRound.role_id(&roles), 516750476268666880);
}

#[test]
fn member_updates() {
    let roles = Roles::configured();
    let none: Vec<u64> = vec![];
    assert_eq!(
        member_update_type(&none, &vec![roles.kofi, roles.patreon], false, false, &roles),
        Some(UpdateType::BecamePatreonDonator)
    );
    assert_eq!(
        member_update_type(&vec![roles.patreon], &vec![roles.kofi, roles.patreon], false, false, &roles),
        Some(UpdateType::BecameKofiDonator)
    );
    assert_eq!(member_update_type(&none, &none, true, false, &roles), Some(UpdateType::StoppedPending));
    assert_eq!(member_update_type(&vec![roles.kofi], &none, false, true, &roles), None);
}

#[test]
fn star_board_threshold() {
    assert!(!reaches_star_board(4));
    assert!(reaches_star_board(5));
}
