use kotatsu_realtime::limits::{PARAM_CHANGE_COOLDOWN_SECS, PARAM_DEFAULT_LEVEL};
use kotatsu_realtime::params::{
    apply_param_change, param_level_bounds, ParamDirection, ParamKind, ParamUpdateError, PlayerParams,
};

#[test]
fn param_change_updates_one_step_only() {
    let params = PlayerParams::default();
    let updated = apply_param_change(&params, 0, ParamKind::Gravity, ParamDirection::Increase, 100)
        .expect("should update");
    assert_eq!(updated.params.gravity, 3);
    assert_eq!(updated.params.friction, 2);
    assert_eq!(updated.params.speed, 2);
    assert_eq!(updated.next_param_change_at_unix, 130);
}

#[test]
fn friction_can_only_toggle_between_off_and_on() {
    let params = PlayerParams::default();
    let updated = apply_param_change(&params, 0, ParamKind::Friction, ParamDirection::Decrease, 100)
        .expect("should update");
    assert_eq!(updated.params.friction, 1);

    let err = apply_param_change(&params, 0, ParamKind::Friction, ParamDirection::Increase, 100)
        .expect_err("must reject");
    assert_eq!(err, ParamUpdateError::OutOfRange);
}

#[test]
fn param_change_respects_range_limit() {
    let params = PlayerParams { gravity: 3, friction: 2, speed: 2 };
    let err = apply_param_change(&params, 0, ParamKind::Gravity, ParamDirection::Increase, 100)
        .expect_err("must reject");
    assert_eq!(err, ParamUpdateError::OutOfRange);
}

#[test]
fn param_change_respects_cooldown() {
    let params = PlayerParams::default();
    let err = apply_param_change(&params, 120, ParamKind::Speed, ParamDirection::Decrease, 100)
        .expect_err("must reject");
    assert_eq!(err, ParamUpdateError::CooldownActive { next_allowed_at_unix: 120 });
}

#[test]
fn default_params_are_all_at_the_default_level() {
    let p = PlayerParams::default();
    assert_eq!(p, PlayerParams { gravity: 2, friction: 2, speed: 2 });
    assert_eq!(PARAM_DEFAULT_LEVEL, 2);
}

#[test]
fn level_bounds_follow_the_documented_ranges() {
    assert_eq!(param_level_bounds(ParamKind::Gravity), (1, 3));
    assert_eq!(param_level_bounds(ParamKind::Speed), (1, 3));
    assert_eq!(param_level_bounds(ParamKind::Friction), (1, 2));
}

#[test]
fn lower_bound_is_refused_too() {
    let params = PlayerParams { gravity: 1, friction: 1, speed: 1 };
    for kind in [ParamKind::Gravity, ParamKind::Friction, ParamKind::Speed] {
        let err = apply_param_change(&params, 0, kind, ParamDirection::Decrease, 50).expect_err("must reject");
        assert_eq!(err, ParamUpdateError::OutOfRange);
    }
}

#[test]
fn cooldown_ends_exactly_at_its_deadline() {
    let params = PlayerParams::default();
    let ok = apply_param_change(&params, 120, ParamKind::Speed, ParamDirection::Decrease, 120)
        .expect("cooldown over");
    assert_eq!(ok.params.speed, 1);
    assert_eq!(ok.next_param_change_at_unix, 120 + PARAM_CHANGE_COOLDOWN_SECS);
}

#[test]
fn accepted_change_blocks_the_next_one_until_the_cooldown_ends() {
    let params = PlayerParams::default();
    let first = apply_param_change(&params, 0, ParamKind::Speed, ParamDirection::Increase, 1000).unwrap();
    let blocked = apply_param_change(&first.params, first.next_param_change_at_unix, ParamKind::Gravity,
        ParamDirection::Increase, 1029).expect_err("cooldown");
    assert_eq!(blocked, ParamUpdateError::CooldownActive { next_allowed_at_unix: 1030 });
    let later = apply_param_change(&first.params, first.next_param_change_at_unix, ParamKind::Gravity,
        ParamDirection::Increase, 1030).expect("allowed");
    assert_eq!(later.params, PlayerParams { gravity: 3, friction: 2, speed: 3 });
}

#[test]
fn opposite_change_restores_the_levels() {
    let params = PlayerParams::default();
    let up = apply_param_change(&params, 0, ParamKind::Gravity, ParamDirection::Increase, 10).unwrap();
    let down = apply_param_change(&up.params, up.next_param_change_at_unix, ParamKind::Gravity,
        ParamDirection::Decrease, up.next_param_change_at_unix).unwrap();
    assert_eq!(down.params, params);
}

#[test]
fn refusal_messages_match_the_protocol_text() {
    assert_eq!(ParamUpdateError::OutOfRange.message(), "out_of_range");
    assert_eq!(ParamUpdateError::CooldownActive { next_allowed_at_unix: 1234567890 }.message(),
        "cooldown_active:1234567890");
    assert_eq!(ParamUpdateError::CooldownActive { next_allowed_at_unix: 0 }.message(), "cooldown_active:0");
}
