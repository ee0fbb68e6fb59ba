use matter::error::IMStatusCode;
use matter::level_control::{
    Attributes, Commands, LevelControlCluster, LevelResponse, LevelState, MoveMode, StepMode,
    Transition, ATTR_MAX_LEVEL, ATTR_MIN_LEVEL,
};
use matter::attribute::AttrValue;
use matter::tlv::TlvElement;

fn u(v: u64) -> TlvElement {
    TlvElement::UnsignedInt(v)
}

fn at_level(level: u64) -> Box<LevelControlCluster> {
    let mut c = LevelControlCluster::new().unwrap();
    let r = c.handle_command(Some(0x00), &vec![u(level), u(0), u(0), u(0)]);
    assert_eq!(r.status, IMStatusCode::Success);
    c
}

#[test]
fn fresh_cluster_defaults() {
    let c = LevelControlCluster::new().unwrap();
    assert_eq!(c.get_state(), LevelState { current: 0, remaining: 0, transition: Transition::Idle });
    assert_eq!(c.base().read_attribute_raw(ATTR_MIN_LEVEL), Ok(&AttrValue::Uint8(0)));
    assert_eq!(c.base().read_attribute_raw(ATTR_MAX_LEVEL), Ok(&AttrValue::Uint8(254)));
    assert_eq!(c.base().id(), 0x0008);
    assert_eq!(Attributes::StartUpCurrentLevel.id(), 0x4000);
    assert_eq!(Attributes::OnLevel.id(), 0x0011);
}

#[test]
fn step_up_clamps_at_max() {
    let mut c = at_level(250);
    let r = c.handle_command(Some(0x02), &vec![u(0), u(10), u(0), u(0), u(0)]);
    assert_eq!(r, LevelResponse { status: IMStatusCode::Success, on_off: None });
    assert_eq!(c.get_state().current, 254);
}

#[test]
fn step_down_clamps_at_min() {
    let mut c = at_level(5);
    c.handle_command(Some(0x02), &vec![u(1), u(10), u(0), u(0), u(0)]);
    assert_eq!(c.get_state().current, 0);
}

#[test]
fn step_up_then_down_is_identity() {
    let mut c = at_level(100);
    c.step_level(StepMode::Up, 20).unwrap();
    assert_eq!(c.get_state().current, 120);
    c.step_level(StepMode::Down, 20).unwrap();
    assert_eq!(c.get_state().current, 100);
}

#[test]
fn unknown_command_is_unsupported() {
    let mut c = at_level(42);
    let before = c.get_state();
    let r = c.handle_command(Some(0xFF), &vec![]);
    assert_eq!(r, LevelResponse { status: IMStatusCode::UnsupportedCommand, on_off: None });
    assert_eq!(c.get_state(), before);
    assert_eq!(c.handle_command(None, &vec![]).status, IMStatusCode::UnsupportedCommand);
}

#[test]
fn move_to_level_clamps_and_validates() {
    let mut c = at_level(255);
    assert_eq!(c.get_state().current, 254);
    let r = c.handle_command(Some(0x00), &vec![u(300), u(0), u(0), u(0)]);
    assert_eq!(r.status, IMStatusCode::ConstraintError);
    let r = c.handle_command(Some(0x00), &vec![TlvElement::Bool(true), u(0), u(0), u(0)]);
    assert_eq!(r.status, IMStatusCode::InvalidDataType);
    let r = c.handle_command(Some(0x00), &vec![u(3)]);
    assert_eq!(r.status, IMStatusCode::InvalidDataType);
    assert_eq!(c.get_state().current, 254);
}

#[test]
fn timed_move_to_level_runs_a_transition() {
    let mut c = LevelControlCluster::new().unwrap();
    c.handle_command(Some(0x00), &vec![u(100), u(4), u(0), u(0)]);
    assert_eq!(
        c.get_state(),
        LevelState { current: 0, remaining: 4, transition: Transition::Running { target: 100, rate: 25 } }
    );
    c.tick();
    assert_eq!(c.get_state().current, 25);
    assert_eq!(c.get_state().remaining, 3);
    c.tick();
    c.tick();
    c.tick();
    assert_eq!(
        c.get_state(),
        LevelState { current: 100, remaining: 0, transition: Transition::Completed }
    );
}

#[test]
fn move_and_stop() {
    let mut c = at_level(10);
    c.handle_command(Some(0x01), &vec![u(0), u(100), u(0), u(0)]);
    assert_eq!(c.transition(), Transition::Running { target: 254, rate: 100 });
    c.tick();
    assert_eq!(c.get_state().current, 110);
    let r = c.handle_command(Some(0x03), &vec![u(0), u(0)]);
    assert_eq!(r.status, IMStatusCode::Success);
    assert_eq!(c.get_state(), LevelState { current: 110, remaining: 0, transition: Transition::Stopped });
    c.tick();
    assert_eq!(c.get_state().current, 110);
}

#[test]
fn move_with_zero_rate_changes_nothing() {
    let mut c = at_level(10);
    c.move_level(MoveMode::Down, 0).unwrap();
    assert_eq!(c.transition(), Transition::Idle);
    c.move_level(MoveMode::Down, 3).unwrap();
    assert_eq!(c.transition(), Transition::Running { target: 0, rate: 3 });
}

#[test]
fn with_on_off_variants_report_coupling() {
    let mut c = LevelControlCluster::new().unwrap();
    let r = c.handle_command(Some(0x04), &vec![u(0), u(0), u(0), u(0)]);
    assert_eq!(r, LevelResponse { status: IMStatusCode::Success, on_off: Some(false) });
    let r = c.handle_command(Some(0x06), &vec![u(0), u(5), u(0), u(0), u(0)]);
    assert_eq!(r, LevelResponse { status: IMStatusCode::Success, on_off: Some(true) });
    let r = c.handle_command(Some(0x07), &vec![u(0), u(0)]);
    assert_eq!(r, LevelResponse { status: IMStatusCode::Success, on_off: Some(true) });
}

#[test]
fn closest_frequency_is_a_no_op() {
    let mut c = at_level(7);
    let r = c.handle_command(Some(0x08), &vec![]);
    assert_eq!(r.status, IMStatusCode::Success);
    assert_eq!(c.get_state().current, 7);
}

#[test]
fn mode_and_command_decoding() {
    assert_eq!(MoveMode::from_int(0), MoveMode::Up);
    assert_eq!(MoveMode::from_int(1), MoveMode::Down);
    assert_eq!(StepMode::from_int(0), StepMode::Up);
    assert_eq!(StepMode::from_int(9), StepMode::Down);
    assert_eq!(Commands::from_u32(8), Some(Commands::MoveToClosestFrequency));
    assert_eq!(Commands::from_u32(9), None);
}
