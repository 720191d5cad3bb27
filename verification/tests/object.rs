use glyph3d::interface::input::{ActiveCommand, InterpolationMode, Progress, NANOS_PER_SECOND};
use glyph3d::rendering::object::{Contribution, Object};

const SECOND: u128 = 1_000_000_000;

fn command(payload: &'static str, mode: InterpolationMode) -> ActiveCommand<&'static str> {
    ActiveCommand { command: payload, interpolation: mode, time_passed: 0 }
}

fn object() -> Object<(), &'static str> {
    Object::new(())
}

#[test]
fn a_second_is_a_thousand_million_nanoseconds() {
    assert_eq!(NANOS_PER_SECOND, SECOND);
}

#[test]
fn a_new_object_has_no_commands() {
    let mut obj = object();
    assert!(obj.active_commands.is_empty());
    assert_eq!(obj.apply_commands(), vec![]);
}

#[test]
fn modes_say_when_they_are_over() {
    assert!(InterpolationMode::Instant.is_over(0));
    assert!(!InterpolationMode::Linear { duration: SECOND }.is_over(0));
    assert!(!InterpolationMode::Linear { duration: SECOND }.is_over(SECOND));
    assert!(InterpolationMode::Linear { duration: SECOND }.is_over(SECOND + 1));
    assert!(InterpolationMode::Linear { duration: 0 }.is_over(1));
    assert!(!InterpolationMode::Linear { duration: 0 }.is_over(0));
    assert!(!InterpolationMode::Continuous.is_over(u128::MAX));
    assert!(!InterpolationMode::Oscillation { period: 1 }.is_over(u128::MAX));
}

#[test]
fn modes_say_how_far_they_have_come() {
    assert_eq!(InterpolationMode::Instant.progress(77), Progress::Ratio { elapsed: 1, span: 1 });
    assert_eq!(
        InterpolationMode::Linear { duration: 400 }.progress(100),
        Progress::Ratio { elapsed: 100, span: 400 }
    );
    assert_eq!(
        InterpolationMode::Continuous.progress(2 * SECOND),
        Progress::Ratio { elapsed: 2 * SECOND, span: SECOND }
    );
    assert_eq!(
        InterpolationMode::Oscillation { period: 8 }.progress(2),
        Progress::Wave { elapsed: 2, period: 8 }
    );
}

#[test]
fn an_instant_command_is_applied_in_full_and_then_gone() {
    let mut obj = object();
    obj.add_command(command("move", InterpolationMode::Instant));
    let out = obj.apply_commands();
    assert_eq!(
        out,
        vec![Contribution {
            command: "move",
            progress: Progress::Ratio { elapsed: 1, span: 1 },
            over: true
        }]
    );
    assert!(obj.active_commands.is_empty());
    assert_eq!(obj.apply_commands(), vec![]);
}

#[test]
fn a_linear_command_at_half_time_gives_half() {
    let mut obj = object();
    obj.add_command(command("move", InterpolationMode::Linear { duration: SECOND }));
    obj.pass_time(SECOND / 2);
    let out = obj.apply_commands();
    assert_eq!(out.len(), 1);
    assert!(!out[0].over);
    match out[0].progress {
        Progress::Ratio { elapsed, span } => {
            assert_eq!(elapsed, 500_000_000);
            assert_eq!(span, 1_000_000_000);
            assert_eq!(2 * elapsed, span);
        }
        other => panic!("{:?}", other),
    }
    assert_eq!(obj.active_commands.len(), 1);
    assert_eq!(obj.active_commands[0].time_passed, 500_000_000);
}

#[test]
fn a_linear_command_past_its_time_is_retired() {
    let mut obj = object();
    obj.add_command(command("move", InterpolationMode::Linear { duration: SECOND }));
    obj.pass_time(1_100_000_000);
    let out = obj.apply_commands();
    assert_eq!(
        out,
        vec![Contribution {
            command: "move",
            progress: Progress::Ratio { elapsed: 1_100_000_000, span: 1_000_000_000 },
            over: true
        }]
    );
    assert!(obj.active_commands.is_empty());
}

#[test]
fn a_linear_command_at_exactly_its_time_is_full_but_not_over() {
    let mut obj = object();
    obj.add_command(command("move", InterpolationMode::Linear { duration: SECOND }));
    obj.pass_time(SECOND);
    let out = obj.apply_commands();
    assert_eq!(out[0].progress, Progress::Ratio { elapsed: SECOND, span: SECOND });
    assert!(!out[0].over);
    assert_eq!(obj.active_commands.len(), 1);
}

#[test]
fn two_instant_commands_are_applied_in_the_order_they_were_issued() {
    let mut obj = object();
    obj.add_command(command("rotate about x", InterpolationMode::Instant));
    obj.add_command(command("rotate about y", InterpolationMode::Instant));
    let out = obj.apply_commands();
    let order: Vec<&str> = out.iter().map(|c| c.command).collect();
    assert_eq!(order, vec!["rotate about x", "rotate about y"]);
    assert!(out.iter().all(|c| c.over && c.progress == Progress::Ratio { elapsed: 1, span: 1 }));
    assert!(obj.active_commands.is_empty());
}

#[test]
fn a_continuous_command_after_an_instant_one_is_not_taken_as_over() {
    let mut obj = object();
    obj.add_command(command("jump", InterpolationMode::Instant));
    obj.add_command(command("spin", InterpolationMode::Continuous));
    obj.pass_time(3 * SECOND);
    let out = obj.apply_commands();
    assert!(out[0].over);
    assert!(!out[1].over);
    assert_eq!(out[1].progress, Progress::Ratio { elapsed: 3 * SECOND, span: SECOND });
    assert_eq!(obj.active_commands.len(), 1);
    assert_eq!(obj.active_commands[0].command, "spin");
}

#[test]
fn commands_that_stay_keep_their_order() {
    let mut obj = object();
    obj.add_command(command("a", InterpolationMode::Continuous));
    obj.add_command(command("b", InterpolationMode::Instant));
    obj.add_command(command("c", InterpolationMode::Oscillation { period: SECOND }));
    obj.add_command(command("d", InterpolationMode::Linear { duration: 10 }));
    obj.add_command(command("e", InterpolationMode::Linear { duration: 100 }));
    obj.pass_time(50);
    let out = obj.apply_commands();
    let over: Vec<bool> = out.iter().map(|c| c.over).collect();
    assert_eq!(over, vec![false, true, false, true, false]);
    let left: Vec<&str> = obj.active_commands.iter().map(|c| c.command).collect();
    assert_eq!(left, vec!["a", "c", "e"]);
}

#[test]
fn an_oscillation_reports_its_phase() {
    let mut obj = object();
    obj.add_command(command("sway", InterpolationMode::Oscillation { period: 4 * SECOND }));
    obj.pass_time(SECOND);
    let out = obj.apply_commands();
    assert_eq!(out[0].progress, Progress::Wave { elapsed: SECOND, period: 4 * SECOND });
    assert!(!out[0].over);
}

#[test]
fn time_adds_up_and_stops_at_the_largest_value() {
    let mut obj = object();
    obj.add_command(command("spin", InterpolationMode::Continuous));
    obj.pass_time(16_667_000);
    obj.pass_time(16_667_000);
    assert_eq!(obj.active_commands[0].time_passed, 33_334_000);
    obj.pass_time(u128::MAX - 5);
    assert_eq!(obj.active_commands[0].time_passed, u128::MAX);
    obj.pass_time(9);
    assert_eq!(obj.active_commands[0].time_passed, u128::MAX);
}

#[test]
fn the_body_is_carried_untouched() {
    let mut obj: Object<Vec<u8>, &str> = Object::new(vec![1, 2, 3]);
    obj.add_command(command("a", InterpolationMode::Instant));
    obj.pass_time(5);
    obj.apply_commands();
    assert_eq!(obj.body, vec![1, 2, 3]);
}
