use bevy_rl::text::{list_chars, push_decimal, zero_padded_chars};
use bevy_rl::training::{dashboard_progress, TrainingRun, TrainingStep};

fn text(chars: Vec<char>) -> String {
    chars.into_iter().collect()
}

#[test]
fn training_runs_every_update_in_order_then_saves_the_last() {
    let mut run = TrainingRun::new(3);
    let mut ran = Vec::new();
    loop {
        match run.next_step(false) {
            TrainingStep::RunUpdate(index) => {
                ran.push(index);
                run.update_completed();
            }
            TrainingStep::Finish(saved) => {
                assert_eq!(saved, Some(2));
                break;
            }
        }
    }
    assert_eq!(ran, vec![0, 1, 2]);
}

#[test]
fn stop_request_finishes_after_the_completed_update() {
    let mut run = TrainingRun::new(10);
    assert_eq!(run.next_step(false), TrainingStep::RunUpdate(0));
    run.update_completed();
    assert_eq!(run.next_step(false), TrainingStep::RunUpdate(1));
    run.update_completed();
    assert_eq!(run.next_step(true), TrainingStep::Finish(Some(1)));
}

#[test]
fn stop_before_any_update_saves_nothing() {
    let run = TrainingRun::new(10);
    assert_eq!(run.next_step(true), TrainingStep::Finish(None));
}

#[test]
fn zero_update_run_finishes_at_once() {
    let run = TrainingRun::new(0);
    assert_eq!(run.next_step(false), TrainingStep::Finish(None));
}

#[test]
fn dashboard_progress_counts_completed_updates() {
    assert_eq!(dashboard_progress(0, 50), (1, 50));
    assert_eq!(dashboard_progress(49, 50), (50, 50));
    assert_eq!(dashboard_progress(3, 0), (4, 1));
    assert_eq!(dashboard_progress(usize::MAX, 7), (usize::MAX, 7));
}

#[test]
fn decimal_digits_are_appended() {
    let mut out = vec!['n', '='];
    push_decimal(&mut out, 0);
    assert_eq!(text(out.clone()), "n=0");
    push_decimal(&mut out, 1207);
    assert_eq!(text(out), "n=01207");
}

#[test]
fn zero_padding_fills_to_width_only() {
    assert_eq!(text(zero_padded_chars(42, 6)), "000042");
    assert_eq!(text(zero_padded_chars(0, 3)), "000");
    assert_eq!(text(zero_padded_chars(1234567, 6)), "1234567");
    assert_eq!(text(zero_padded_chars(5, 0)), "5");
}

#[test]
fn lists_render_like_debug_output() {
    assert_eq!(text(list_chars(&vec![512, 512, 512])), format!("{:?}", vec![512, 512, 512]));
    assert_eq!(text(list_chars(&vec![])), "[]");
    assert_eq!(text(list_chars(&vec![7])), "[7]");
}
