use simultaneous_kelly::ascent::{Ascent, Next, Phase};

#[test]
fn zero_budget_stops_at_once_with_start() {
    let run = Ascent::new(0, "start");
    assert_eq!(run.next(), Next::Stop);
    assert_eq!(run.finish(), "start");
}

#[test]
fn clipped_candidate_within_budget_goes_straight_to_judging() {
    let mut run = Ascent::new(5, 0u32);
    assert_eq!(run.next(), Next::Step);
    run.clipped(false);
    assert_eq!(run.phase, Phase::Projected);
    assert_eq!(run.next(), Next::Judge);
}

#[test]
fn sum_over_one_is_rescaled_before_judging() {
    let mut run = Ascent::new(5, 0u32);
    assert_eq!(run.next(), Next::Step);
    run.clipped(true);
    assert_eq!(run.phase, Phase::Clipped);
    assert_eq!(run.next(), Next::Rescale);
    run.rescaled();
    assert_eq!(run.next(), Next::Judge);
    run.offer(4, true);
    assert_eq!(run.phase, Phase::Ready);
    assert_eq!(run.next(), Next::Step);
    assert_eq!(run.best, 4);
}

#[test]
fn improving_candidates_are_accepted() {
    let mut run = Ascent::new(5, 0u32);
    run.clipped(false);
    run.offer(1, true);
    assert_eq!(run.next(), Next::Step);
    run.clipped(true);
    run.rescaled();
    run.offer(2, true);
    assert_eq!(run.iterations, 2);
    assert!(!run.halted);
    assert_eq!(run.best, 2);
}

#[test]
fn first_rejection_halts_and_keeps_last_accepted() {
    let mut run = Ascent::new(10, 0u32);
    run.clipped(false);
    run.offer(7, true);
    run.clipped(false);
    run.offer(9, false);
    assert!(run.halted);
    assert_eq!(run.next(), Next::Stop);
    assert_eq!(run.iterations, 2);
    assert_eq!(run.finish(), 7);
}

#[test]
fn rejection_on_first_step_returns_start() {
    let mut run = Ascent::new(3, (0i64, vec![0u8, 0u8]));
    run.clipped(true);
    run.rescaled();
    run.offer((5, vec![1, 2]), false);
    assert_eq!(run.next(), Next::Stop);
    assert_eq!(run.finish(), (0, vec![0, 0]));
}

#[test]
fn budget_bounds_the_number_of_iterations() {
    let mut run = Ascent::new(3, 0u32);
    let mut actions = Vec::new();
    let mut steps = 0u32;
    loop {
        let action = run.next();
        actions.push(action);
        match action {
            Next::Step => run.clipped(steps % 2 == 0),
            Next::Rescale => run.rescaled(),
            Next::Judge => {
                steps += 1;
                run.offer(steps, true);
            }
            Next::Stop => break,
        }
    }
    assert_eq!(
        actions,
        vec![
            Next::Step,
            Next::Rescale,
            Next::Judge,
            Next::Step,
            Next::Judge,
            Next::Step,
            Next::Rescale,
            Next::Judge,
            Next::Stop,
        ]
    );
    assert_eq!(run.iterations, 3);
    assert!(!run.halted);
    assert_eq!(run.finish(), 3);
}

#[test]
fn accepted_values_rise_strictly_under_strict_comparison() {
    let candidates = [3i64, 5, 5, 9];
    let mut run = Ascent::new(10, 0i64);
    let mut accepted = vec![run.best];
    for &c in candidates.iter() {
        if run.next() == Next::Stop {
            break;
        }
        run.clipped(false);
        let before = run.best;
        run.offer(c, c > before);
        assert!(run.best == before || run.best > before);
        if run.best != before {
            accepted.push(run.best);
        }
    }
    assert_eq!(accepted, vec![0, 3, 5]);
    assert!(run.halted);
    assert_eq!(run.finish(), 5);
}
