use dice_ball::dice::Dice;
use dice_ball::sim::{GameSim, Plan, Progression, SimTotals, Tally};

fn dice(a: u8, b: u8) -> Dice {
    Dice { dice1: a, dice2: b, total: a + b }
}

/// Plays the rolls in order, cycling, until the game is over.
fn play(rolls: &[(u8, u8)]) -> GameSim {
    let mut g = GameSim::new();
    let mut i = 0;
    loop {
        let (a, b) = rolls[i % rolls.len()];
        assert!(g.roll_fits_check(dice(a, b)));
        if g.roll(dice(a, b)) {
            return g;
        }
        i += 1;
    }
}

#[test]
fn new_game_bets_eight() {
    let g = GameSim::new();
    assert_eq!(g.hands, 100);
    assert_eq!(g.press, Progression { balance: 0, bet: 8, losses: 0, maxed: false });
    assert_eq!(g.take.bet, 8);
    assert_eq!(g.take_then_press.bet, 8);
    assert!(!g.finished);
}

#[test]
fn only_seven_outs() {
    let g = play(&[(3, 4)]);
    assert!(g.finished);
    assert_eq!(g.shooter_rolls, vec![1; 100]);
    assert_eq!(g.hands, 0);
    for v in [
        g.board_two_rolls,
        g.press_half_run,
        g.single_run,
        g.double_run,
        g.board_single_roll,
        g.run_single_press,
        g.hard_six_eight,
    ] {
        assert_eq!(v, -3000);
    }
    for p in [g.press, g.take, g.take_then_press] {
        assert_eq!(p, Progression { balance: -752, bet: 0, losses: 100, maxed: true });
    }
}

#[test]
fn four_roll_shooters() {
    let g = play(&[(2, 2), (5, 5), (1, 3), (3, 4)]);
    assert_eq!(g.shooter_rolls, vec![4; 25]);
    assert_eq!(g.board_two_rolls, 250);
    assert_eq!(g.press_half_run, -750);
    assert_eq!(g.single_run, -750);
    assert_eq!(g.double_run, -750);
    assert_eq!(g.board_single_roll, 125);
    assert_eq!(g.run_single_press, -750);
    assert_eq!(g.hard_six_eight, -750);
    assert_eq!(g.press, Progression { balance: -752, bet: 0, losses: 25, maxed: true });
}

#[test]
fn ten_roll_shooters() {
    let mut rolls = vec![(1, 2); 9];
    rolls.push((3, 4));
    let g = play(&rolls);
    assert_eq!(g.shooter_rolls, vec![10; 10]);
    assert_eq!(g.board_two_rolls, 100);
    assert_eq!(g.press_half_run, 750);
    assert_eq!(g.single_run, 300);
    assert_eq!(g.double_run, 600);
    assert_eq!(g.board_single_roll, 50);
    assert_eq!(g.run_single_press, 900);
    assert_eq!(g.hard_six_eight, -300);
    assert_eq!(g.press, Progression { balance: 160, bet: 8, losses: 0, maxed: false });
    assert_eq!(g.take.balance, 80);
    assert_eq!(g.take_then_press.balance, 80);
}

#[test]
fn six_roll_shooters_with_hard_ways() {
    let g = play(&[(3, 3), (4, 4), (1, 2), (2, 4), (5, 6), (3, 4)]);
    assert_eq!(g.shooter_rolls.len(), 17);
    assert_eq!(g.hands, -2);
    assert_eq!(g.board_two_rolls, 170);
    assert_eq!(g.press_half_run, -255);
    assert_eq!(g.single_run, 510);
    assert_eq!(g.double_run, 0);
    assert_eq!(g.board_single_roll, 85);
    assert_eq!(g.run_single_press, -510);
    assert_eq!(g.hard_six_eight, 2040);
    assert_eq!(g.press, Progression { balance: -752, bet: 0, losses: 17, maxed: true });
    assert_eq!(g.take, Progression { balance: 136, bet: 8, losses: 0, maxed: false });
    assert_eq!(g.take_then_press, Progression { balance: 136, bet: 8, losses: 0, maxed: false });
}

#[test]
fn take_then_press_loses_a_pressed_bet() {
    let mut rolls = vec![(3, 4); 3];
    rolls.extend(vec![(1, 2); 6]);
    rolls.push((3, 4));
    let g = play(&rolls);
    assert_eq!(g.shooter_rolls.len(), 40);
    assert_eq!(g.board_two_rolls, -800);
    assert_eq!(g.press_half_run, -1050);
    assert_eq!(g.single_run, -600);
    assert_eq!(g.double_run, -900);
    assert_eq!(g.board_single_roll, -850);
    assert_eq!(g.run_single_press, -1200);
    assert_eq!(g.hard_six_eight, -1200);
    assert_eq!(g.press, Progression { balance: -752, bet: 0, losses: 40, maxed: true });
    assert_eq!(g.take, Progression { balance: -160, bet: 16, losses: 0, maxed: false });
    assert_eq!(g.take_then_press, Progression { balance: -752, bet: 0, losses: 40, maxed: true });
}

#[test]
fn progression_start_and_settle() {
    let mut p = Progression { balance: 0, bet: 8, losses: 2, maxed: false };
    p.start_hand();
    assert_eq!(p.bet, 16);
    p.settle(Plan::Press, 9);
    assert_eq!(p, Progression { balance: 32, bet: 16, losses: 0, maxed: false });
    p.start_hand();
    assert_eq!(p.bet, 8);
    let mut q = Progression { balance: -501, bet: 64, losses: 4, maxed: false };
    q.start_hand();
    assert_eq!(q, Progression { balance: -501, bet: 0, losses: 4, maxed: true });
    q.settle(Plan::TakeThenPress, 2);
    assert_eq!(q.balance, -501);
    let mut r = Progression { balance: 0, bet: 16, losses: 1, maxed: false };
    r.settle(Plan::TakeThenPress, 6);
    assert_eq!(r, Progression { balance: -16, bet: 16, losses: 2, maxed: false });
    let mut r = Progression { balance: 0, bet: 16, losses: 1, maxed: false };
    r.settle(Plan::TakeThenPress, 12);
    assert_eq!(r, Progression { balance: 32, bet: 16, losses: 0, maxed: false });
    let mut r = Progression { balance: 0, bet: 8, losses: 1, maxed: false };
    r.settle(Plan::TakeThenPress, 6);
    assert_eq!(r, Progression { balance: 8, bet: 8, losses: 0, maxed: false });
}

#[test]
fn overflow_checks() {
    let p = Progression { balance: i64::MAX - 5, bet: 8, losses: 0, maxed: false };
    assert!(!p.settle_fits_check(Plan::Take, 5));
    assert!(p.settle_fits_check(Plan::Take, 1));
    let p = Progression { balance: 0, bet: i64::MAX / 2 + 1, losses: 2, maxed: false };
    assert!(!p.start_fits_check());
    assert!(!p.settle_fits_check(Plan::Press, 9));
    let mut g = GameSim::new();
    g.hard_six_eight = i64::MAX - 50;
    assert!(!g.roll_fits_check(dice(3, 3)));
    assert!(g.roll_fits_check(dice(1, 2)));
    let mut t = Tally::new();
    t.win_sum = i64::MAX;
    assert!(!t.record_fits_check(1));
    assert!(t.record_fits_check(-1));
}

#[test]
fn totals_count_wins_and_losses() {
    let mut totals = SimTotals::new();
    let a = play(&[(3, 4)]);
    let mut rolls = vec![(1, 2); 9];
    rolls.push((3, 4));
    let b = play(&rolls);
    for g in [&a, &b, &a] {
        assert!(totals.record_fits_check(g));
        totals.record_game(g);
    }
    assert_eq!(totals.press.returns, vec![-752, 160, -752]);
    assert_eq!(totals.press.wins, 1);
    assert_eq!(totals.press.win_sum, 160);
    assert_eq!(totals.press.loss_sum, -1504);
    assert_eq!(totals.press_maxed, 2);
    assert_eq!(totals.take_maxed, 2);
    assert_eq!(totals.take_then_press_maxed, 2);
    assert_eq!(totals.hard_six_eight.wins, 0);
    assert_eq!(totals.hard_six_eight.loss_sum, -6300);
    assert_eq!(totals.single_run.win_sum, 300);
}

#[test]
fn tally_zero_is_a_loss() {
    let mut t = Tally::new();
    t.record(0);
    t.record(5);
    assert_eq!(t.wins, 1);
    assert_eq!(t.win_sum, 5);
    assert_eq!(t.loss_sum, 0);
    assert_eq!(t.returns, vec![0, 5]);
}

#[test]
fn random_games_finish_within_types() {
    for _ in 0..200 {
        let g = GameSim::play().ok().expect("no counter limit in a real game");
        assert!(g.finished);
        assert!(g.hands <= 0);
        assert!(g.shooter_rolls.len() <= 100);
        assert_eq!(g.shooter_rolls.iter().map(|r| *r as i64).sum::<i64>(), 100 - g.hands as i64);
        for p in [g.press, g.take, g.take_then_press] {
            assert!(p.losses as usize <= g.shooter_rolls.len());
            assert!(p.balance >= -1558 && p.balance <= 1600);
        }
    }
}

#[test]
fn play_games_records_each_game() {
    let mut totals = SimTotals::new();
    assert!(totals.board_single_roll.returns.is_empty());
    assert!(totals.take_then_press.returns.is_empty());
    assert!(totals.play_games(50).is_ok());
    assert!(totals.play_games(25).is_ok());
    for t in [
        &totals.board_two_rolls,
        &totals.press_half_run,
        &totals.single_run,
        &totals.double_run,
        &totals.board_single_roll,
        &totals.run_single_press,
        &totals.hard_six_eight,
        &totals.press,
        &totals.take,
        &totals.take_then_press,
    ] {
        assert_eq!(t.returns.len(), 75);
        assert_eq!(t.wins as usize, t.returns.iter().filter(|r| **r > 0).count());
        assert_eq!(t.win_sum, t.returns.iter().filter(|r| **r > 0).sum::<i64>());
        assert_eq!(t.loss_sum, t.returns.iter().filter(|r| **r <= 0).sum::<i64>());
    }
    assert!(totals.press_maxed <= 75);
}

#[test]
fn counters_fit_check_sees_long_shooters() {
    let mut g = GameSim::new();
    assert!(g.counters_fit_check(dice(3, 3)));
    g.rounds = i32::MAX;
    assert!(!g.counters_fit_check(dice(1, 2)));
    let mut g = GameSim::new();
    g.hands = i32::MIN;
    assert!(!g.counters_fit_check(dice(1, 2)));
    let mut g = GameSim::new();
    g.hard_six_eight = i64::MAX - 50;
    assert!(!g.counters_fit_check(dice(4, 4)));
    assert!(g.counters_fit_check(dice(3, 4)));
}

#[test]
fn played_games_stay_within_bounds() {
    for _ in 0..300 {
        let g = GameSim::play().ok().expect("no counter limit in a real game");
        assert!(g.shooter_rolls.len() >= 1 && g.shooter_rolls.len() <= 100);
        for v in [g.board_two_rolls, g.press_half_run, g.single_run, g.double_run, g.board_single_roll, g.run_single_press] {
            assert!(-9000 <= v && v <= 9000);
        }
        let rolls: i64 = g.shooter_rolls.iter().map(|r| *r as i64).sum();
        assert!(rolls >= 100);
    }
}
