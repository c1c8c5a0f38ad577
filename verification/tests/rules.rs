use dice_ball::dice::Dice;
use dice_ball::player::Player;
use dice_ball::rules::{game_loop, hand, roll_fits_check, Gamestate};
use dice_ball::table::{Spot, Table};

const SPOTS: [Spot; 15] = [
    Spot::Hard2,
    Spot::Hard4,
    Spot::Hard6,
    Spot::Hard8,
    Spot::Hard10,
    Spot::Hard12,
    Spot::TwoFive,
    Spot::ThreeFour,
    Spot::Six,
    Spot::Eight,
    Spot::TenEleven,
    Spot::NineTwelve,
    Spot::Run,
    Spot::Seven,
    Spot::GrandSlam,
];

fn dice(a: u8, b: u8) -> Dice {
    Dice { dice1: a, dice2: b, total: a + b }
}

/// Asserts that `t` has `v` on every spot but the ones listed.
fn assert_rest(t: &Table, v: u32, except: &[(Spot, u32)]) {
    for s in SPOTS {
        let expected = except.iter().find(|(e, _)| *e == s).map(|(_, m)| *m).unwrap_or(v);
        assert_eq!(t.get(s), expected, "spot {:?}", s);
    }
}

#[test]
fn seven_out_loses_everything_but_the_seven() {
    let (t, pass) = hand(10, dice(3, 4));
    assert_eq!(pass, 0);
    assert_rest(&t, 0, &[(Spot::Seven, 5)]);
    let (t, pass) = hand(0, dice(6, 1));
    assert_eq!(pass, 0);
    assert_rest(&t, 0, &[(Spot::Seven, 5)]);
}

#[test]
fn hard_two_pays_hard_and_number() {
    let (t, pass) = hand(0, dice(1, 1));
    assert_eq!(pass, 1);
    assert_rest(&t, 1, &[(Spot::Hard2, 6), (Spot::TwoFive, 2), (Spot::Seven, 0)]);
}

#[test]
fn hard_four_completes_a_run() {
    let (t, pass) = hand(3, dice(2, 2));
    assert_eq!(pass, 4);
    assert_rest(&t, 1, &[(Spot::Hard4, 6), (Spot::ThreeFour, 2), (Spot::Seven, 0), (Spot::Run, 2)]);
}

#[test]
fn soft_numbers_pay_their_spot() {
    let cases = [
        (1, 1, Spot::TwoFive),
        (1, 2, Spot::ThreeFour),
        (1, 3, Spot::ThreeFour),
        (2, 3, Spot::TwoFive),
        (2, 4, Spot::Six),
        (2, 6, Spot::Eight),
        (3, 6, Spot::NineTwelve),
        (4, 6, Spot::TenEleven),
        (5, 6, Spot::TenEleven),
        (6, 6, Spot::NineTwelve),
    ];
    for (a, b, spot) in cases {
        let (t, pass) = hand(1, dice(a, b));
        assert_eq!(pass, 2);
        assert_eq!(t.get(spot), 2);
        assert_eq!(t.get(Spot::Seven), 0);
        assert_eq!(t.get(Spot::Run), 1);
    }
}

#[test]
fn grand_slam_pays_on_fourth_fifth_and_sixth_run() {
    let (t, pass) = hand(15, dice(2, 3));
    assert_eq!(pass, 16);
    assert_rest(&t, 1, &[(Spot::TwoFive, 2), (Spot::Run, 2), (Spot::Seven, 0), (Spot::GrandSlam, 5)]);
    let (t, pass) = hand(19, dice(6, 6));
    assert_eq!(pass, 20);
    assert_rest(
        &t,
        1,
        &[(Spot::Hard12, 6), (Spot::NineTwelve, 2), (Spot::Run, 2), (Spot::Seven, 0), (Spot::GrandSlam, 15)],
    );
    let (t, pass) = hand(23, dice(1, 1));
    assert_eq!(pass, 0);
    assert_rest(
        &t,
        1,
        &[(Spot::Hard2, 6), (Spot::TwoFive, 2), (Spot::Run, 2), (Spot::Seven, 0), (Spot::GrandSlam, 35)],
    );
}

#[test]
fn runs_before_the_fourth_pay_only_the_run() {
    let (t, pass) = hand(7, dice(4, 5));
    assert_eq!(pass, 8);
    assert_eq!(t.get(Spot::Run), 2);
    assert_eq!(t.get(Spot::GrandSlam), 1);
    let (t, pass) = hand(11, dice(4, 5));
    assert_eq!(pass, 12);
    assert_eq!(t.get(Spot::Run), 2);
    assert_eq!(t.get(Spot::GrandSlam), 1);
}

#[test]
fn impossible_roll_changes_nothing() {
    let (t, pass) = hand(5, Dice { dice1: 2, dice2: 2, total: 5 });
    assert_eq!(pass, 5);
    assert_rest(&t, 1, &[]);
    let (t, pass) = hand(8, Dice { dice1: 6, dice2: 7, total: 13 });
    assert_eq!(pass, 8);
    assert_rest(&t, 1, &[(Spot::Run, 2)]);
}

#[test]
fn every_valid_roll_sevens_out_or_hits() {
    for a in 1..=6u8 {
        for b in 1..=6u8 {
            let (t, pass) = hand(2, dice(a, b));
            if a != b && a + b == 7 {
                assert_eq!(pass, 0);
            } else {
                assert_eq!(pass, 3);
                assert_eq!(t.get(Spot::Seven), 0);
            }
        }
    }
}

#[test]
fn hits_never_reach_twenty_four() {
    let mut round = 0u8;
    for i in 0..200 {
        let (_, pass) = hand(round, dice(1 + (i % 3) as u8, 4));
        assert!(pass < 24);
        round = pass;
    }
}

#[test]
fn solve_multiplies_each_spot() {
    let mut bets = Table::uniform(10);
    bets.set(Spot::Seven, 3);
    let (t, _) = hand(0, dice(3, 4));
    bets.solve(&t);
    assert_rest(&bets, 0, &[(Spot::Seven, 15)]);
    let mut bets = Table::uniform(4);
    let (t, _) = hand(0, dice(3, 3));
    bets.solve(&t);
    assert_rest(&bets, 4, &[(Spot::Hard6, 24), (Spot::Six, 8), (Spot::Seven, 0)]);
}

#[test]
fn game_loop_pays_bets_and_counts() {
    let mut p = Player::new("A".to_string(), 310);
    let mut g = Gamestate::setup();
    p.bet_hard6(10, true);
    p.bet_seven(5, true);
    p.bet_run(20, true);
    assert!(roll_fits_check(dice(3, 3), &p, &g));
    game_loop(dice(3, 3), &mut p, &mut g);
    assert_eq!(p.bet.hard6, 60);
    assert_eq!(p.bet.seven, 0);
    assert_eq!(p.bet.run, 20);
    assert_eq!(p.stack, 275);
    assert_eq!(g.hits, 1);
    assert_eq!(g.runs, 0);
    assert_eq!(g.rounds_since_7, 1);
    for _ in 0..3 {
        game_loop(dice(1, 2), &mut p, &mut g);
    }
    assert_eq!(g.hits, 4);
    assert_eq!(g.runs, 1);
    assert_eq!(p.bet.run, 40);
    assert_eq!(g.rounds_since_7, 4);
    assert_eq!(g.hit_marker(), 0);
    game_loop(dice(2, 5), &mut p, &mut g);
    assert_eq!(g.hits, 0);
    assert_eq!(g.runs, 0);
    assert_eq!(g.rounds_since_7, 0);
    assert_eq!(p.bet.hard6, 0);
    assert_eq!(p.bet.run, 0);
    assert_eq!(p.stack, 275);
}

#[test]
fn roll_fits_check_spots_overflow() {
    let mut p = Player::new("A".to_string(), u32::MAX);
    let g = Gamestate::setup();
    p.bet_grand_slam(u32::MAX / 2, true);
    assert!(roll_fits_check(dice(1, 1), &p, &g));
    let mut p = Player::new("B".to_string(), u32::MAX);
    p.bet_hard2(u32::MAX / 5, true);
    assert!(!roll_fits_check(dice(1, 1), &p, &g));
    assert!(roll_fits_check(dice(1, 2), &p, &g));
    let g = Gamestate { rounds_since_7: u32::MAX, hits: 0, runs: 0 };
    let p = Player::new("C".to_string(), 0);
    assert!(!roll_fits_check(dice(1, 2), &p, &g));
    assert!(roll_fits_check(dice(3, 4), &p, &g));
    let g = Gamestate { rounds_since_7: 0, hits: 255, runs: 0 };
    assert!(!roll_fits_check(dice(1, 2), &p, &g));
    assert!(roll_fits_check(dice(3, 4), &p, &g));
}

#[test]
fn setup_starts_clear() {
    let g = Gamestate::setup();
    assert_eq!(g.rounds_since_7, 0);
    assert_eq!(g.hits, 0);
    assert_eq!(g.runs, 0);
}

#[test]
fn dice_roll_gives_real_dice() {
    let mut seen = [false; 13];
    for _ in 0..2000 {
        let d = Dice::roll();
        assert!((1..=6).contains(&d.dice1));
        assert!((1..=6).contains(&d.dice2));
        assert_eq!(d.total, d.dice1 + d.dice2);
        seen[d.total as usize] = true;
    }
    assert!(seen[2..=12].iter().all(|s| *s));
}

#[test]
fn seven_out_leaves_stack_and_seven_payout() {
    let mut p = Player::new("A".to_string(), 300);
    let mut g = Gamestate { rounds_since_7: 3, hits: 3, runs: 0 };
    p.bet_seven(5, true);
    p.bet_eight(40, true);
    p.bet_grand_slam(15, true);
    game_loop(dice(5, 2), &mut p, &mut g);
    assert_rest(&p.bet, 0, &[(Spot::Seven, 25)]);
    assert_eq!(p.stack, 240);
}

#[test]
fn draws_name_the_faces() {
    for i in 0..6usize {
        for j in 0..6usize {
            let d = Dice::from_draws(i, j);
            assert_eq!(d.dice1 as usize, i + 1);
            assert_eq!(d.dice2 as usize, j + 1);
            assert_eq!(d.total as usize, i + j + 2);
        }
    }
}
