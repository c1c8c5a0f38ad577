use dice_ball::chips::{chip_stack, ChipStack};
use dice_ball::player::Player;
use dice_ball::rules::Gamestate;
use dice_ball::table::Spot;

fn all_bet_fns() -> Vec<(Spot, fn(&mut Player, u32, bool))> {
    vec![
        (Spot::Run, Player::bet_run),
        (Spot::GrandSlam, Player::bet_grand_slam),
        (Spot::Seven, Player::bet_seven),
        (Spot::Hard2, Player::bet_hard2),
        (Spot::Hard4, Player::bet_hard4),
        (Spot::Hard6, Player::bet_hard6),
        (Spot::Hard10, Player::bet_hard10),
        (Spot::Hard12, Player::bet_hard12),
        (Spot::Six, Player::bet_six),
        (Spot::Eight, Player::bet_eight),
        (Spot::TwoFive, Player::bet_two5),
        (Spot::ThreeFour, Player::bet_three4),
        (Spot::TenEleven, Player::bet_ten11),
        (Spot::NineTwelve, Player::bet_nine12),
    ]
}

fn total_chips(p: &Player) -> u64 {
    let spots = [
        Spot::Hard2,
        Spot::Hard4,
        Spot::Hard6,
        Spot::Hard8,
        Spot::Hard10,
        Spot::Hard12,
        Spot::TwoFive,
        Spot::ThreeFour,
        Spot::Six,
        Spot::Eight,
        Spot::TenEleven,
        Spot::NineTwelve,
        Spot::Run,
        Spot::Seven,
        Spot::GrandSlam,
    ];
    p.stack as u64 + spots.iter().map(|s| p.bet.get(*s) as u64).sum::<u64>()
}

#[test]
fn new_player_starts_with_stack_only() {
    let p = Player::new("Test".to_string(), 310);
    assert_eq!(p.stack, 310);
    assert_eq!(p.bet_size, 0);
    assert_eq!(p.bet_amount, "0");
    assert_eq!(p.name, "Test");
    assert!(p.bet_direction);
    assert_eq!(total_chips(&p), 310);
}

#[test]
fn each_bet_moves_chips_and_back() {
    for (spot, bet) in all_bet_fns() {
        let mut p = Player::new("A".to_string(), 100);
        bet(&mut p, 30, true);
        assert_eq!(p.stack, 70);
        assert_eq!(p.bet.get(spot), 30);
        assert_eq!(total_chips(&p), 100);
        bet(&mut p, 30, false);
        assert_eq!(p.stack, 100);
        assert_eq!(p.bet.get(spot), 0);
    }
}

#[test]
fn bets_beyond_the_stack_are_refused() {
    for (spot, bet) in all_bet_fns() {
        let mut p = Player::new("A".to_string(), 20);
        bet(&mut p, 21, true);
        assert_eq!(p.stack, 20);
        assert_eq!(p.bet.get(spot), 0);
        bet(&mut p, 20, true);
        assert_eq!(p.stack, 0);
        bet(&mut p, 21, false);
        assert_eq!(p.stack, 0);
        assert_eq!(p.bet.get(spot), 20);
    }
}

#[test]
fn hard8_moves_without_checking() {
    let mut p = Player::new("A".to_string(), 50);
    p.bet_hard8(50, true);
    assert_eq!(p.stack, 0);
    assert_eq!(p.bet.hard8, 50);
    p.bet_hard8(20, false);
    assert_eq!(p.stack, 20);
    assert_eq!(p.bet.hard8, 30);
    assert!(!p.place_fits_check(Spot::Hard8, 31, false));
    assert!(!p.place_fits_check(Spot::Hard8, 21, true));
    assert!(p.place_fits_check(Spot::Hard8, 30, false));
    assert!(p.place_fits_check(Spot::Seven, 31, false));
}

#[test]
fn place_fits_check_sees_overflow() {
    let mut p = Player::new("A".to_string(), u32::MAX);
    p.bet_six(u32::MAX, true);
    p.stack = 10;
    assert!(!p.place_fits_check(Spot::Six, 1, true));
    assert!(p.place_fits_check(Spot::Six, 11, true));
    assert!(!p.move_fits_check(Spot::Six, 1, true));
    p.stack = u32::MAX;
    assert!(!p.place_fits_check(Spot::Six, 1, false));
}

#[test]
fn clicks_respect_closed_spots() {
    let mut p = Player::new("A".to_string(), 100);
    p.bet_size = 10;
    let open = Gamestate::setup();
    p.click_spot(&open, Spot::GrandSlam);
    assert_eq!(p.bet.grand_slam, 10);
    let mid = Gamestate { rounds_since_7: 2, hits: 2, runs: 0 };
    assert!(!mid.is_spot_open(Spot::GrandSlam, true));
    assert!(!mid.is_spot_open(Spot::Run, true));
    p.click_spot(&mid, Spot::GrandSlam);
    p.click_spot(&mid, Spot::Run);
    assert_eq!(p.bet.grand_slam, 10);
    assert_eq!(p.bet.run, 0);
    assert_eq!(p.stack, 90);
    p.toggle_direction();
    assert!(!p.bet_direction);
    p.click_spot(&mid, Spot::GrandSlam);
    assert_eq!(p.bet.grand_slam, 0);
    assert_eq!(p.stack, 100);
    let run_start = Gamestate { rounds_since_7: 5, hits: 4, runs: 1 };
    assert!(run_start.is_spot_open(Spot::Run, true));
    assert!(!run_start.is_spot_open(Spot::GrandSlam, true));
    p.toggle_direction();
    p.click_spot(&run_start, Spot::Run);
    p.click_spot(&run_start, Spot::Hard8);
    assert_eq!(p.bet.run, 10);
    assert_eq!(p.bet.hard8, 10);
    assert_eq!(p.stack, 80);
}

#[test]
fn bet_amount_text_sets_the_bet_size() {
    let mut p = Player::new("A".to_string(), 100);
    let cases = [
        ("25", 25),
        ("+7", 7),
        ("007", 7),
        ("4294967295", u32::MAX),
        ("4294967296", 0),
        ("abc", 0),
        ("", 0),
        ("+", 0),
        ("-1", 0),
        (" 5", 0),
        ("5 ", 0),
        ("1_000", 0),
    ];
    for (text, size) in cases {
        p.bet_size = 99;
        p.bet_amount = text.to_string();
        p.amount_edited();
        assert_eq!(p.bet_size, size, "text {:?}", text);
        assert_eq!(p.bet_amount, text);
    }
}

#[test]
fn bet_amount_field_shows_the_size_again() {
    let mut p = Player::new("A".to_string(), 100);
    for size in [0u32, 7, 120, 4000000000, u32::MAX] {
        p.bet_size = size;
        p.bet_amount = "junk".to_string();
        p.amount_left();
        assert_eq!(p.bet_amount, size.to_string());
        p.bet_size = 1;
        p.amount_edited();
        assert_eq!(p.bet_size, size);
    }
}

#[test]
fn hit_marker_counts_rolls_round_four() {
    let g = Gamestate { rounds_since_7: 6, hits: 0, runs: 0 };
    assert_eq!(g.hit_marker(), 2);
}

#[test]
fn chips_split_into_hundreds_and_rest() {
    assert_eq!(chip_stack(0), ChipStack::Empty);
    assert_eq!(chip_stack(55), ChipStack::Red(55));
    assert_eq!(chip_stack(99), ChipStack::Red(99));
    assert_eq!(chip_stack(100), ChipStack::GreenRed { hundreds: 100, rest: 0 });
    assert_eq!(chip_stack(125), ChipStack::GreenRed { hundreds: 100, rest: 25 });
    assert_eq!(chip_stack(1099), ChipStack::GreenRed { hundreds: 1000, rest: 99 });
}
