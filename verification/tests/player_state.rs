use splendor_core::{Card, Cost, GemType, InvalidCall, Player, Tokens};
use splendor_core::{MAX_RESERVED, NOBLE_POINTS};

fn tokens(onyx: i8, sapphire: i8, emerald: i8, ruby: i8, diamond: i8, gold: i8) -> Tokens {
    Tokens { onyx, sapphire, emerald, ruby, diamond, gold }
}

fn ruby_card(id: u8, points: u8) -> Card {
    Card {
        points,
        cost: Cost { onyx: 0, sapphire: 1, emerald: 0, ruby: 0, diamond: 1 },
        gem: GemType::Ruby,
        id,
    }
}

#[test]
fn new_player_holds_nothing() {
    let player = Player::new();
    assert_eq!(player.points(), 0);
    assert_eq!(player.noble_points(), 0);
    assert_eq!(*player.gems(), Tokens::empty());
    assert_eq!(*player.developments(), Tokens::empty());
    assert_eq!(player.num_reserved(), 0);
    assert!(player.all_reserved().is_empty());
    assert!(player.blind_reserved().is_empty());
    assert!(player.public_reserved().is_empty());
}

#[test]
fn reserving_counts_one_more() {
    let mut player = Player::new();
    for (n, id) in [11u8, 22, 33].into_iter().enumerate() {
        let before = player.num_reserved();
        assert_eq!(before, n);
        player.reserve_card(id);
        assert_eq!(player.num_reserved(), before + 1);
        assert!(player.has_reserved_card(id));
    }
    assert_eq!(player.num_reserved(), MAX_RESERVED);
    assert_eq!(player.all_reserved(), vec![11, 22, 33]);
}

#[test]
fn fourth_reservation_is_refused() {
    let mut player = Player::new();
    assert_eq!(player.try_reserve_card(1), Ok(()));
    assert_eq!(player.try_blind_reserve_card(2), Ok(()));
    assert_eq!(player.try_reserve_card(3), Ok(()));
    assert_eq!(player.try_reserve_card(4), Err(InvalidCall::ReserveFull { reserved: 3 }));
    assert_eq!(player.try_blind_reserve_card(4), Err(InvalidCall::ReserveFull { reserved: 3 }));
    assert_eq!(player.all_reserved(), vec![1, 2, 3]);
    assert_eq!(player.blind_reserved(), vec![2]);
}

#[test]
fn a_card_is_reserved_once() {
    let mut player = Player::new();
    player.blind_reserve_card(9);
    assert_eq!(player.try_reserve_card(9), Err(InvalidCall::AlreadyReserved { card_id: 9 }));
    assert_eq!(
        player.try_blind_reserve_card(9),
        Err(InvalidCall::AlreadyReserved { card_id: 9 })
    );
    assert_eq!(player.num_reserved(), 1);
}

#[test]
fn blind_reservations_are_not_public() {
    let mut player = Player::new();
    player.reserve_card(5);
    player.blind_reserve_card(6);
    player.reserve_card(7);
    assert_eq!(player.all_reserved(), vec![5, 6, 7]);
    assert_eq!(player.blind_reserved(), vec![6]);
    assert_eq!(player.public_reserved(), vec![5, 7]);
    assert!(player.has_reserved_card(6));
    assert!(!player.has_reserved_card(8));
}

#[test]
fn purchase_applies_payment_development_and_points() {
    let mut player = Player::new();
    player.add_gems(tokens(0, 2, 0, 0, 1, 1));
    player.reserve_card(30);
    player.blind_reserve_card(31);
    let card = ruby_card(31, 2);
    let payment = tokens(0, 1, 0, 0, 1, 0);
    player.purchase_card(&card, &payment);
    assert_eq!(*player.gems(), tokens(0, 1, 0, 0, 0, 1));
    assert_eq!(*player.developments(), tokens(0, 0, 0, 1, 0, 0));
    assert_eq!(player.points(), 2);
    assert_eq!(player.noble_points(), 0);
    assert_eq!(player.all_reserved(), vec![30]);
    assert!(player.blind_reserved().is_empty());
}

#[test]
fn purchase_of_an_unreserved_card_leaves_the_reserve() {
    let mut player = Player::new();
    player.add_gems(tokens(0, 1, 0, 0, 1, 0));
    player.reserve_card(1);
    player.blind_reserve_card(2);
    player.purchase_card(&ruby_card(50, 1), &tokens(0, 1, 0, 0, 1, 0));
    assert_eq!(player.all_reserved(), vec![1, 2]);
    assert_eq!(player.blind_reserved(), vec![2]);
    assert_eq!(player.points(), 1);
    // and once more, with nothing to pay
    player.purchase_card(&ruby_card(50, 1), &Tokens::empty());
    assert_eq!(player.all_reserved(), vec![1, 2]);
    assert_eq!(player.blind_reserved(), vec![2]);
    assert_eq!(*player.developments(), tokens(0, 0, 0, 2, 0, 0));
}

#[test]
fn purchase_faults_are_named() {
    let mut player = Player::new();
    player.add_gems(tokens(0, 1, 0, 0, 0, 0));
    let card = ruby_card(3, 1);
    let negative = tokens(0, -1, 0, 0, 0, 0);
    assert_eq!(
        player.try_purchase_card(&card, &negative),
        Err(InvalidCall::MalformedPayment { payment: negative })
    );
    let too_much = tokens(0, 1, 0, 0, 1, 0);
    assert_eq!(
        player.try_purchase_card(&card, &too_much),
        Err(InvalidCall::IllegalTokens { held: tokens(0, 1, 0, 0, 0, 0), change: too_much })
    );
    assert_eq!(*player.gems(), tokens(0, 1, 0, 0, 0, 0));
    assert_eq!(player.points(), 0);
    assert_eq!(player.try_purchase_card(&card, &tokens(0, 1, 0, 0, 0, 0)), Ok(()));
    assert_eq!(*player.gems(), Tokens::empty());
    assert_eq!(player.points(), 1);
}

#[test]
fn points_that_do_not_fit_are_refused() {
    let mut player = Player::new();
    player.add_points(250);
    assert_eq!(
        player.try_add_points(6),
        Err(InvalidCall::PointsOverflow { points: 250, added: 6 })
    );
    assert_eq!(player.try_add_points(5), Ok(()));
    assert_eq!(player.points(), 255);
    assert_eq!(
        player.try_add_noble_points(),
        Err(InvalidCall::PointsOverflow { points: 255, added: NOBLE_POINTS })
    );
    assert_eq!(
        player.try_purchase_card(&ruby_card(1, 1), &Tokens::empty()),
        Err(InvalidCall::PointsOverflow { points: 255, added: 1 })
    );
    assert_eq!(player.noble_points(), 0);
}

#[test]
fn developments_that_do_not_fit_are_refused() {
    let mut player = Player::new();
    for _ in 0..127 {
        assert_eq!(player.try_add_development(GemType::Ruby), Ok(()));
    }
    assert_eq!(
        player.try_add_development(GemType::Ruby),
        Err(InvalidCall::DevelopmentOverflow { color: GemType::Ruby })
    );
    assert_eq!(
        player.try_purchase_card(&ruby_card(1, 0), &Tokens::empty()),
        Err(InvalidCall::DevelopmentOverflow { color: GemType::Ruby })
    );
    assert_eq!(player.developments().ruby, 127);
}

#[test]
fn tokens_stay_legal() {
    let mut player = Player::new();
    player.add_gems(tokens(1, 0, 0, 0, 0, 2));
    let more = tokens(0, 0, 0, 0, 0, 3);
    assert_eq!(
        player.try_remove_gems(more),
        Err(InvalidCall::IllegalTokens { held: tokens(1, 0, 0, 0, 0, 2), change: more })
    );
    let debt = tokens(-2, 0, 0, 0, 0, 0);
    assert_eq!(
        player.try_add_gems(debt),
        Err(InvalidCall::IllegalTokens { held: tokens(1, 0, 0, 0, 0, 2), change: debt })
    );
    let flood = tokens(127, 0, 0, 0, 0, 0);
    assert_eq!(
        player.try_add_gems(flood),
        Err(InvalidCall::IllegalTokens { held: tokens(1, 0, 0, 0, 0, 2), change: flood })
    );
    assert_eq!(player.try_remove_gems(tokens(1, 0, 0, 0, 0, 1)), Ok(()));
    assert_eq!(player.try_add_gems(tokens(0, 4, 0, 0, 0, 0)), Ok(()));
    assert_eq!(*player.gems(), tokens(0, 4, 0, 0, 0, 1));
    player.remove_gems(tokens(0, 4, 0, 0, 0, 1));
    assert_eq!(*player.gems(), Tokens::empty());
}

#[test]
fn noble_points_count_twice() {
    let mut player = Player::new();
    player.add_points(4);
    player.add_noble_points();
    assert_eq!(player.points(), 7);
    assert_eq!(player.noble_points(), 3);
    assert_eq!(player.try_add_noble_points(), Ok(()));
    assert_eq!(player.points(), 10);
    assert_eq!(player.noble_points(), 6);
}

#[test]
fn public_info_counts_the_reserve() {
    let mut player = Player::new();
    player.add_gems(tokens(1, 0, 2, 0, 0, 1));
    player.add_development(GemType::Sapphire);
    player.add_development(GemType::Gold);
    player.add_points(3);
    player.blind_reserve_card(70);
    player.reserve_card(71);
    let info = player.to_public();
    assert_eq!(info.points, 3);
    assert_eq!(info.num_reserved, 2);
    assert_eq!(info.developments, Cost { onyx: 0, sapphire: 1, emerald: 0, ruby: 0, diamond: 0 });
    assert_eq!(info.gems, tokens(1, 0, 2, 0, 0, 1));
    assert_eq!(player.to_public(), info);
}

#[test]
fn parts_are_checked() {
    let gems = tokens(1, 0, 0, 0, 0, 0);
    let none = Tokens::empty();
    let player = Player::from_parts(5, 3, gems, none, vec![1, 2], vec![2]).unwrap();
    assert_eq!(player.points(), 5);
    assert_eq!(player.noble_points(), 3);
    assert_eq!(player.public_reserved(), vec![1]);
    assert_eq!(*player.gems(), gems);
    let copy = player.clone();
    assert_eq!(copy.all_reserved(), vec![1, 2]);
    assert_eq!(copy.blind_reserved(), vec![2]);

    assert!(Player::from_parts(2, 3, gems, none, vec![], vec![]).is_none());
    assert!(Player::from_parts(0, 0, tokens(0, 0, -1, 0, 0, 0), none, vec![], vec![]).is_none());
    assert!(Player::from_parts(0, 0, gems, tokens(0, 0, 0, 0, 0, -1), vec![], vec![]).is_none());
    assert!(Player::from_parts(0, 0, gems, none, vec![1, 2, 3, 4], vec![]).is_none());
    assert!(Player::from_parts(0, 0, gems, none, vec![1, 2, 1], vec![]).is_none());
    assert!(Player::from_parts(0, 0, gems, none, vec![1, 2], vec![3]).is_none());
    assert!(Player::from_parts(0, 0, gems, none, vec![1, 2], vec![2, 2]).is_none());
}

#[test]
fn payment_options_follow_the_discount() {
    let mut player = Player::new();
    player.add_gems(tokens(0, 0, 0, 0, 1, 1));
    let card = ruby_card(8, 0);
    // one sapphire short, one wildcard
    assert_eq!(player.payment_options_for(&card), Some(vec![tokens(0, 0, 0, 0, 1, 1)]));
    player.add_development(GemType::Sapphire);
    let mut options = player.payment_options_for(&card).unwrap();
    options.sort_by_key(|payment| payment.gold);
    assert_eq!(options, vec![tokens(0, 0, 0, 0, 1, 0), tokens(0, 0, 0, 0, 0, 1)]);
    player.add_development(GemType::Diamond);
    assert_eq!(player.payment_options_for(&card), Some(vec![Tokens::empty()]));
}
