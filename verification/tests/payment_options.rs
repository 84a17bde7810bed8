use std::collections::HashSet;

use splendor_core::{Card, Cost, GemType, Player, Tokens};

/// An onyx card without points that costs two emerald and one ruby.
fn card_4() -> Card {
    Card {
        points: 0,
        cost: Cost { onyx: 0, sapphire: 0, emerald: 2, ruby: 1, diamond: 0 },
        gem: GemType::Onyx,
        id: 4,
    }
}

/// An onyx card without points that costs three emerald.
fn card_6() -> Card {
    Card {
        points: 0,
        cost: Cost { onyx: 0, sapphire: 0, emerald: 3, ruby: 0, diamond: 0 },
        gem: GemType::Onyx,
        id: 6,
    }
}

/// A sapphire card without points that costs two emerald and two onyx.
fn card_13() -> Card {
    Card {
        points: 0,
        cost: Cost { onyx: 2, sapphire: 0, emerald: 2, ruby: 0, diamond: 0 },
        gem: GemType::Sapphire,
        id: 13,
    }
}

fn only(payment: Vec<Tokens>) -> Tokens {
    *payment.first().unwrap()
}

#[test]
fn test_cannot_afford_1_wild() {
    let mut player = Player::new();
    player.add_gems(Tokens::one(GemType::Ruby));
    player.add_gems(Tokens::one(GemType::Gold));
    player.add_gems(Tokens::one(GemType::Onyx));

    let card = card_4();
    let payment = player.payment_options_for(&card);
    assert_eq!(payment, None);
}

#[test]
fn test_cannot_afford_0_wild() {
    let mut player = Player::new();
    player.add_gems(Tokens::one(GemType::Ruby));
    player.add_gems(Tokens::one(GemType::Emerald));

    let card = card_4();
    let payment = player.payment_options_for(&card);
    assert_eq!(payment, None);
}

#[test]
fn test_payment_specific_0_wild_discount_exact() {
    let mut player = Player::new();
    player.add_development(GemType::Ruby);
    player.add_development(GemType::Emerald);
    player.add_development(GemType::Emerald);

    let card = card_4();
    let payment = player.payment_options_for(&card).unwrap();
    assert_eq!(payment.len(), 1);
    assert_eq!(
        only(payment),
        Tokens { ruby: 0, emerald: 0, sapphire: 0, diamond: 0, onyx: 0, gold: 0 }
    );
}

#[test]
fn test_payment_specific_0_wild_discount_less() {
    let mut player = Player::new();
    player.add_development(GemType::Ruby);
    player.add_gems(Tokens::one(GemType::Emerald));
    player.add_gems(Tokens::one(GemType::Emerald));

    let card = card_4();
    let payment = player.payment_options_for(&card).unwrap();
    assert_eq!(payment.len(), 1);
    assert_eq!(
        only(payment),
        Tokens { ruby: 0, emerald: 2, sapphire: 0, diamond: 0, onyx: 0, gold: 0 }
    );
}

#[test]
fn test_payment_specific_1_wild_discount_less() {
    let mut player = Player::new();
    player.add_gems(Tokens::one(GemType::Onyx));
    player.add_development(GemType::Ruby);
    player.add_gems(Tokens::one(GemType::Gold));
    player.add_gems(Tokens::one(GemType::Emerald));

    let card = card_4();
    let payment = player.payment_options_for(&card).unwrap();
    assert_eq!(payment.len(), 1, "payment not unique: {:?}", payment);
    assert_eq!(
        only(payment),
        Tokens { ruby: 0, emerald: 1, sapphire: 0, diamond: 0, onyx: 0, gold: 1 }
    );
}

#[test]
fn test_payment_ambiguous_1_wild() {
    let mut player = Player::new();
    player.add_gems(Tokens::one(GemType::Ruby));
    player.add_gems(Tokens::one(GemType::Onyx));
    player.add_gems(Tokens::one(GemType::Gold));
    player.add_gems(Tokens::one(GemType::Emerald));
    player.add_gems(Tokens::one(GemType::Emerald));

    let card = card_4();
    let payment = player.payment_options_for(&card).unwrap();
    assert_eq!(payment.len(), 3);

    let set = payment.into_iter().collect::<HashSet<_>>();
    let target = vec![
        Tokens { ruby: 1, emerald: 1, sapphire: 0, diamond: 0, onyx: 0, gold: 1 },
        Tokens { ruby: 0, emerald: 2, sapphire: 0, diamond: 0, onyx: 0, gold: 1 },
        Tokens { ruby: 1, emerald: 2, sapphire: 0, diamond: 0, onyx: 0, gold: 0 },
    ];
    let target = target.into_iter().collect::<HashSet<_>>();
    assert_eq!(set, target);
}

#[test]
fn test_payment_specific_2_wild_discount_more() {
    let mut player = Player::new();
    player.add_gems(Tokens::one(GemType::Ruby));
    player.add_gems(Tokens::one(GemType::Ruby));
    player.add_gems(Tokens::one(GemType::Onyx));
    player.add_gems(Tokens::one(GemType::Onyx));
    player.add_gems(Tokens::one(GemType::Gold));
    player.add_gems(Tokens::one(GemType::Gold));
    player.add_gems(Tokens::one(GemType::Emerald));

    player.add_development(GemType::Ruby);
    player.add_development(GemType::Emerald);
    player.add_development(GemType::Emerald);
    player.add_development(GemType::Emerald);
    player.add_development(GemType::Emerald);

    let card = card_6();
    let payment = player.payment_options_for(&card).unwrap();
    assert_eq!(payment.len(), 1);
    assert_eq!(
        only(payment),
        Tokens { ruby: 0, emerald: 0, sapphire: 0, diamond: 0, onyx: 0, gold: 0 }
    )
}

#[test]
fn test_payment_specific_2_wild() {
    let mut player = Player::new();
    player.add_gems(Tokens::one(GemType::Ruby));
    player.add_gems(Tokens::one(GemType::Ruby));
    player.add_gems(Tokens::one(GemType::Onyx));
    player.add_gems(Tokens::one(GemType::Onyx));
    player.add_gems(Tokens::one(GemType::Gold));
    player.add_gems(Tokens::one(GemType::Gold));
    player.add_gems(Tokens::one(GemType::Emerald));

    let card = card_6();
    let payment = player.payment_options_for(&card).unwrap();
    assert_eq!(payment.len(), 1);
    assert_eq!(
        only(payment),
        Tokens { ruby: 0, emerald: 1, sapphire: 0, diamond: 0, onyx: 0, gold: 2 }
    )
}

#[test]
fn test_payment_ambiguous_3_wild() {
    let mut player = Player::new();
    player.add_gems(Tokens::one(GemType::Emerald));
    player.add_gems(Tokens::one(GemType::Emerald));
    player.add_gems(Tokens::one(GemType::Onyx));
    player.add_gems(Tokens::one(GemType::Gold));
    player.add_gems(Tokens::one(GemType::Gold));
    player.add_gems(Tokens::one(GemType::Gold));

    let card = card_13();

    let payment = player.payment_options_for(&card).unwrap();

    //             = 0 ways to pay with 0 wilds
    // ee.o        = 1 way to pay with 1 wild
    // .e.o | ee.. = 2 ways to pay with 2 wilds
    // .e.. | ..o. = 2 ways to pay with 3 wilds

    assert_eq!(payment.len(), 5);
}
