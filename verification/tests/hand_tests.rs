use mahjong::hand::Hand;
use mahjong::tile::{Dragon, Rank, Suit, Tile, Wind};
use mahjong::wall::Wall;

#[test]
fn new_hand_keeps_the_given_tiles() {
    let tiles = vec![
        Tile::Wind(Wind::North),
        Tile::Number(Suit::Dots, Rank::One),
        Tile::Wind(Wind::North),
    ];
    let hand = Hand::new(tiles.clone());
    assert_eq!(hand.tiles(), &tiles);
}

#[test]
fn add_card_appends() {
    let mut hand = Hand::new(vec![Tile::Dragon(Dragon::White)]);
    hand.add_card(Tile::Number(Suit::Bamboo, Rank::Nine));
    assert_eq!(
        hand.tiles(),
        &vec![
            Tile::Dragon(Dragon::White),
            Tile::Number(Suit::Bamboo, Rank::Nine)
        ]
    );
}

#[test]
fn sort_orders_by_the_tile_order() {
    let mut hand = Hand::new(vec![
        Tile::Dragon(Dragon::Red),
        Tile::Number(Suit::Bamboo, Rank::One),
        Tile::Wind(Wind::East),
        Tile::Number(Suit::Characters, Rank::Nine),
        Tile::Number(Suit::Characters, Rank::One),
        Tile::Wind(Wind::East),
    ]);
    hand.sort();
    assert_eq!(
        hand.tiles(),
        &vec![
            Tile::Number(Suit::Characters, Rank::One),
            Tile::Number(Suit::Characters, Rank::Nine),
            Tile::Number(Suit::Bamboo, Rank::One),
            Tile::Wind(Wind::East),
            Tile::Wind(Wind::East),
            Tile::Dragon(Dragon::Red),
        ]
    );
}

#[test]
fn sort_is_idempotent() {
    let mut hand = Hand::new(vec![
        Tile::Wind(Wind::West),
        Tile::Number(Suit::Dots, Rank::Five),
        Tile::Dragon(Dragon::Green),
        Tile::Number(Suit::Dots, Rank::Five),
        Tile::Number(Suit::Characters, Rank::Two),
    ]);
    hand.sort();
    let once = hand.tiles().clone();
    hand.sort();
    let twice = hand.tiles().clone();
    assert_eq!(once, twice);
}

#[test]
fn sort_of_empty_and_singleton_hands() {
    let mut empty = Hand::new(Vec::new());
    empty.sort();
    assert!(empty.tiles().is_empty());

    let mut one = Hand::new(vec![Tile::Wind(Wind::South)]);
    one.sort();
    assert_eq!(one.tiles(), &vec![Tile::Wind(Wind::South)]);
}

#[test]
fn scoring_placeholders() {
    let hand = Hand::new(vec![Tile::Number(Suit::Dots, Rank::One)]);
    assert!(hand.is_yakuman());
    assert_eq!(hand.score(), 8000);

    let mut trips = Hand::new(vec![
        Tile::Dragon(Dragon::Red),
        Tile::Dragon(Dragon::Red),
        Tile::Number(Suit::Characters, Rank::One),
        Tile::Dragon(Dragon::Red),
    ]);
    assert_eq!(trips.score_old(), 0);
    // score_old sorts the hand as a side effect
    assert_eq!(
        trips.tiles(),
        &vec![
            Tile::Number(Suit::Characters, Rank::One),
            Tile::Dragon(Dragon::Red),
            Tile::Dragon(Dragon::Red),
            Tile::Dragon(Dragon::Red),
        ]
    );
}

#[test]
fn deal_sort_and_check_the_whole_flow() {
    // initialize, shuffle, deal 13, sort: the end-to-end session
    let mut wall = Wall::new();
    assert_eq!(wall.size(), 136);
    wall.shuffle();
    assert_eq!(wall.size(), 136);
    let drawn = wall.draw_hand().expect("a full wall must deal 13 tiles");
    assert_eq!(drawn.len(), 13);
    assert_eq!(wall.size(), 123);
    let mut hand = Hand::new(drawn);
    hand.sort();
    let tiles = hand.tiles();
    assert_eq!(tiles.len(), 13);
    for w in tiles.windows(2) {
        assert!(w[0].index_code() <= w[1].index_code());
    }
    // every drawn tile is one of the 34 identities of the original wall
    for t in tiles {
        assert!(t.index_code() < 34);
    }
}
