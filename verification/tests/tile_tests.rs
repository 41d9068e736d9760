use mahjong::tile::{Dragon, Rank, Suit, Tile, Wind};

fn all_tiles() -> Vec<Tile> {
    (0..34).map(Tile::from_index).collect()
}

#[test]
fn honor_classification() {
    let tiles = all_tiles();
    assert_eq!(tiles.len(), 34);
    for (k, t) in tiles.iter().enumerate() {
        if k < 27 {
            assert!(!t.is_honor(), "numbered tile {:?} must not be an honor", t);
            assert!(matches!(t, Tile::Number(_, _)));
        } else {
            assert!(t.is_honor(), "tile {:?} must be an honor", t);
        }
    }
    assert!(!Tile::Number(Suit::Characters, Rank::Five).is_honor());
    assert!(Tile::Wind(Wind::East).is_honor());
    assert!(Tile::Dragon(Dragon::Red).is_honor());
}

#[test]
fn index_codes_are_distinct_and_canonical() {
    let tiles = all_tiles();
    for (k, t) in tiles.iter().enumerate() {
        assert_eq!(t.index_code() as usize, k);
    }
}

#[test]
fn canonical_enumeration_order() {
    assert_eq!(
        Tile::from_index(0),
        Tile::Number(Suit::Characters, Rank::One)
    );
    assert_eq!(
        Tile::from_index(8),
        Tile::Number(Suit::Characters, Rank::Nine)
    );
    assert_eq!(Tile::from_index(9), Tile::Number(Suit::Dots, Rank::One));
    assert_eq!(Tile::from_index(26), Tile::Number(Suit::Bamboo, Rank::Nine));
    assert_eq!(Tile::from_index(27), Tile::Wind(Wind::East));
    assert_eq!(Tile::from_index(30), Tile::Wind(Wind::North));
    assert_eq!(Tile::from_index(31), Tile::Dragon(Dragon::White));
    assert_eq!(Tile::from_index(33), Tile::Dragon(Dragon::Red));
}

#[test]
fn ordering_trichotomy_and_transitivity() {
    let tiles = all_tiles();
    for a in &tiles {
        for b in &tiles {
            let lt = a.index_code() < b.index_code();
            let eq = a == b;
            let gt = a.index_code() > b.index_code();
            // exactly one of the three holds
            assert_eq!(
                1,
                [lt, eq, gt].iter().filter(|&&x| x).count(),
                "trichotomy broken for {:?} / {:?}",
                a,
                b
            );
        }
    }
    for a in &tiles {
        for b in &tiles {
            for c in &tiles {
                if a.index_code() <= b.index_code() && b.index_code() <= c.index_code() {
                    assert!(a.index_code() <= c.index_code());
                }
            }
        }
    }
}

#[test]
fn structural_equality() {
    let a = Tile::Number(Suit::Dots, Rank::Three);
    let b = Tile::Number(Suit::Dots, Rank::Three);
    let c = Tile::Number(Suit::Dots, Rank::Four);
    assert_eq!(a, b);
    assert_ne!(a, c);
    assert_ne!(Tile::Wind(Wind::West), Tile::Wind(Wind::South));
    assert_eq!(Tile::Dragon(Dragon::Green), Tile::Dragon(Dragon::Green));
}
