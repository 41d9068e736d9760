//! The tile model: the closed, finite universe of tile identities, their
//! structural equality, the honor classification, and a total order.
//!
//! There are 34 distinct identities: 27 numbered tiles (3 suits times 9
//! ranks), 4 winds and 3 dragons. Every identity is assigned a distinct
//! index in `0..34`; the total order on tiles is the order of these indices,
//! which places numbered tiles (by suit, then rank) before winds before
//! dragons, matching the declaration order below.

use vstd::prelude::*;

verus! {

/// The three suits of numbered tiles, in declaration (and ordering) order.
#[derive(Clone, Copy, Debug, PartialEq, Eq, Structural)]
pub enum Suit {
    Characters,
    Dots,
    Bamboo,
}

/// The nine ranks of numbered tiles, ordered by numeric value.
#[derive(Clone, Copy, Debug, PartialEq, Eq, Structural)]
pub enum Rank {
    One,
    Two,
    Three,
    Four,
    Five,
    Six,
    Seven,
    Eight,
    Nine,
}

/// The four winds, in declaration (and ordering) order.
#[derive(Clone, Copy, Debug, PartialEq, Eq, Structural)]
pub enum Wind {
    East,
    South,
    West,
    North,
}

/// The three dragons, in declaration (and ordering) order.
#[derive(Clone, Copy, Debug, PartialEq, Eq, Structural)]
pub enum Dragon {
    White,
    Green,
    Red,
}

/// One tile identity. Equality is structural; two tiles with equal fields
/// are interchangeable. Exactly 34 values of this type exist.
#[derive(Clone, Copy, Debug, PartialEq, Eq, Structural)]
pub enum Tile {
    Number(Suit, Rank),
    Wind(Wind),
    Dragon(Dragon),
}

pub open spec fn suit_index(s: Suit) -> int {
    match s {
        Suit::Characters => 0,
        Suit::Dots => 1,
        Suit::Bamboo => 2,
    }
}

pub open spec fn rank_index(r: Rank) -> int {
    match r {
        Rank::One => 0,
        Rank::Two => 1,
        Rank::Three => 2,
        Rank::Four => 3,
        Rank::Five => 4,
        Rank::Six => 5,
        Rank::Seven => 6,
        Rank::Eight => 7,
        Rank::Nine => 8,
    }
}

pub open spec fn wind_index(w: Wind) -> int {
    match w {
        Wind::East => 0,
        Wind::South => 1,
        Wind::West => 2,
        Wind::North => 3,
    }
}

pub open spec fn dragon_index(d: Dragon) -> int {
    match d {
        Dragon::White => 0,
        Dragon::Green => 1,
        Dragon::Red => 2,
    }
}

pub open spec fn suit_of_index(k: int) -> Suit {
    if k == 0 {
        Suit::Characters
    } else if k == 1 {
        Suit::Dots
    } else {
        Suit::Bamboo
    }
}

pub open spec fn rank_of_index(k: int) -> Rank {
    if k == 0 {
        Rank::One
    } else if k == 1 {
        Rank::Two
    } else if k == 2 {
        Rank::Three
    } else if k == 3 {
        Rank::Four
    } else if k == 4 {
        Rank::Five
    } else if k == 5 {
        Rank::Six
    } else if k == 6 {
        Rank::Seven
    } else if k == 7 {
        Rank::Eight
    } else {
        Rank::Nine
    }
}

pub open spec fn wind_of_index(k: int) -> Wind {
    if k == 0 {
        Wind::East
    } else if k == 1 {
        Wind::South
    } else if k == 2 {
        Wind::West
    } else {
        Wind::North
    }
}

pub open spec fn dragon_of_index(k: int) -> Dragon {
    if k == 0 {
        Dragon::White
    } else if k == 1 {
        Dragon::Green
    } else {
        Dragon::Red
    }
}

/// The index of a tile identity in the canonical enumeration of all 34
/// identities: numbered tiles first (suit-major, then rank), then winds,
/// then dragons. This injection into `0..34` defines the total tile order.
pub open spec fn tile_index(t: Tile) -> int {
    match t {
        Tile::Number(s, r) => suit_index(s) * 9 + rank_index(r),
        Tile::Wind(w) => 27 + wind_index(w),
        Tile::Dragon(d) => 31 + dragon_index(d),
    }
}

/// The tile identity at index `k` of the canonical enumeration, the inverse
/// of `tile_index` on `0..34`.
pub open spec fn tile_of_index(k: int) -> Tile {
    if k < 27 {
        Tile::Number(suit_of_index(k / 9), rank_of_index(k % 9))
    } else if k < 31 {
        Tile::Wind(wind_of_index(k - 27))
    } else {
        Tile::Dragon(dragon_of_index(k - 31))
    }
}

/// `tile_index` and `tile_of_index` are mutually inverse, so the canonical
/// enumeration visits every tile identity exactly once.
pub proof fn lemma_tile_index_inverse(t: Tile, k: int)
    ensures
        0 <= k < 34 ==> tile_index(tile_of_index(k)) == k,
        tile_of_index(tile_index(t)) == t,
{
    if 0 <= k < 27 {
        assert(0 <= k / 9 < 3 && 0 <= k % 9 < 9 && 9 * (k / 9) + k % 9 == k);
    }
    if t is Number {
        let s = t->Number_0;
        let r = t->Number_1;
        let i = suit_index(s) * 9 + rank_index(r);
        assert(i / 9 == suit_index(s) && i % 9 == rank_index(r));
    }
}

/// The tile total order: `a` precedes or equals `b`.
pub open spec fn tile_le(a: Tile, b: Tile) -> bool {
    tile_index(a) <= tile_index(b)
}

/// The tile order as a relation value, in the form vstd's ordering lemmas
/// take.
pub open spec fn tile_order() -> spec_fn(Tile, Tile) -> bool {
    |a: Tile, b: Tile| tile_le(a, b)
}

pub proof fn lemma_tile_index_bounds(t: Tile)
    ensures
        0 <= tile_index(t) < 34,
{
}

/// Distinct tiles have distinct indices, so index order is a total order on
/// tiles themselves.
pub proof fn lemma_tile_index_injective(a: Tile, b: Tile)
    ensures
        tile_index(a) == tile_index(b) ==> a == b,
{
}

/// Totality of the tile order: for any two tiles, exactly one of
/// `a` strictly before `b`, `a == b`, `b` strictly before `a` holds.
pub proof fn lemma_tile_order_trichotomy(a: Tile, b: Tile)
    ensures
        (tile_le(a, b) && a != b) || (a == b) || (tile_le(b, a) && b != a),
        (tile_le(a, b) && a != b) ==> !(a == b) && !(tile_le(b, a) && b != a),
        a == b ==> !(tile_le(a, b) && a != b) && !(tile_le(b, a) && b != a),
{
    lemma_tile_index_injective(a, b);
}

/// Transitivity of the tile order across any three tiles.
pub proof fn lemma_tile_order_transitive(a: Tile, b: Tile, c: Tile)
    ensures
        tile_le(a, b) && tile_le(b, c) ==> tile_le(a, c),
{
}

/// The tile order is a total ordering in vstd's sense (reflexive,
/// antisymmetric, transitive, strongly connected).
pub proof fn lemma_tile_order_total()
    ensures
        vstd::relations::total_ordering(tile_order()),
{
    assert forall|a: Tile, b: Tile| #[trigger] tile_order()(a, b) && tile_order()(b, a) implies a == b by {
        lemma_tile_index_injective(a, b);
    }
}

impl Tile {
    /// Whether this tile is an honor: a wind or a dragon, never a numbered
    /// tile.
    pub open spec fn spec_is_honor(self) -> bool {
        self is Wind || self is Dragon
    }

    /// Returns true exactly for wind and dragon tiles, false for all 27
    /// numbered identities.
    pub fn is_honor(&self) -> (r: bool)
        ensures
            r == self.spec_is_honor(),
    {
        matches!(self, Tile::Dragon(_)) || matches!(self, Tile::Wind(_))
    }

    /// The runtime form of `tile_index`, for comparing and sorting tiles.
    pub fn index_code(&self) -> (k: u8)
        ensures
            k as int == tile_index(*self),
    {
        match self {
            Tile::Number(s, r) => {
                let si: u8 = match s {
                    Suit::Characters => 0,
                    Suit::Dots => 1,
                    Suit::Bamboo => 2,
                };
                let ri: u8 = match r {
                    Rank::One => 0,
                    Rank::Two => 1,
                    Rank::Three => 2,
                    Rank::Four => 3,
                    Rank::Five => 4,
                    Rank::Six => 5,
                    Rank::Seven => 6,
                    Rank::Eight => 7,
                    Rank::Nine => 8,
                };
                si * 9 + ri
            },
            Tile::Wind(w) => {
                match w {
                    Wind::East => 27,
                    Wind::South => 28,
                    Wind::West => 29,
                    Wind::North => 30,
                }
            },
            Tile::Dragon(d) => {
                match d {
                    Dragon::White => 31,
                    Dragon::Green => 32,
                    Dragon::Red => 33,
                }
            },
        }
    }

    /// Builds the tile at index `k` of the canonical enumeration: the
    /// runtime form of `tile_of_index`.
    pub fn from_index(k: usize) -> (t: Tile)
        requires
            k < 34,
        ensures
            t == tile_of_index(k as int),
    {
        if k < 27 {
            let sk: usize = k / 9;
            let rk: usize = k % 9;
            let s: Suit = if sk == 0 {
                Suit::Characters
            } else if sk == 1 {
                Suit::Dots
            } else {
                Suit::Bamboo
            };
            let r: Rank = if rk == 0 {
                Rank::One
            } else if rk == 1 {
                Rank::Two
            } else if rk == 2 {
                Rank::Three
            } else if rk == 3 {
                Rank::Four
            } else if rk == 4 {
                Rank::Five
            } else if rk == 5 {
                Rank::Six
            } else if rk == 6 {
                Rank::Seven
            } else if rk == 7 {
                Rank::Eight
            } else {
                Rank::Nine
            };
            Tile::Number(s, r)
        } else if k < 31 {
            let wk: usize = k - 27;
            let w: Wind = if wk == 0 {
                Wind::East
            } else if wk == 1 {
                Wind::South
            } else if wk == 2 {
                Wind::West
            } else {
                Wind::North
            };
            Tile::Wind(w)
        } else {
            let dk: usize = k - 31;
            let d: Dragon = if dk == 0 {
                Dragon::White
            } else if dk == 1 {
                Dragon::Green
            } else {
                Dragon::Red
            };
            Tile::Dragon(d)
        }
    }
}

} // verus!
