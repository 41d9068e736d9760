//! The wall: the supply of all 136 physical tiles for one session. It is
//! built in a canonical order (4 copies of each of the 34 identities, in
//! enumeration order), optionally shuffled, and drained from the drawing end
//! one tile at a time.

use vstd::prelude::*;
use crate::tile::Tile;
use crate::tile::tile_index;
use crate::tile::tile_of_index;
use crate::tile::lemma_tile_index_bounds;
use crate::tile::lemma_tile_index_inverse;

verus! {

/// The tile at position `i` of a freshly built wall: the 4 copies of each
/// identity lie consecutively, identities in canonical enumeration order.
pub open spec fn wall_tile_at(i: int) -> Tile {
    tile_of_index(i / 4)
}

/// The full canonical wall: all 136 tiles in generation order.
pub open spec fn full_wall_seq() -> Seq<Tile> {
    Seq::new(136, |i: int| wall_tile_at(i))
}

/// The wall. Its view is the sequence of tiles it still holds; the drawing
/// end is the end of the sequence.
pub struct Wall {
    tiles: Vec<Tile>,
}

impl View for Wall {
    type V = Seq<Tile>;

    closed spec fn view(&self) -> Seq<Tile> {
        self.tiles@
    }
}

/// Relies on rand's `SliceRandom::shuffle` (with `rand::thread_rng` as the
/// generator): a Fisher-Yates shuffle that permutes the slice in place by
/// swapping elements, so whatever permutation the generator picks, the
/// multiset of tiles is unchanged.
#[verifier::external_body]
fn shuffle_tiles(tiles: &mut Vec<Tile>)
    ensures
        final(tiles)@.to_multiset() == old(tiles)@.to_multiset(),
{
    let mut rng = rand::thread_rng();
    rand::seq::SliceRandom::shuffle(tiles.as_mut_slice(), &mut rng);
}

impl Wall {
    /// Builds a full wall: exactly the canonical 136-tile sequence.
    pub fn new() -> (w: Wall)
        ensures
            w@ == full_wall_seq(),
            w@.len() == 136,
    {
        let mut wall = Wall { tiles: Vec::new() };
        wall.initialize();
        proof {
            assert(Seq::<Tile>::empty() + full_wall_seq() =~= full_wall_seq());
        }
        wall
    }

    /// The number of tiles still in the wall.
    pub fn size(&self) -> (n: usize)
        ensures
            n == self@.len(),
    {
        self.tiles.len()
    }

    /// Appends the full canonical tile population: 4 copies of each of the
    /// 34 identities, numbered tiles first (suit-major, then rank), then
    /// winds, then dragons. Called once, on an empty wall, by `new`.
    pub fn initialize(&mut self)
        ensures
            final(self)@ == old(self)@ + full_wall_seq(),
    {
        let mut i: usize = 0;
        while i < 136
            invariant
                i <= 136,
                self.tiles@ == old(self).tiles@ + full_wall_seq().take(i as int),
            decreases 136 - i,
        {
            let t = Tile::from_index(i / 4);
            self.tiles.push(t);
            proof {
                assert(full_wall_seq().take(i + 1) =~= full_wall_seq().take(i as int).push(
                    wall_tile_at(i as int),
                ));
                assert(self.tiles@ =~= old(self).tiles@ + full_wall_seq().take(i + 1));
            }
            i = i + 1;
        }
        proof {
            assert(full_wall_seq().take(136) =~= full_wall_seq());
        }
    }

    /// Randomly permutes the remaining tiles in place. The size and the
    /// multiset of tile identities are unchanged; only the order may differ.
    pub fn shuffle(&mut self)
        ensures
            final(self)@.to_multiset() == old(self)@.to_multiset(),
            final(self)@.len() == old(self)@.len(),
    {
        proof {
            old(self).tiles@.to_multiset_ensures();
        }
        shuffle_tiles(&mut self.tiles);
        proof {
            self.tiles@.to_multiset_ensures();
        }
    }

    /// Removes and returns the tile at the drawing end (the end of the
    /// sequence). On an empty wall it returns nothing and changes nothing:
    /// exhaustion is a normal outcome, not an error.
    pub fn pop(&mut self) -> (t: Option<Tile>)
        ensures
            old(self)@.len() == 0 ==> t is None && final(self)@ == old(self)@,
            old(self)@.len() > 0 ==> t == Some(old(self)@.last()) && final(self)@ == old(
                self,
            )@.drop_last(),
    {
        self.tiles.pop()
    }

    /// Draws 13 tiles, one `pop` at a time, first-popped tile first. If the
    /// wall holds at least 13 tiles this succeeds, removes exactly 13 and
    /// returns them all; with fewer than 13 it returns nothing, and the
    /// tiles popped before exhaustion are not put back, so the wall is left
    /// empty.
    pub fn draw_hand(&mut self) -> (h: Option<Vec<Tile>>)
        ensures
            old(self)@.len() >= 13 ==> (h matches Some(v) && v@.len() == 13 && final(self)@ == old(
                self,
            )@.take(old(self)@.len() - 13) && (forall|j: int|
                0 <= j < 13 ==> v@[j] == old(self)@[old(self)@.len() - 1 - j])),
            old(self)@.len() < 13 ==> h is None && final(self)@.len() == 0,
    {
        let hand_size: usize = 13;
        let mut hand: Vec<Tile> = Vec::new();
        let mut i: usize = 0;
        while i < hand_size
            invariant
                hand_size == 13,
                i <= 13,
                i <= old(self)@.len(),
                self.tiles@ == old(self)@.take(old(self)@.len() - i),
                hand@.len() == i,
                forall|j: int| 0 <= j < i ==> hand@[j] == old(self)@[old(self)@.len() - 1 - j],
            decreases hand_size - i,
        {
            match self.pop() {
                Some(tile) => {
                    proof {
                        assert(old(self)@.take(old(self)@.len() - i).drop_last() =~= old(
                            self,
                        )@.take(old(self)@.len() - (i + 1)));
                    }
                    hand.push(tile);
                },
                None => {
                    return None;
                },
            }
            i = i + 1;
        }
        proof {
            assert(old(self)@.take(old(self)@.len() - 13) =~= self.tiles@);
        }
        Some(hand)
    }
}

/// The wall's composition invariant: the freshly built wall holds exactly 4
/// copies of every tile identity (and of nothing else), 136 tiles in all.
pub proof fn lemma_wall_composition(t: Tile)
    ensures
        full_wall_seq().to_multiset().count(t) == 4,
        full_wall_seq().len() == 136,
{
    lemma_tile_index_bounds(t);
    lemma_wall_prefix_count(t, 136);
    assert(full_wall_seq().take(136) =~= full_wall_seq());
}

/// Counts `t` in the first `n` tiles of the canonical wall: the copies of
/// `t` occupy exactly the positions `4 * tile_index(t)` up to but not
/// including `4 * tile_index(t) + 4`.
proof fn lemma_wall_prefix_count(t: Tile, n: int)
    requires
        0 <= n <= 136,
    ensures
        full_wall_seq().take(n).to_multiset().count(t) == if n <= 4 * tile_index(t) {
            0int
        } else if n >= 4 * tile_index(t) + 4 {
            4int
        } else {
            n - 4 * tile_index(t)
        },
    decreases n,
{
    broadcast use vstd::seq_lib::group_to_multiset_ensures;
    broadcast use vstd::multiset::group_multiset_axioms;

    let k = tile_index(t);
    lemma_tile_index_bounds(t);
    if n == 0 {
        let s = full_wall_seq().take(0);
        s.to_multiset_ensures();
        assert(s.to_multiset().len() == 0);
        assert(s.to_multiset().count(t) == 0) by {
            if s.to_multiset().count(t) > 0 {
                assert(s.to_multiset().contains(t));
            }
        }
    } else {
        lemma_wall_prefix_count(t, n - 1);
        let prev = full_wall_seq().take(n - 1);
        let here = wall_tile_at(n - 1);
        assert(full_wall_seq().take(n) =~= prev.push(here));
        assert(prev.push(here).to_multiset() =~= prev.to_multiset().insert(here));
        lemma_tile_index_inverse(t, (n - 1) / 4);
        assert(here == t <==> (n - 1) / 4 == k) by {
            if (n - 1) / 4 == k {
                assert(here == tile_of_index(k) && tile_of_index(k) == t);
            }
            if here == t {
                assert(tile_index(here) == (n - 1) / 4);
            }
        }
        assert((n - 1) / 4 == k <==> 4 * k <= n - 1 < 4 * k + 4);
    }
}

} // verus!
