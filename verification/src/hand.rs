//! A player's hand: an ordered collection of tiles, populated from a deal,
//! extended one tile at a time, and sortable in place by the tile total
//! order. Hand evaluation (shanten, tenpai, yaku) is a separate concern that
//! consumes the hand's tile sequence; the placeholder scoring entry points
//! are kept with contracts that pin down exactly what they do today.

use vstd::prelude::*;
use vstd::relations::sorted_by;
use crate::tile::Tile;
use crate::tile::tile_le;
use crate::tile::tile_order;
use crate::tile::lemma_tile_order_total;

verus! {

/// A hand of tiles. Its view is the sequence of tiles it holds, in their
/// current order.
pub struct Hand {
    tiles: Vec<Tile>,
    tenpai: bool,
    shanten: usize,
}

impl View for Hand {
    type V = Seq<Tile>;

    closed spec fn view(&self) -> Seq<Tile> {
        self.tiles@
    }
}

impl Hand {
    /// Takes ownership of the given tiles as the hand's initial content; no
    /// count or legality check is made.
    pub fn new(initial_tiles: Vec<Tile>) -> (h: Hand)
        ensures
            h@ == initial_tiles@,
    {
        Hand { tiles: initial_tiles, tenpai: false, shanten: 0 }
    }

    /// The tiles currently in the hand, in their current order.
    pub fn tiles(&self) -> (r: &Vec<Tile>)
        ensures
            r@ == self@,
    {
        &self.tiles
    }

    /// Appends one tile to the hand.
    pub fn add_card(&mut self, tile: Tile)
        ensures
            final(self)@ == old(self)@.push(tile),
    {
        self.tiles.push(tile);
    }

    /// Sorts the hand in place by the tile total order: afterwards the
    /// tiles stand in non-decreasing index order, and the multiset of tiles
    /// is exactly what it was before.
    pub fn sort(&mut self)
        ensures
            final(self)@.to_multiset() == old(self)@.to_multiset(),
            final(self)@.len() == old(self)@.len(),
            sorted_by(final(self)@, tile_order()),
    {
        broadcast use vstd::seq_lib::group_to_multiset_ensures;

        let n = self.tiles.len();
        let mut i: usize = 1;
        while i < n
            invariant
                n == self.tiles@.len(),
                self.tiles@.to_multiset() == old(self)@.to_multiset(),
                forall|a: int, b: int|
                    0 <= a < b < i ==> #[trigger] tile_le(self.tiles@[a], self.tiles@[b]),
            decreases n - i,
        {
            let mut j: usize = i;
            while j > 0 && self.tiles[j - 1].index_code() > self.tiles[j].index_code()
                invariant
                    j <= i < n == self.tiles@.len(),
                    self.tiles@.to_multiset() == old(self)@.to_multiset(),
                    forall|a: int, b: int|
                        0 <= a < b <= i && b != j ==> #[trigger] tile_le(
                            self.tiles@[a],
                            self.tiles@[b],
                        ),
                    forall|b: int| j < b <= i ==> #[trigger] tile_le(self.tiles@[j as int], self.tiles@[b]),
                decreases j,
            {
                let lo = self.tiles[j - 1];
                let hi = self.tiles[j];
                let ghost before = self.tiles@;
                self.tiles[j - 1] = hi;
                self.tiles[j] = lo;
                proof {
                    broadcast use vstd::multiset::group_multiset_axioms;
                    broadcast use vstd::multiset::group_multiset_properties;

                    assert(self.tiles@ =~= before.update(j - 1, hi).update(j as int, lo));
                    vstd::seq_lib::to_multiset_update(before, j - 1, hi);
                    vstd::seq_lib::to_multiset_update(before.update(j - 1, hi), j as int, lo);
                    assert(before.update(j - 1, hi)[j as int] == hi);
                    let m = before.to_multiset();
                    assert(m.count(lo) > 0 && m.count(hi) > 0) by {
                        vstd::seq_lib::to_multiset_contains(before, lo);
                        vstd::seq_lib::to_multiset_contains(before, hi);
                        assert(before.contains(lo) && before.contains(hi));
                    }
                    assert forall|x: Tile|
                        m.insert(hi).remove(lo).insert(lo).remove(hi).count(x)
                            == m.count(x) by {}
                    assert(self.tiles@.to_multiset() =~= before.to_multiset());
                }
                j = j - 1;
            }
            proof {
                assert forall|a: int, b: int| 0 <= a < b <= i implies #[trigger] tile_le(
                    self.tiles@[a],
                    self.tiles@[b],
                ) by {
                    if b == j && j > 0 {
                        assert(tile_le(self.tiles@[j - 1], self.tiles@[j as int]));
                        if a < j - 1 {
                            assert(tile_le(self.tiles@[a], self.tiles@[j - 1]));
                        }
                    }
                }
            }
            i = i + 1;
        }
    }

    /// The hand-evaluation placeholder: it currently deems every hand a
    /// yakuman, unconditionally.
    pub fn is_yakuman(&self) -> (r: bool)
        ensures
            r == true,
    {
        true
    }

    /// The scoring placeholder: with `is_yakuman` always true, every hand
    /// scores the flat yakuman value of 8000.
    pub fn score(&self) -> (s: i32)
        ensures
            s == 8000,
    {
        if self.is_yakuman() {
            return 8000;
        }
        0
    }

    /// The abandoned earlier scoring pass: it sorts the hand, scans it for
    /// triplets of equal tiles, and then discards the counts, always
    /// returning 0. It needs at least 2 tiles (its scan window underflows
    /// below that) and a hand small enough for its counters.
    pub fn score_old(&mut self) -> (s: i32)
        requires
            2 <= old(self)@.len() <= 0x7fff_ffff,
        ensures
            s == 0,
            final(self)@.to_multiset() == old(self)@.to_multiset(),
            final(self)@.len() == old(self)@.len(),
            sorted_by(final(self)@, tile_order()),
    {
        let jun_count: i32 = 0;
        let mut kou_count: i32 = 0;
        let mut yaku_count: i32 = 0;

        self.sort();

        let n = self.tiles.len();
        let mut i: usize = 0;
        while i < n - 2
            invariant
                2 <= n <= 0x7fff_ffff,
                n == self.tiles@.len(),
                i <= n - 2,
                0 <= kou_count <= i,
                0 <= yaku_count <= kou_count,
            decreases n - 2 - i,
        {
            let tile1 = self.tiles[i];
            let tile2 = self.tiles[i + 1];
            let tile3 = self.tiles[i + 2];

            if tile1 == tile2 && tile2 == tile3 {
                kou_count = kou_count + 1;

                if matches!(tile1, Tile::Dragon(_)) {
                    yaku_count = yaku_count + 1;
                }
            }
            i = i + 1;
        }

        if kou_count == 4 || jun_count == 4 {
            yaku_count = yaku_count + 1;
        }

        0
    }
}

/// Sorting is deterministic and idempotent: two sequences that are both
/// sorted by the tile order and hold the same multiset of tiles are the same
/// sequence. In particular, sorting an already sorted hand leaves it
/// unchanged, and sorting twice is the same as sorting once.
pub proof fn lemma_sorted_tiles_unique(x: Seq<Tile>, y: Seq<Tile>)
    requires
        sorted_by(x, tile_order()),
        sorted_by(y, tile_order()),
        x.to_multiset() == y.to_multiset(),
    ensures
        x == y,
{
    lemma_tile_order_total();
    vstd::seq_lib::lemma_sorted_unique(x, y, tile_order());
    assert(x =~= y);
}

} // verus!
