use vstd::prelude::*;

use crate::card::{Card, Rank, Suit};
use crate::error::DeckError;

verus! {

/// A standard 52-card deck. It owns the ordered collection of cards not
/// currently drawn, plus a 52-slot membership table saying, per card
/// index, whether that card is currently drawn ("in play").
pub struct Deck {
    cards: Vec<Card>,
    in_play: Vec<bool>,
}

impl Deck {
    /// The ordered sequence of cards currently undrawn.
    pub closed spec fn undrawn(self) -> Seq<Card> {
        self.cards@
    }

    /// The membership table: entry `k` is true iff the card with index `k`
    /// is currently in play (drawn and not yet returned).
    pub closed spec fn in_play_flags(self) -> Seq<bool> {
        self.in_play@
    }

    /// The deck's invariant: the table has one slot per card index, the
    /// undrawn cards carry pairwise distinct indices, and a card index is
    /// marked in play exactly when no undrawn card carries it.
    pub open spec fn wf(self) -> bool {
        &&& self.in_play_flags().len() == 52
        &&& forall|i: int, j: int|
            0 <= i < j < self.undrawn().len() ==> self.undrawn()[i].idx() != self.undrawn()[j].idx()
        &&& forall|i: int|
            0 <= i < self.undrawn().len() ==> !self.in_play_flags()[#[trigger] self.undrawn()[i].idx()]
        &&& forall|k: int|
            0 <= k < 52 && !self.in_play_flags()[k] ==> exists|i: int|
                0 <= i < self.undrawn().len() && (#[trigger] self.undrawn()[i]).idx() == k
    }

    /// A fresh deck: all 52 cards undrawn, in the fixed suit-major,
    /// rank-minor order (the card at position `i` has index `i`), and no
    /// card marked in play.
    pub open spec fn is_fresh(self) -> bool {
        &&& self.undrawn().len() == 52
        &&& forall|i: int| 0 <= i < 52 ==> (#[trigger] self.undrawn()[i]).idx() == i
        &&& self.in_play_flags().len() == 52
        &&& forall|k: int| 0 <= k < 52 ==> !self.in_play_flags()[k]
    }

    /// The count of cards currently undrawn.
    pub fn size(&self) -> (r: usize)
        ensures
            r == self.undrawn().len(),
    {
        self.cards.len()
    }

    /// Builds the full ordered 52-card pack, all cards undrawn: suits in
    /// the outer loop, ranks in the inner loop.
    fn fresh_pack() -> (d: Deck)
        ensures
            d.is_fresh(),
            d.wf(),
    {
        let mut cards: Vec<Card> = Vec::new();
        for i in 0..4usize
            invariant
                cards@.len() == i * 13,
                forall|k: int| 0 <= k < cards@.len() ==> (#[trigger] cards@[k]).idx() == k,
        {
            for j in 0..13usize
                invariant
                    i < 4,
                    cards@.len() == i * 13 + j,
                    forall|k: int| 0 <= k < cards@.len() ==> (#[trigger] cards@[k]).idx() == k,
            {
                let suit = Suit::from_index(i).unwrap();
                let rank = Rank::from_index(j).unwrap();
                cards.push(Card { suit, rank });
            }
        }
        let mut in_play: Vec<bool> = Vec::new();
        for k in 0..52usize
            invariant
                in_play@.len() == k,
                forall|m: int| 0 <= m < in_play@.len() ==> !in_play@[m],
        {
            in_play.push(false);
        }
        let d = Deck { cards, in_play };
        proof {
            assert forall|k: int| 0 <= k < 52 && !d.in_play_flags()[k] implies exists|i: int|
                0 <= i < d.undrawn().len() && (#[trigger] d.undrawn()[i]).idx() == k by {
                assert(d.undrawn()[k].idx() == k);
            };
        }
        d
    }

    /// Whether some card in the sequence carries the given card index.
    pub open spec fn covers_index(cards: Seq<Card>, k: int) -> bool {
        exists|i: int| 0 <= i < cards.len() && (#[trigger] cards[i]).idx() == k
    }

    /// How any successful draw relates the deck before, the deck after, and
    /// the drawn card: the card stood at some undrawn position, that
    /// position was removed, and the card's index was marked in play.
    pub open spec fn draw_rel(pre: Deck, post: Deck, c: Card) -> bool {
        exists|i: int|
            0 <= i < pre.undrawn().len() && c == pre.undrawn()[i] && post.undrawn()
                == pre.undrawn().remove(i) && post.in_play_flags() == pre.in_play_flags().update(
                c.idx(),
                true,
            )
    }

    /// How a successful unshuffled draw relates the deck before, the deck
    /// after, and the drawn card: the last undrawn card was removed and its
    /// index was marked in play. The pre-state fixes everything.
    pub open spec fn unshuffled_rel(pre: Deck, post: Deck, c: Card) -> bool {
        &&& pre.undrawn().len() > 0
        &&& c == pre.undrawn().last()
        &&& post.undrawn() == pre.undrawn().drop_last()
        &&& post.in_play_flags() == pre.in_play_flags().update(c.idx(), true)
    }

    /// How a successful return relates the deck before, the deck after, and
    /// the returned card: the card's in-play marking was cleared and the
    /// card was appended to the undrawn collection.
    pub open spec fn return_rel(pre: Deck, post: Deck, c: Card) -> bool {
        &&& post.undrawn() == pre.undrawn().push(c)
        &&& post.in_play_flags() == pre.in_play_flags().update(c.idx(), false)
    }

    /// Whether the card with the given index is currently in play.
    pub fn is_in_play(&self, index: usize) -> (r: bool)
        requires
            self.wf(),
            index < 52,
        ensures
            r == self.in_play_flags()[index as int],
    {
        self.in_play[index]
    }

    /// Removes a card at a uniformly random undrawn position, marks it in
    /// play and returns it; fails with `EmptyDeck` when no undrawn card
    /// remains. Every undrawn card can be the one drawn.
    pub fn draw_shuffled(&mut self) -> (r: Result<Card, DeckError>)
        requires
            old(self).wf(),
        ensures
            final(self).wf(),
            old(self).undrawn().len() == 0 ==> r == Err::<Card, DeckError>(DeckError::EmptyDeck)
                && *final(self) == *old(self),
            old(self).undrawn().len() > 0 ==> r is Ok && Deck::draw_rel(
                *old(self),
                *final(self),
                r->Ok_0,
            ),
    {
        let n = self.cards.len();
        if n == 0 {
            return Err(DeckError::EmptyDeck);
        }
        let pos = random_below(n);
        let idx = self.cards[pos].index();
        self.in_play.set(idx, true);
        let card = self.cards.remove(pos);
        proof {
            lemma_draw_wf(*old(self), *self, card, pos as int);
        }
        Ok(card)
    }

    /// Removes the last undrawn card, marks it in play and returns it;
    /// fails with `EmptyDeck` when no undrawn card remains. The order is
    /// fixed: repeated draws from a fresh deck always yield the same
    /// sequence.
    pub fn draw_unshuffled(&mut self) -> (r: Result<Card, DeckError>)
        requires
            old(self).wf(),
        ensures
            final(self).wf(),
            old(self).undrawn().len() == 0 ==> r == Err::<Card, DeckError>(DeckError::EmptyDeck)
                && *final(self) == *old(self),
            old(self).undrawn().len() > 0 ==> r is Ok && Deck::unshuffled_rel(
                *old(self),
                *final(self),
                r->Ok_0,
            ) && Deck::draw_rel(*old(self), *final(self), r->Ok_0),
    {
        let n = self.cards.len();
        if n == 0 {
            return Err(DeckError::EmptyDeck);
        }
        let pos = n - 1;
        let idx = self.cards[pos].index();
        self.in_play.set(idx, true);
        let card = self.cards.remove(pos);
        proof {
            lemma_draw_wf(*old(self), *self, card, pos as int);
            assert(old(self).undrawn().remove(pos as int) =~= old(self).undrawn().drop_last());
        }
        Ok(card)
    }

    /// Marks the card as no longer in play and adds it back to the undrawn
    /// collection. A card that is not currently in play (double-returned,
    /// or never drawn) is rejected with `InvalidState` and the deck is left
    /// unchanged.
    pub fn return_card(&mut self, card: Card) -> (r: Result<(), DeckError>)
        requires
            old(self).wf(),
        ensures
            final(self).wf(),
            old(self).in_play_flags()[card.idx()] ==> r == Ok::<(), DeckError>(())
                && Deck::return_rel(*old(self), *final(self), card),
            !old(self).in_play_flags()[card.idx()] ==> r == Err::<(), DeckError>(
                DeckError::InvalidState,
            ) && *final(self) == *old(self),
    {
        let idx = card.index();
        if !self.in_play[idx] {
            return Err(DeckError::InvalidState);
        }
        self.in_play.set(idx, false);
        self.cards.push(card);
        proof {
            lemma_return_wf(*old(self), *self, card);
        }
        Ok(())
    }

    /// Clears every in-play marking and restores the undrawn collection to
    /// the full original 52-card pack, regardless of prior draw history.
    pub fn reset(&mut self)
        ensures
            final(self).is_fresh(),
            final(self).wf(),
    {
        *self = Deck::fresh_pack();
    }
}

/// Relies on rand's `Rng::gen_range` over `thread_rng`: sampling from the
/// range `0..n` yields a value in that range, uniformly; it panics only
/// when the range is empty, which the precondition rules out.
#[verifier::external_body]
fn random_below(n: usize) -> (r: usize)
    requires
        n > 0,
    ensures
        r < n,
{
    let mut rng = rand::thread_rng();
    rand::Rng::gen_range(&mut rng, 0..n)
}

/// Removing an undrawn card and marking its index in play preserves the
/// deck invariant, and is exactly the draw relation.
proof fn lemma_draw_wf(pre: Deck, post: Deck, c: Card, pos: int)
    requires
        pre.wf(),
        0 <= pos < pre.undrawn().len(),
        c == pre.undrawn()[pos],
        post.undrawn() == pre.undrawn().remove(pos),
        post.in_play_flags() == pre.in_play_flags().update(c.idx(), true),
    ensures
        post.wf(),
        Deck::draw_rel(pre, post, c),
{
    let s = pre.undrawn();
    let t = post.undrawn();
    crate::card::lemma_card_idx_bounds(c);
    s.remove_ensures(pos);
    assert forall|index: int| 0 <= index < pos implies t[index] == s[index] by {
        assert(s.remove(pos)[index] == s[index]);
    };
    assert forall|index: int| pos <= index < s.len() - 1 implies t[index] == s[index + 1] by {
        assert(s.remove(pos)[index] == s[index + 1]);
    };
    assert forall|i: int|
        0 <= i < t.len() implies !post.in_play_flags()[#[trigger] t[i].idx()] by {
        let i0: int = if i < pos {
            i
        } else {
            i + 1
        };
        assert(t[i] == s[i0]);
        assert(s[i0].idx() != c.idx());
    };
    assert forall|k: int|
        0 <= k < 52 && !post.in_play_flags()[k] implies exists|i: int|
        0 <= i < t.len() && (#[trigger] t[i]).idx() == k by {
        let i0 = choose|i0: int| 0 <= i0 < s.len() && (#[trigger] s[i0]).idx() == k;
        let i: int = if i0 < pos {
            i0
        } else {
            i0 - 1
        };
        assert(t[i] == s[i0]);
    };
}

/// Appending a card that is in play and clearing its marking preserves
/// the deck invariant.
proof fn lemma_return_wf(pre: Deck, post: Deck, c: Card)
    requires
        pre.wf(),
        pre.in_play_flags()[c.idx()],
        post.undrawn() == pre.undrawn().push(c),
        post.in_play_flags() == pre.in_play_flags().update(c.idx(), false),
    ensures
        post.wf(),
{
    let s = pre.undrawn();
    let t = post.undrawn();
    crate::card::lemma_card_idx_bounds(c);
    assert forall|k: int|
        0 <= k < 52 && !post.in_play_flags()[k] implies exists|i: int|
        0 <= i < t.len() && (#[trigger] t[i]).idx() == k by {
        if k == c.idx() {
            assert(t[s.len() as int] == c);
        } else {
            let i0 = choose|i0: int| 0 <= i0 < s.len() && (#[trigger] s[i0]).idx() == k;
            assert(t[i0] == s[i0]);
        }
    };
}

/// A freshly constructed (or reset) deck holds every (suit, rank) pair,
/// and holds no pair twice: the undrawn cards are pairwise distinct.
pub proof fn lemma_fresh_deck_complete(d: Deck, s: Suit, r: Rank)
    requires
        d.is_fresh(),
    ensures
        exists|i: int|
            0 <= i < d.undrawn().len() && d.undrawn()[i] == (Card { suit: s, rank: r }),
        forall|i: int, j: int|
            0 <= i < j < d.undrawn().len() ==> d.undrawn()[i] != d.undrawn()[j],
{
    let c = Card { suit: s, rank: r };
    crate::card::lemma_card_idx_bounds(c);
    assert(d.undrawn()[c.idx()].idx() == c.idx());
    crate::card::lemma_card_idx_injective(d.undrawn()[c.idx()], c);
    assert(0 <= c.idx() < d.undrawn().len() && d.undrawn()[c.idx()] == c);
}

/// A card handed out by a draw was not in play before it and is in play
/// after it, and the draw shrinks the undrawn collection by one.
pub proof fn lemma_drawn_card_fresh(pre: Deck, post: Deck, c: Card)
    requires
        pre.wf(),
        Deck::draw_rel(pre, post, c),
    ensures
        !pre.in_play_flags()[c.idx()],
        post.in_play_flags()[c.idx()],
        post.undrawn().len() == pre.undrawn().len() - 1,
        0 <= c.idx() < 52,
{
    crate::card::lemma_card_idx_bounds(c);
    let i = choose|i: int|
        0 <= i < pre.undrawn().len() && c == pre.undrawn()[i] && post.undrawn()
            == pre.undrawn().remove(i) && post.in_play_flags() == pre.in_play_flags().update(
            c.idx(),
            true,
        );
    assert(!pre.in_play_flags()[pre.undrawn()[i].idx()]);
    pre.undrawn().remove_ensures(i);
}

/// In-play markings only grow across a draw: a card index in play before
/// a draw is still in play after it.
pub proof fn lemma_draw_keeps_in_play(pre: Deck, post: Deck, c: Card, k: int)
    requires
        pre.wf(),
        Deck::draw_rel(pre, post, c),
        0 <= k < pre.in_play_flags().len(),
        pre.in_play_flags()[k],
    ensures
        post.in_play_flags()[k],
{
    crate::card::lemma_card_idx_bounds(c);
    let i = choose|i: int|
        0 <= i < pre.undrawn().len() && c == pre.undrawn()[i] && post.undrawn()
            == pre.undrawn().remove(i) && post.in_play_flags() == pre.in_play_flags().update(
            c.idx(),
            true,
        );
    assert(post.in_play_flags() == pre.in_play_flags().update(c.idx(), true));
}

/// Two successive draws, in either mode and with no return in between,
/// hand out distinct cards.
pub proof fn lemma_successive_draws_distinct(d0: Deck, d1: Deck, d2: Deck, c1: Card, c2: Card)
    requires
        d0.wf(),
        d1.wf(),
        Deck::draw_rel(d0, d1, c1),
        Deck::draw_rel(d1, d2, c2),
    ensures
        c1 != c2,
{
    lemma_drawn_card_fresh(d0, d1, c1);
    lemma_drawn_card_fresh(d1, d2, c2);
}

/// When no undrawn card remains in a well-formed deck, every card index
/// is marked in play: a deck drawn empty has covered the full universe.
pub proof fn lemma_empty_deck_all_in_play(d: Deck, k: int)
    requires
        d.wf(),
        d.undrawn().len() == 0,
        0 <= k < 52,
    ensures
        d.in_play_flags()[k],
{
}

/// A draw from a well-formed deck leaves a well-formed deck, and sets
/// exactly one marking: the drawn card's.
pub proof fn lemma_draw_preserves_wf(pre: Deck, post: Deck, c: Card)
    requires
        pre.wf(),
        Deck::draw_rel(pre, post, c),
    ensures
        post.wf(),
        post.in_play_flags() == pre.in_play_flags().update(c.idx(), true),
{
    let i = choose|i: int|
        0 <= i < pre.undrawn().len() && c == pre.undrawn()[i] && post.undrawn()
            == pre.undrawn().remove(i) && post.in_play_flags() == pre.in_play_flags().update(
            c.idx(),
            true,
        );
    lemma_draw_wf(pre, post, c, i);
}

/// Along a chain of draws `decks[0] --cards[0]--> decks[1] --cards[1]--> ...`,
/// every deck stays well-formed and the undrawn collection shrinks by one
/// card per draw.
pub proof fn lemma_draw_chain_wf(decks: Seq<Deck>, cards: Seq<Card>, n: int)
    requires
        decks.len() == cards.len() + 1,
        decks[0].wf(),
        forall|i: int|
            0 <= i < cards.len() ==> Deck::draw_rel(#[trigger] decks[i], decks[i + 1], cards[i]),
        0 <= n <= cards.len(),
    ensures
        decks[n].wf(),
        decks[n].undrawn().len() == decks[0].undrawn().len() - n,
    decreases n,
{
    if n > 0 {
        lemma_draw_chain_wf(decks, cards, n - 1);
        lemma_draw_preserves_wf(decks[n - 1], decks[n], cards[n - 1]);
        lemma_drawn_card_fresh(decks[n - 1], decks[n], cards[n - 1]);
    }
}

/// A card index in play stays in play along a chain of draws.
proof fn lemma_draw_chain_keeps_in_play(decks: Seq<Deck>, cards: Seq<Card>, k: int, m: int, n: int)
    requires
        decks.len() == cards.len() + 1,
        decks[0].wf(),
        forall|i: int|
            0 <= i < cards.len() ==> Deck::draw_rel(#[trigger] decks[i], decks[i + 1], cards[i]),
        0 <= m <= n <= cards.len(),
        0 <= k < 52,
        decks[m].in_play_flags()[k],
    ensures
        decks[n].in_play_flags()[k],
    decreases n - m,
{
    if m < n {
        lemma_draw_chain_wf(decks, cards, m);
        lemma_draw_keeps_in_play(decks[m], decks[m + 1], cards[m], k);
        lemma_draw_chain_keeps_in_play(decks, cards, k, m + 1, n);
    }
}

/// A card index unmarked at one point of a chain of draws and marked at a
/// later point was drawn at some step in between.
proof fn lemma_draw_chain_flag_set(decks: Seq<Deck>, cards: Seq<Card>, k: int, m: int, n: int)
    requires
        decks.len() == cards.len() + 1,
        decks[0].wf(),
        forall|i: int|
            0 <= i < cards.len() ==> Deck::draw_rel(#[trigger] decks[i], decks[i + 1], cards[i]),
        0 <= m <= n <= cards.len(),
        0 <= k < 52,
        !decks[m].in_play_flags()[k],
        decks[n].in_play_flags()[k],
    ensures
        exists|i: int| m <= i < n && (#[trigger] cards[i]).idx() == k,
    decreases n - m,
{
    lemma_draw_chain_wf(decks, cards, m);
    lemma_draw_preserves_wf(decks[m], decks[m + 1], cards[m]);
    if decks[m + 1].in_play_flags()[k] {
        assert(cards[m].idx() == k);
    } else {
        lemma_draw_chain_flag_set(decks, cards, k, m + 1, n);
    }
}

/// Every chain of successful draws, in either mode and with no return in
/// between, hands out pairwise distinct cards.
pub proof fn lemma_draw_chain_distinct(decks: Seq<Deck>, cards: Seq<Card>)
    requires
        decks.len() == cards.len() + 1,
        decks[0].wf(),
        forall|i: int|
            0 <= i < cards.len() ==> Deck::draw_rel(#[trigger] decks[i], decks[i + 1], cards[i]),
    ensures
        forall|i: int, j: int| 0 <= i < j < cards.len() ==> cards[i] != cards[j],
{
    assert forall|i: int, j: int| 0 <= i < j < cards.len() implies cards[i] != cards[j] by {
        lemma_draw_chain_wf(decks, cards, i);
        lemma_draw_chain_wf(decks, cards, j);
        lemma_drawn_card_fresh(decks[i], decks[i + 1], cards[i]);
        lemma_drawn_card_fresh(decks[j], decks[j + 1], cards[j]);
        lemma_draw_chain_keeps_in_play(decks, cards, cards[i].idx(), i + 1, j);
    };
}

/// Fifty-two draws from a fresh deck hand out 52 pairwise distinct cards
/// that cover the whole universe of card indices, and leave no undrawn
/// card: a 53rd draw must fail.
pub proof fn lemma_draw_chain_covers(decks: Seq<Deck>, cards: Seq<Card>)
    requires
        decks.len() == 53,
        cards.len() == 52,
        decks[0].is_fresh(),
        decks[0].wf(),
        forall|i: int|
            0 <= i < cards.len() ==> Deck::draw_rel(#[trigger] decks[i], decks[i + 1], cards[i]),
    ensures
        forall|i: int, j: int| 0 <= i < j < 52 ==> cards[i] != cards[j],
        forall|k: int| 0 <= k < 52 ==> #[trigger] Deck::covers_index(cards, k),
        decks[52].undrawn().len() == 0,
{
    lemma_draw_chain_distinct(decks, cards);
    lemma_draw_chain_wf(decks, cards, 52);
    assert forall|k: int| 0 <= k < 52 implies #[trigger] Deck::covers_index(cards, k) by {
        lemma_empty_deck_all_in_play(decks[52], k);
        lemma_draw_chain_flag_set(decks, cards, k, 0, 52);
    };
}

/// The unshuffled draw is deterministic: the pre-state alone fixes the
/// drawn card and the whole post-state, so repeated draws from equal
/// decks always yield the same sequence.
pub proof fn lemma_unshuffled_deterministic(pre: Deck, a: Deck, b: Deck, ca: Card, cb: Card)
    requires
        Deck::unshuffled_rel(pre, a, ca),
        Deck::unshuffled_rel(pre, b, cb),
    ensures
        ca == cb,
        a.undrawn() == b.undrawn(),
        a.in_play_flags() == b.in_play_flags(),
{
}

/// Returning the card a draw handed out restores the membership table
/// exactly, and the undrawn collection up to order.
pub proof fn lemma_draw_return_roundtrip(d0: Deck, d1: Deck, d2: Deck, c: Card)
    requires
        d0.wf(),
        Deck::draw_rel(d0, d1, c),
        Deck::return_rel(d1, d2, c),
    ensures
        d2.in_play_flags() == d0.in_play_flags(),
        d2.undrawn().to_multiset() == d0.undrawn().to_multiset(),
        d2.undrawn().len() == d0.undrawn().len(),
{
    broadcast use vstd::seq_lib::group_to_multiset_ensures;

    lemma_drawn_card_fresh(d0, d1, c);
    assert(d2.in_play_flags() =~= d0.in_play_flags());
    let i = choose|i: int|
        0 <= i < d0.undrawn().len() && c == d0.undrawn()[i] && d1.undrawn()
            == d0.undrawn().remove(i) && d1.in_play_flags() == d0.in_play_flags().update(
            c.idx(),
            true,
        );
    assert(d1.undrawn().to_multiset() == d0.undrawn().to_multiset().remove(c));
    assert(d2.undrawn().to_multiset() == d1.undrawn().to_multiset().insert(c));
    assert(d0.undrawn().to_multiset().contains(c));
    assert(d2.undrawn().to_multiset() =~= d0.undrawn().to_multiset());
}

/// Returning the card an unshuffled draw handed out restores the deck
/// exactly: the undrawn collection and the membership table are as they
/// were before the draw.
pub proof fn lemma_unshuffled_draw_return_roundtrip(d0: Deck, d1: Deck, d2: Deck, c: Card)
    requires
        d0.wf(),
        Deck::unshuffled_rel(d0, d1, c),
        Deck::return_rel(d1, d2, c),
    ensures
        d2.undrawn() == d0.undrawn(),
        d2.in_play_flags() == d0.in_play_flags(),
{
    assert(d0.undrawn()[d0.undrawn().len() - 1].idx() == c.idx());
    assert(!d0.in_play_flags()[c.idx()]);
    assert(d2.undrawn() =~= d0.undrawn());
    assert(d2.in_play_flags() =~= d0.in_play_flags());
}

impl Default for Deck {
    /// A full ordered 52-card pack with no card in play.
    fn default() -> (d: Deck)
        ensures
            d.is_fresh(),
            d.wf(),
    {
        Deck::fresh_pack()
    }
}

} // verus!
