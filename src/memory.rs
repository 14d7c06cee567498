use vstd::prelude::*;
use crate::random::{count_of, shuffle};

verus! {

/// Number of pairs in a standard deck.
pub const PAIR_COUNT: usize = 9;

/// Cards laid out in each row.
pub const COLUMNS: usize = 4;

/// Margin round the table and gap between cards, in pixels.
pub const MARGIN: i128 = 15;

pub const CARD_WIDTH: i128 = 300;

pub const CARD_HEIGHT: i128 = 180;

/// A card: its pairing key (an index into the asset pool) and the slot of
/// the table it lies on. Slots fill rows of `COLUMNS` left to right, top to
/// bottom.
#[derive(Clone, Copy, Debug, PartialEq, Eq, Structural)]
pub struct Card {
    pub key: usize,
    pub slot: usize,
}

/// How a card is to be drawn.
#[derive(Clone, Copy, Debug, PartialEq, Eq, Structural)]
pub enum CardFace {
    Down,
    Open,
    Found,
}

/// Each item of `s` twice over, side by side.
pub open spec fn doubled(s: Seq<usize>) -> Seq<usize>
    decreases s.len(),
{
    if s.len() == 0 {
        Seq::empty()
    } else {
        doubled(s.drop_last()).push(s.last()).push(s.last())
    }
}

pub open spec fn keys_of(cards: Seq<Card>) -> Seq<usize> {
    cards.map_values(|c: Card| c.key)
}

/// A well-formed deck of `pair_count` pairs drawn from a pool of
/// `pool_size` assets: card `i` lies on slot `i`, and every key that occurs
/// names an asset and occurs exactly twice.
pub open spec fn is_deck(cards: Seq<Card>, pool_size: nat, pair_count: nat) -> bool {
    &&& cards.len() == 2 * pair_count
    &&& forall|i: int|
        0 <= i < cards.len() ==> {
            &&& cards[i].slot == i
            &&& cards[i].key < pool_size
            &&& count_of(keys_of(cards), cards[i].key) == 2
        }
}

pub open spec fn left_of(slot: int) -> int {
    MARGIN + (slot % COLUMNS as int) * (CARD_WIDTH + MARGIN)
}

pub open spec fn top_of(slot: int) -> int {
    MARGIN + (slot / COLUMNS as int) * (CARD_HEIGHT + MARGIN)
}

/// Whether a click on pixel (`px`, `py`) lands on card `c`: the clicked
/// pixel, taken as a unit square, touches the card's rectangle.
pub open spec fn hits(c: Card, px: int, py: int) -> bool {
    &&& left_of(c.slot as int) - 1 <= px <= left_of(c.slot as int) + CARD_WIDTH
    &&& top_of(c.slot as int) - 1 <= py <= top_of(c.slot as int) + CARD_HEIGHT
}

/// Two distinct cards of one pair.
pub open spec fn pair_of(a: Card, b: Card) -> bool {
    a.key == b.key && a.slot != b.slot
}

/// The matched keys after resolving the open cards `open`.
pub open spec fn after_resolve(open: Seq<Card>, found: Seq<usize>) -> Seq<usize> {
    if open.len() == 2 && pair_of(open[0], open[1]) && !found.contains(open[0].key) {
        found.push(open[0].key)
    } else {
        found
    }
}

proof fn lemma_count_push(s: Seq<usize>, a: usize, k: usize)
    ensures
        count_of(s.push(a), k) == count_of(s, k) + if a == k {
            1nat
        } else {
            0nat
        },
{
    assert(s.push(a).drop_last() =~= s);
}

proof fn lemma_count_positive(s: Seq<usize>, i: int)
    requires
        0 <= i < s.len(),
    ensures
        count_of(s, s[i]) >= 1,
    decreases s.len(),
{
    if i < s.len() - 1 {
        lemma_count_positive(s.drop_last(), i);
    }
}

proof fn lemma_count_prefix(s: Seq<usize>, m: int, k: usize)
    requires
        0 <= m <= s.len(),
    ensures
        count_of(s.take(m), k) <= count_of(s, k),
    decreases s.len(),
{
    if m < s.len() {
        assert(s.take(m) =~= s.drop_last().take(m));
        lemma_count_prefix(s.drop_last(), m, k);
    } else {
        assert(s.take(m) =~= s);
    }
}

proof fn lemma_count_range(n: nat, k: usize)
    requires
        n <= usize::MAX,
    ensures
        count_of(Seq::new(n, |j: int| j as usize), k) == if (k as int) < n {
            1nat
        } else {
            0nat
        },
    decreases n,
{
    if n > 0 {
        let s = Seq::new(n, |j: int| j as usize);
        assert(s.drop_last() =~= Seq::new((n - 1) as nat, |j: int| j as usize));
        lemma_count_range((n - 1) as nat, k);
        assert(s.last() == (n - 1) as usize);
    }
}

proof fn lemma_count_doubled(s: Seq<usize>, k: usize)
    ensures
        count_of(doubled(s), k) == 2 * count_of(s, k),
    decreases s.len(),
{
    if s.len() > 0 {
        lemma_count_doubled(s.drop_last(), k);
        let d = doubled(s.drop_last());
        lemma_count_push(d, s.last(), k);
        lemma_count_push(d.push(s.last()), s.last(), k);
    }
}

/// Lays the keys out as cards, the `i`-th key on slot `i`.
pub fn make_cards(keys: &Vec<usize>) -> (cards: Vec<Card>)
    ensures
        cards@.len() == keys@.len(),
        forall|i: int| 0 <= i < keys@.len() ==> cards@[i] == (Card { key: keys@[i], slot: i as usize }),
{
    let mut cards: Vec<Card> = Vec::new();
    let mut i: usize = 0;
    while i < keys.len()
        invariant
            i <= keys@.len(),
            cards@.len() == i,
            forall|j: int| 0 <= j < i ==> cards@[j] == (Card { key: keys@[j], slot: j as usize }),
        decreases keys@.len() - i,
    {
        cards.push(Card { key: keys[i], slot: i });
        i = i + 1;
    }
    cards
}

/// A shuffled deck of `pair_count` pairs whose keys are drawn without
/// replacement from the assets `0..pool_size`; `None` when the pool is too
/// small.
pub fn generate_deck(pool_size: usize, pair_count: usize) -> (r: Option<Vec<Card>>)
    requires
        pair_count <= usize::MAX / 2,
    ensures
        r.is_none() == (pool_size < pair_count),
        r matches Some(cards) ==> is_deck(cards@, pool_size as nat, pair_count as nat),
{
    if pool_size < pair_count {
        return None;
    }
    let mut pool: Vec<usize> = Vec::new();
    let mut i: usize = 0;
    while i < pool_size
        invariant
            i <= pool_size,
            pool@ =~= Seq::new(i as nat, |j: int| j as usize),
        decreases pool_size - i,
    {
        pool.push(i);
        i = i + 1;
    }
    let ghost all = pool@;
    shuffle(&mut pool);
    let mut keys: Vec<usize> = Vec::new();
    let mut i: usize = 0;
    while i < pair_count
        invariant
            i <= pair_count <= pool@.len(),
            pair_count <= usize::MAX / 2,
            keys@ == doubled(pool@.take(i as int)),
            keys@.len() == 2 * i,
        decreases pair_count - i,
    {
        assert(pool@.take(i + 1).drop_last() =~= pool@.take(i as int));
        keys.push(pool[i]);
        keys.push(pool[i]);
        i = i + 1;
    }
    let ghost drawn = pool@.take(pair_count as int);
    let ghost pairs = keys@;
    shuffle(&mut keys);
    let cards = make_cards(&keys);
    proof {
        assert(keys_of(cards@) =~= keys@);
        assert forall|i: int| 0 <= i < cards@.len() implies {
            &&& cards@[i].slot == i
            &&& cards@[i].key < pool_size
            &&& count_of(keys_of(cards@), cards@[i].key) == 2
        } by {
            let k = keys@[i];
            lemma_count_positive(keys@, i);
            lemma_count_doubled(drawn, k);
            lemma_count_prefix(pool@, pair_count as int, k);
            lemma_count_range(pool_size as nat, k);
        }
    }
    Some(cards)
}

/// Left edge of the card on `slot`, in pixels.
pub fn card_left(slot: usize) -> (x: i128)
    ensures
        x == left_of(slot as int),
{
    MARGIN + (slot % COLUMNS) as i128 * (CARD_WIDTH + MARGIN)
}

/// Top edge of the card on `slot`, in pixels.
pub fn card_top(slot: usize) -> (y: i128)
    ensures
        y == top_of(slot as int),
{
    let row = (slot / COLUMNS) as i128;
    assert(0 <= row <= usize::MAX);
    assert(row * (CARD_HEIGHT + MARGIN) <= usize::MAX * 195) by (nonlinear_arith)
        requires
            0 <= row <= usize::MAX,
    ;
    MARGIN + row * (CARD_HEIGHT + MARGIN)
}

impl Card {
    /// Whether a click on pixel (`px`, `py`) lands on this card.
    pub fn clicked_at(&self, px: i64, py: i64) -> (r: bool)
        ensures
            r == hits(*self, px as int, py as int),
    {
        let x = card_left(self.slot);
        let y = card_top(self.slot);
        let px = px as i128;
        let py = py as i128;
        x - 1 <= px && px <= x + CARD_WIDTH && y - 1 <= py && py <= y + CARD_HEIGHT
    }

    /// Whether `other` is the other card of this one's pair.
    pub fn is_other_pair(&self, other: &Card) -> (r: bool)
        ensures
            r == pair_of(*self, *other),
    {
        self.key == other.key && self.slot != other.slot
    }

    /// Whether `other` is this very card.
    pub fn is_equal(&self, other: &Card) -> (r: bool)
        ensures
            r == (*self == *other),
    {
        self.key == other.key && self.slot == other.slot
    }
}

/// The state of one memory game.
pub struct MemoryGame {
    pub cards: Vec<Card>,
    /// The face-up cards of the current turn, in the order they were picked.
    pub open: Vec<Card>,
    /// Keys of the pairs found so far, each once.
    pub found: Vec<usize>,
    pub pair_count: usize,
}

/// Resolving twice with the same cards open matches nothing more than
/// resolving once, and no resolution ever drops a found pair.
pub proof fn lemma_resolve_idempotent(open: Seq<Card>, found: Seq<usize>)
    ensures
        after_resolve(open, after_resolve(open, found)) == after_resolve(open, found),
        forall|k: usize| found.contains(k) ==> after_resolve(open, found).contains(k),
{
    if open.len() == 2 && pair_of(open[0], open[1]) && !found.contains(open[0].key) {
        let f = found.push(open[0].key);
        assert(f[found.len() as int] == open[0].key);
        assert forall|k: usize| found.contains(k) implies f.contains(k) by {
            let j = choose|j: int| 0 <= j < found.len() && found[j] == k;
            assert(f[j] == k);
        }
    }
}

impl MemoryGame {
    pub open spec fn wf(&self) -> bool {
        &&& self.open@.len() <= 2
        &&& self.found@.no_duplicates()
    }

    /// The game won: as many pairs found as the deck holds.
    pub open spec fn won(&self) -> bool {
        self.found@.len() == self.pair_count
    }

    /// A game on `cards` with nothing open and nothing found.
    pub fn with_deck(cards: Vec<Card>, pair_count: usize) -> (g: MemoryGame)
        ensures
            g.wf(),
            g.cards@ == cards@,
            g.open@.len() == 0,
            g.found@.len() == 0,
            g.pair_count == pair_count,
    {
        MemoryGame { cards, open: Vec::new(), found: Vec::new(), pair_count }
    }

    /// A game on a fresh deck of `pair_count` pairs drawn from the assets
    /// `0..pool_size`; `None` when the pool is too small.
    pub fn new(pool_size: usize, pair_count: usize) -> (r: Option<MemoryGame>)
        requires
            pair_count <= usize::MAX / 2,
        ensures
            r.is_none() == (pool_size < pair_count),
            r matches Some(g) ==> {
                &&& g.wf()
                &&& is_deck(g.cards@, pool_size as nat, pair_count as nat)
                &&& g.open@.len() == 0
                &&& g.found@.len() == 0
                &&& g.pair_count == pair_count
            },
    {
        match generate_deck(pool_size, pair_count) {
            Some(cards) => Some(MemoryGame::with_deck(cards, pair_count)),
            None => None,
        }
    }

    /// Whether every pair has been found: the set of found keys has
    /// reached `pair_count`.
    pub fn is_won(&self) -> (r: bool)
        requires
            self.wf(),
        ensures
            r == self.won(),
            r == (self.found@.to_set().len() == self.pair_count),
    {
        proof {
            self.found@.unique_seq_to_set();
        }
        self.found.len() == self.pair_count
    }

    /// The index of the first card that a click on (`px`, `py`) lands on.
    pub fn card_at(&self, px: i64, py: i64) -> (r: Option<usize>)
        ensures
            r matches Some(i) ==> i < self.cards@.len() && hits(self.cards@[i as int], px as int, py as int)
                && forall|j: int| 0 <= j < i ==> !hits(self.cards@[j], px as int, py as int),
            r is None ==> forall|j: int| 0 <= j < self.cards@.len() ==> !hits(self.cards@[j], px as int, py as int),
    {
        let mut i: usize = 0;
        while i < self.cards.len()
            invariant
                i <= self.cards@.len(),
                forall|j: int| 0 <= j < i ==> !hits(self.cards@[j], px as int, py as int),
            decreases self.cards@.len() - i,
        {
            if self.cards[i].clicked_at(px, py) {
                return Some(i);
            }
            i = i + 1;
        }
        None
    }

    /// A click on (`px`, `py`). If it lands on a card while the game is not
    /// won, that card is opened, after closing the previous turn's two cards
    /// if two are open; otherwise nothing changes. Returns the card's index.
    pub fn select(&mut self, px: i64, py: i64) -> (r: Option<usize>)
        requires
            old(self).wf(),
        ensures
            final(self).wf(),
            final(self).cards@ == old(self).cards@,
            final(self).found@ == old(self).found@,
            final(self).pair_count == old(self).pair_count,
            old(self).won() ==> r is None,
            r is None ==> final(self).open@ == old(self).open@,
            r is None && !old(self).won() ==> forall|j: int|
                0 <= j < old(self).cards@.len() ==> !hits(old(self).cards@[j], px as int, py as int),
            r matches Some(i) ==> {
                &&& i < old(self).cards@.len()
                &&& hits(old(self).cards@[i as int], px as int, py as int)
                &&& forall|j: int| 0 <= j < i ==> !hits(old(self).cards@[j], px as int, py as int)
                &&& final(self).open@ == if old(self).open@.len() == 2 {
                    seq![old(self).cards@[i as int]]
                } else {
                    old(self).open@.push(old(self).cards@[i as int])
                }
            },
    {
        if self.is_won() {
            return None;
        }
        match self.card_at(px, py) {
            Some(i) => {
                if self.open.len() == 2 {
                    self.open.clear();
                }
                let c = self.cards[i];
                self.open.push(c);
                proof {
                    if old(self).open@.len() == 2 {
                        assert(self.open@ =~= seq![old(self).cards@[i as int]]);
                    }
                }
                Some(i)
            },
            None => None,
        }
    }

    /// Whether `key` is among the found pairs.
    pub fn is_found(&self, key: usize) -> (r: bool)
        ensures
            r == self.found@.contains(key),
    {
        let mut i: usize = 0;
        while i < self.found.len()
            invariant
                i <= self.found@.len(),
                forall|j: int| 0 <= j < i ==> self.found@[j] != key,
            decreases self.found@.len() - i,
        {
            if self.found[i] == key {
                return true;
            }
            i = i + 1;
        }
        false
    }

    /// Checks the two open cards: if they are the two cards of one pair not
    /// yet found, their key joins the found pairs. The open cards stay open.
    pub fn resolve(&mut self)
        requires
            old(self).wf(),
        ensures
            final(self).wf(),
            final(self).cards@ == old(self).cards@,
            final(self).open@ == old(self).open@,
            final(self).pair_count == old(self).pair_count,
            final(self).found@ == after_resolve(old(self).open@, old(self).found@),
    {
        if self.open.len() == 2 {
            let a = self.open[0];
            let b = self.open[1];
            if a.is_other_pair(&b) && !self.is_found(a.key) {
                self.found.push(a.key);
            }
        }
    }

    /// Whether card `c` is one of the open cards.
    pub fn is_open(&self, c: &Card) -> (r: bool)
        ensures
            r == self.open@.contains(*c),
    {
        let mut i: usize = 0;
        while i < self.open.len()
            invariant
                i <= self.open@.len(),
                forall|j: int| 0 <= j < i ==> self.open@[j] != *c,
            decreases self.open@.len() - i,
        {
            if self.open[i].is_equal(c) {
                return true;
            }
            i = i + 1;
        }
        false
    }

    /// How card `i` is to be drawn: found pairs show their found face, other
    /// open cards show their face, the rest lie face down.
    pub fn face(&self, i: usize) -> (r: CardFace)
        requires
            i < self.cards@.len(),
        ensures
            r == if self.found@.contains(self.cards@[i as int].key) {
                CardFace::Found
            } else if self.open@.contains(self.cards@[i as int]) {
                CardFace::Open
            } else {
                CardFace::Down
            },
    {
        let c = self.cards[i];
        if self.is_found(c.key) {
            CardFace::Found
        } else if self.is_open(&c) {
            CardFace::Open
        } else {
            CardFace::Down
        }
    }
}

} // verus!
