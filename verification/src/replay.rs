//! Bounded memory of past transitions, from which training batches are drawn.

use std::collections::VecDeque;

use vstd::prelude::*;

verus! {

/// How a transition left the game.
#[derive(Debug, Clone, Copy, PartialEq, Eq, Structural)]
pub enum GameFlag {
    // The game will continue
    Nothing,
    // The game has reached the end
    Terminated,
    // The game is stopped by external factor
    Truncated,
}

/// How a move left the game: `Terminated` when the game is over, `Truncated`
/// when it has reached 250 full moves without ending, `Nothing` otherwise.
pub fn game_flag(game_over: bool, fullmoves: u32) -> (flag: GameFlag)
    ensures
        flag == (if game_over {
            GameFlag::Terminated
        } else if fullmoves >= 250 {
            GameFlag::Truncated
        } else {
            GameFlag::Nothing
        }),
{
    if game_over {
        GameFlag::Terminated
    } else if fullmoves >= 250 {
        GameFlag::Truncated
    } else {
        GameFlag::Nothing
    }
}

/// The most items a buffer of size `buffer_size` holds: `buffer_size`, and one
/// for a buffer of size 0, which still keeps the last item pushed.
pub open spec fn retained(buffer_size: nat) -> nat {
    if buffer_size == 0 {
        1
    } else {
        buffer_size
    }
}

/// The items held after pushing `item` onto a buffer of size `size` that
/// holds `held`: the oldest item is dropped first when the buffer is full (or
/// holds anything, for size 0).
pub open spec fn spec_push<T>(held: Seq<T>, size: nat, item: T) -> Seq<T> {
    if held.len() >= size && held.len() > 0 {
        held.drop_first().push(item)
    } else {
        held.push(item)
    }
}

/// The items held after pushing each of `items` in order onto a buffer of size
/// `size` that holds `held`.
pub open spec fn spec_push_all<T>(held: Seq<T>, size: nat, items: Seq<T>) -> Seq<T>
    decreases items.len(),
{
    if items.len() == 0 {
        held
    } else {
        spec_push(spec_push_all(held, size, items.drop_last()), size, items.last())
    }
}

/// After any run of pushes onto a new buffer, it holds exactly the most recent
/// items, in the order they were pushed: the last `min(k, max(size, 1))` of
/// the `k` items.
pub proof fn lemma_push_all_keeps_most_recent<T>(size: nat, items: Seq<T>)
    ensures
        spec_push_all(Seq::empty(), size, items) == items.skip(
            items.len() - if items.len() < retained(size) {
                items.len() as int
            } else {
                retained(size) as int
            },
        ),
    decreases items.len(),
{
    if items.len() > 0 {
        let prefix = items.drop_last();
        lemma_push_all_keeps_most_recent(size, prefix);
        let n = items.len() as int;
        let r = retained(size) as int;
        let before = spec_push_all(Seq::<T>::empty(), size, prefix);
        if n - 1 < r {
            assert(before == prefix);
            if n - 1 >= size && n - 1 > 0 {
                assert(false);
            }
            assert(before.push(items.last()) =~= items.skip(0));
        } else {
            assert(before =~= prefix.skip(n - 1 - r));
            assert(before.len() == r);
            assert(before.drop_first().push(items.last()) =~= items.skip(n - r));
        }
    }
}

/// A first-in first-out memory that keeps the `buffer_size` most recent items.
pub struct ReplayBuffer<T> {
    buffer: VecDeque<T>,
    buffer_size: usize,
}

impl<T> View for ReplayBuffer<T> {
    type V = Seq<T>;

    /// The items held, oldest first.
    closed spec fn view(&self) -> Seq<T> {
        self.buffer@
    }
}

impl<T> ReplayBuffer<T> {
    #[verifier::type_invariant]
    spec fn within_size(self) -> bool {
        self.buffer@.len() <= retained(self.buffer_size as nat)
    }

    /// The number of items the buffer keeps.
    pub closed spec fn size(self) -> nat {
        self.buffer_size as nat
    }

    /// An empty buffer that keeps the `buffer_size` most recent items.
    pub fn new(buffer_size: usize) -> (r: Self)
        ensures
            r@ == Seq::<T>::empty(),
            r.size() == buffer_size,
    {
        let mut buffer = VecDeque::new();
        buffer.reserve(buffer_size);
        Self { buffer, buffer_size }
    }

    /// Appends an item; when the buffer already holds `buffer_size` items (or
    /// any item, for size 0), the oldest one is dropped first.
    pub fn push(&mut self, transition: T)
        ensures
            final(self).size() == old(self).size(),
            final(self)@ == spec_push(old(self)@, old(self).size(), transition),
            old(self)@.len() >= old(self).size() && old(self)@.len() > 0 ==> final(self)@ == old(
                self,
            )@.drop_first().push(transition),
            old(self)@.len() < old(self).size() || old(self)@.len() == 0 ==> final(self)@ == old(
                self,
            )@.push(transition),
            final(self)@.len() <= retained(final(self).size()),
    {
        proof {
            use_type_invariant(&*self);
        }
        let mut buffer = VecDeque::new();
        std::mem::swap(&mut buffer, &mut self.buffer);
        if buffer.len() >= self.buffer_size {
            buffer.pop_front();
        }
        buffer.push_back(transition);
        self.buffer = buffer;
    }

    /// The number of items held.
    pub fn len(&self) -> (n: usize)
        ensures
            n == self@.len(),
            n <= retained(self.size()),
    {
        proof {
            use_type_invariant(self);
        }
        self.buffer.len()
    }

    /// The item at position `index`, counting from the oldest.
    pub fn index(&self, index: usize) -> (item: &T)
        requires
            index < self@.len(),
        ensures
            *item == self@[index as int],
    {
        &self.buffer[index]
    }

    /// The items at the given positions, counting from the oldest.
    pub fn items_at(&self, positions: &Vec<usize>) -> (items: Vec<&T>)
        requires
            forall|j: int| 0 <= j < positions@.len() ==> #[trigger] positions@[j] < self@.len(),
        ensures
            items@.len() == positions@.len(),
            forall|j: int|
                0 <= j < positions@.len() ==> *#[trigger] items@[j] == self@[positions@[j] as int],
    {
        broadcast use vstd::std_specs::vecdeque::group_vec_dequeue_axioms;

        let mut items: Vec<&T> = Vec::new();
        let mut i: usize = 0;
        while i < positions.len()
            invariant
                i <= positions@.len(),
                forall|j: int| 0 <= j < positions@.len() ==> #[trigger] positions@[j] < self@.len(),
                items@.len() == i,
                forall|j: int| 0 <= j < i ==> *#[trigger] items@[j] == self@[positions@[j] as int],
            decreases positions@.len() - i,
        {
            let position = positions[i];
            assert(position < self.buffer.len());
            items.push(&self.buffer[position]);
            i += 1;
        }
        items
    }

    /// `amount` items (all of them, when fewer are held) drawn at random
    /// without repetition, in random order.
    pub fn sample(&self, amount: usize) -> (batch: Vec<&T>)
        ensures
            batch@.len() == if amount < self@.len() {
                amount as int
            } else {
                self@.len() as int
            },
            exists|positions: Seq<int>| drawn_from(batch@, self@, positions),
    {
        broadcast use vstd::std_specs::vecdeque::group_vec_dequeue_axioms;

        let len = self.buffer.len();
        let amount = if amount < len {
            amount
        } else {
            len
        };
        let positions = random_indices(len, amount);
        let batch = self.items_at(&positions);
        proof {
            let witness = Seq::new(amount as nat, |j: int| positions@[j] as int);
            assert(drawn_from(batch@, self@, witness));
        }
        batch
    }
}

/// `batch[j]` is the item at `positions[j]` of `source`, for positions that are
/// pairwise distinct and within `source`.
pub open spec fn drawn_from<T>(batch: Seq<&T>, source: Seq<T>, positions: Seq<int>) -> bool {
    &&& positions.len() == batch.len()
    &&& forall|j: int| 0 <= j < positions.len() ==> 0 <= #[trigger] positions[j] < source.len()
    &&& forall|j: int, k: int|
        0 <= j < k < positions.len() ==> #[trigger] positions[j] != #[trigger] positions[k]
    &&& forall|j: int| 0 <= j < batch.len() ==> *#[trigger] batch[j] == source[positions[j]]
}

/// `rand::seq::index::sample` with the thread-local generator `rand::rng()`:
/// `amount` distinct indices from `0..length` in random order (it panics when
/// `amount > length`; `rand::rng()` panics only if the system's random source
/// fails when the generator is first seeded). Which indices come back is left
/// open.
#[verifier::external_body]
fn random_indices(length: usize, amount: usize) -> (indices: Vec<usize>)
    requires
        amount <= length,
    ensures
        indices@.len() == amount,
        forall|j: int| 0 <= j < amount ==> #[trigger] indices@[j] < length,
        forall|j: int, k: int|
            0 <= j < k < amount ==> #[trigger] indices@[j] != #[trigger] indices@[k],
{
    rand::seq::index::sample(&mut rand::rng(), length, amount).into_vec()
}

} // verus!
