//! The decisions of the training loop that involve no network: when to train,
//! and how the moves of a batch of games are put together from random and
//! inferred choices.

use vstd::prelude::*;

verus! {

/// When the trainer runs a training step: once the replay memory holds
/// `learning_startup` transitions, on every `train_frequency`-th call of
/// `step_counter` since the last training.
#[derive(Debug, Clone, Copy, PartialEq, Eq, Structural)]
pub struct TrainSchedule {
    pub learning_startup: usize,
    pub train_frequency: u32,
    pub train_counter: u32,
}

/// The schedule after one `step_counter` call with `memory_len` transitions in
/// memory, and that call's answer.
pub open spec fn spec_step_counter(s: TrainSchedule, memory_len: int) -> (TrainSchedule, bool) {
    if memory_len < s.learning_startup {
        (s, false)
    } else {
        let next = TrainSchedule { train_counter: (s.train_counter + 1) as u32, ..s };
        (next, next.train_counter >= s.train_frequency)
    }
}

impl TrainSchedule {
    /// A schedule with no step counted yet.
    pub fn new(learning_startup: usize, train_frequency: u32) -> (s: TrainSchedule)
        ensures
            s.learning_startup == learning_startup,
            s.train_frequency == train_frequency,
            s.train_counter == 0,
    {
        TrainSchedule { learning_startup, train_frequency, train_counter: 0 }
    }

    /// Counts one step and tells whether to train now: never while the memory
    /// holds fewer than `learning_startup` transitions (the step is then not
    /// counted), and otherwise once `train_frequency` steps were counted.
    pub fn step_counter(&mut self, memory_len: usize) -> (train: bool)
        requires
            memory_len >= old(self).learning_startup ==> old(self).train_counter < u32::MAX,
        ensures
            (*final(self), train) == spec_step_counter(*old(self), memory_len as int),
    {
        if memory_len < self.learning_startup {
            return false;
        }
        self.train_counter += 1;
        self.train_counter >= self.train_frequency
    }

    /// Starts counting anew, as a training step does.
    pub fn reset(&mut self)
        ensures
            *final(self) == (TrainSchedule { train_counter: 0, ..*old(self) }),
    {
        self.train_counter = 0;
    }
}

/// The schedule after `n` counted steps from `s`, the memory holding enough
/// transitions at each.
pub open spec fn steps_after(s: TrainSchedule, n: nat) -> TrainSchedule
    decreases n,
{
    if n == 0 {
        s
    } else {
        spec_step_counter(steps_after(s, (n - 1) as nat), s.learning_startup as int).0
    }
}

/// Once the memory is full enough, a schedule that was just reset asks for
/// training exactly from its `train_frequency`-th step on: step `n` (from 1)
/// answers `n >= train_frequency`.
pub proof fn lemma_train_every_frequency(s: TrainSchedule, n: nat, memory_len: int)
    requires
        s.train_counter == 0,
        n >= 1,
        n <= u32::MAX,
        memory_len >= s.learning_startup,
    ensures
        steps_after(s, (n - 1) as nat).train_counter == n - 1,
        spec_step_counter(steps_after(s, (n - 1) as nat), memory_len).1 == (n >= s.train_frequency),
    decreases n,
{
    if n > 1 {
        lemma_train_every_frequency(s, (n - 1) as nat, s.learning_startup as int);
        lemma_steps_keep_settings(s, (n - 2) as nat);
    }
    lemma_steps_keep_settings(s, (n - 1) as nat);
}

proof fn lemma_steps_keep_settings(s: TrainSchedule, n: nat)
    ensures
        steps_after(s, n).learning_startup == s.learning_startup,
        steps_after(s, n).train_frequency == s.train_frequency,
    decreases n,
{
    if n > 0 {
        lemma_steps_keep_settings(s, (n - 1) as nat);
    }
}

/// The number of entries among the first `n` flags that equal `flag`.
pub open spec fn count_flags(take_random: Seq<bool>, n: int, flag: bool) -> int
    decreases n,
{
    if n <= 0 {
        0
    } else {
        count_flags(take_random, n - 1, flag) + if take_random[n - 1] == flag {
            1int
        } else {
            0
        }
    }
}

proof fn lemma_count_flags_monotone(take_random: Seq<bool>, m: int, n: int, flag: bool)
    requires
        0 <= m <= n <= take_random.len(),
    ensures
        count_flags(take_random, m, flag) <= count_flags(take_random, n, flag),
    decreases n - m,
{
    if m < n {
        lemma_count_flags_monotone(take_random, m, n - 1, flag);
    }
}

/// The moves of a batch of games: game `i` plays the next of `random_moves`
/// where `take_random[i]` holds, and the next of `inferred_moves` otherwise;
/// each list holds one move for each game of its kind, in order.
pub fn select_moves<M: Copy>(take_random: &Vec<bool>, random_moves: &Vec<M>, inferred_moves: &Vec<M>) -> (moves: Vec<M>)
    requires
        random_moves@.len() == count_flags(take_random@, take_random@.len() as int, true),
        inferred_moves@.len() == count_flags(take_random@, take_random@.len() as int, false),
    ensures
        moves@.len() == take_random@.len(),
        forall|i: int|
            0 <= i < take_random@.len() ==> #[trigger] moves@[i] == if take_random@[i] {
                random_moves@[count_flags(take_random@, i, true)]
            } else {
                inferred_moves@[count_flags(take_random@, i, false)]
            },
{
    let mut moves: Vec<M> = Vec::new();
    let mut next_random: usize = 0;
    let mut next_inferred: usize = 0;
    let mut i: usize = 0;
    while i < take_random.len()
        invariant
            i <= take_random@.len(),
            random_moves@.len() == count_flags(take_random@, take_random@.len() as int, true),
            inferred_moves@.len() == count_flags(take_random@, take_random@.len() as int, false),
            next_random == count_flags(take_random@, i as int, true),
            next_inferred == count_flags(take_random@, i as int, false),
            moves@.len() == i,
            forall|j: int|
                0 <= j < i ==> #[trigger] moves@[j] == if take_random@[j] {
                    random_moves@[count_flags(take_random@, j, true)]
                } else {
                    inferred_moves@[count_flags(take_random@, j, false)]
                },
        decreases take_random@.len() - i,
    {
        proof {
            lemma_count_flags_monotone(take_random@, i as int + 1, take_random@.len() as int, true);
            lemma_count_flags_monotone(take_random@, i as int + 1, take_random@.len() as int, false);
        }
        if take_random[i] {
            assert(count_flags(take_random@, i as int + 1, true) == next_random + 1);
            assert(next_random < random_moves.len());
            moves.push(random_moves[next_random]);
            next_random += 1;
        } else {
            assert(count_flags(take_random@, i as int + 1, false) == next_inferred + 1);
            assert(next_inferred < inferred_moves.len());
            moves.push(inferred_moves[next_inferred]);
            next_inferred += 1;
        }
        i += 1;
    }
    moves
}

} // verus!
