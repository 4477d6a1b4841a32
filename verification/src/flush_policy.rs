use vstd::prelude::*;

verus! {

/// After this many consecutive partial (quick) refreshes the e-paper display
/// gets a full refresh, which clears the ghosting that quick ones leave.
pub const PARTIAL_FLUSH_LIMIT: u8 = 31;

/// How the display is refreshed.
#[derive(Clone, Copy, PartialEq, Eq, Structural, Debug)]
pub enum FlushKind {
    /// A partial refresh: the new frame is drawn over the old one.
    Quick,
    /// A full refresh: the whole panel is redrawn.
    Full,
}

/// The refresh that a display with `counter` partial refreshes behind it gets.
pub open spec fn flush_kind(counter: nat) -> FlushKind {
    if counter >= PARTIAL_FLUSH_LIMIT {
        FlushKind::Full
    } else {
        FlushKind::Quick
    }
}

/// The partial-refresh counter after a refresh of the given kind.
pub open spec fn counter_after(counter: nat, kind: FlushKind) -> nat {
    match kind {
        FlushKind::Quick => counter + 1,
        FlushKind::Full => 0,
    }
}

/// The kinds of the next `n` refreshes of a display whose counter is `counter`.
pub open spec fn flush_run(counter: nat, n: nat) -> Seq<FlushKind>
    decreases n,
{
    if n == 0 {
        Seq::empty()
    } else {
        let kind = flush_kind(counter);
        seq![kind] + flush_run(counter_after(counter, kind), (n - 1) as nat)
    }
}

/// Decides between a quick and a full refresh of the e-paper display, by
/// counting the quick refreshes since the last full one.
pub struct FlushPolicy {
    partial_flush_counter: u8,
}

impl FlushPolicy {
    /// The number of quick refreshes since the last full one.
    pub closed spec fn counter(&self) -> nat {
        self.partial_flush_counter as nat
    }

    #[verifier::type_invariant]
    spec fn inv(&self) -> bool {
        self.partial_flush_counter <= PARTIAL_FLUSH_LIMIT
    }

    /// A policy for a display that has just had a full refresh.
    pub fn new() -> (policy: Self)
        ensures
            policy.counter() == 0,
    {
        FlushPolicy { partial_flush_counter: 0 }
    }

    /// The counter never exceeds the limit.
    pub fn partial_flush_counter(&self) -> (counter: u8)
        ensures
            counter as nat == self.counter(),
            counter <= PARTIAL_FLUSH_LIMIT,
    {
        proof {
            use_type_invariant(self);
        }
        self.partial_flush_counter
    }

    /// Whether the next refresh must be a full one.
    pub fn partial_flush_limit_reached(&self) -> (reached: bool)
        ensures
            reached == (self.counter() >= PARTIAL_FLUSH_LIMIT),
    {
        self.partial_flush_counter >= PARTIAL_FLUSH_LIMIT
    }

    /// Chooses the next refresh and counts it: a full one once the limit is
    /// reached, which resets the counter, else a quick one, which adds one.
    pub fn flush(&mut self) -> (kind: FlushKind)
        ensures
            kind == flush_kind(old(self).counter()),
            final(self).counter() == counter_after(old(self).counter(), kind),
            final(self).counter() <= PARTIAL_FLUSH_LIMIT,
    {
        proof {
            use_type_invariant(&*self);
        }
        if self.partial_flush_limit_reached() {
            self.flush_full();
            FlushKind::Full
        } else {
            self.partial_flush_counter = self.partial_flush_counter + 1;
            FlushKind::Quick
        }
    }

    /// Records a full refresh made outside `flush` (as when the display is set up).
    pub fn flush_full(&mut self)
        ensures
            final(self).counter() == 0,
    {
        self.partial_flush_counter = 0;
    }
}

/// From a counter within the limit, the display gets exactly
/// `PARTIAL_FLUSH_LIMIT - counter` quick refreshes and then a full one; in
/// particular a fresh display gets a full refresh every `PARTIAL_FLUSH_LIMIT + 1`
/// refreshes.
pub proof fn lemma_full_flush_after_limit(counter: nat)
    requires
        counter <= PARTIAL_FLUSH_LIMIT,
    ensures
        flush_run(counter, (PARTIAL_FLUSH_LIMIT - counter + 1) as nat) == Seq::new(
            (PARTIAL_FLUSH_LIMIT - counter) as nat,
            |i: int| FlushKind::Quick,
        ).push(FlushKind::Full),
    decreases PARTIAL_FLUSH_LIMIT - counter,
{
    let n = (PARTIAL_FLUSH_LIMIT - counter + 1) as nat;
    if counter == PARTIAL_FLUSH_LIMIT {
        assert(flush_run(0, 0) == Seq::<FlushKind>::empty());
        assert(flush_run(counter, n) =~= seq![FlushKind::Full]);
        assert(Seq::new(0, |i: int| FlushKind::Quick).push(FlushKind::Full) =~= seq![FlushKind::Full]);
    } else {
        lemma_full_flush_after_limit(counter + 1);
        assert(flush_run(counter, n) == seq![FlushKind::Quick] + flush_run(counter + 1, (n - 1) as nat));
        assert(seq![FlushKind::Quick] + Seq::new(
            (PARTIAL_FLUSH_LIMIT - (counter + 1)) as nat,
            |i: int| FlushKind::Quick,
        ).push(FlushKind::Full) =~= Seq::new(
            (PARTIAL_FLUSH_LIMIT - counter) as nat,
            |i: int| FlushKind::Quick,
        ).push(FlushKind::Full));
    }
}

/// The `i`-th refresh (from 0) of a display whose counter is `counter` is a
/// full one exactly when `i + counter + 1` is a multiple of
/// `PARTIAL_FLUSH_LIMIT + 1`; all others are quick.
pub proof fn lemma_flush_run_pattern(counter: nat, n: nat)
    requires
        counter <= PARTIAL_FLUSH_LIMIT,
    ensures
        flush_run(counter, n).len() == n,
        forall|i: int|
            0 <= i < n ==> #[trigger] flush_run(counter, n)[i] == if (i + counter + 1) % 32 == 0 {
                FlushKind::Full
            } else {
                FlushKind::Quick
            },
    decreases n,
{
    if n > 0 {
        let kind = flush_kind(counter);
        let next = counter_after(counter, kind);
        lemma_flush_run_pattern(next, (n - 1) as nat);
        let run = flush_run(counter, n);
        assert(run == seq![kind] + flush_run(next, (n - 1) as nat));
        assert forall|i: int| 0 <= i < n implies #[trigger] run[i] == if (i + counter + 1) % 32 == 0 {
            FlushKind::Full
        } else {
            FlushKind::Quick
        } by {
            if i > 0 {
                assert(run[i] == flush_run(next, (n - 1) as nat)[i - 1]);
            }
        }
    }
}

/// Refreshing a display that has just had a full refresh (as `FlushPolicy::new`
/// and `flush_full` leave it): the `k`-th refresh (from 1) is a full one
/// exactly when `k` is a multiple of `PARTIAL_FLUSH_LIMIT + 1` (32), so there
/// are never more than `PARTIAL_FLUSH_LIMIT` quick refreshes in a row.
pub proof fn lemma_every_32nd_flush_is_full(k: nat)
    requires
        k >= 1,
    ensures
        flush_run(0, k)[k - 1] == (if k % 32 == 0 {
            FlushKind::Full
        } else {
            FlushKind::Quick
        }),
{
    lemma_flush_run_pattern(0, k);
    assert(flush_run(0, k)[k - 1] == flush_run(0, k)[(k - 1) as int]);
}

} // verus!
