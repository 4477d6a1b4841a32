use vstd::prelude::*;

verus! {

/// Where a buzzing cycle stands.
#[derive(Clone, Copy, PartialEq, Eq, Structural, Debug)]
pub enum BuzzPhase {
    /// At the top of the loop: the deadline and the button are checked next.
    Check,
    /// The pin is high and half a period has passed: the pin goes low next.
    High,
    /// The pin has just gone low: the button is checked next.
    Low,
    /// Buzzing is over and the pin is low.
    Stopped,
}

/// What the buzzer driver does next.
#[derive(Clone, Copy, PartialEq, Eq, Structural, Debug)]
pub enum BuzzAction {
    /// Drive the pin high, then wait half a period.
    SetHighAndWait,
    /// Drive the pin low.
    SetLow,
    /// Wait half a period with the pin low.
    Wait,
    /// Drive the pin low and stop buzzing.
    Stop,
    /// Nothing: buzzing is over.
    Idle,
}

/// The next phase and action of a cycle in `phase`, given whether the
/// deadline is still ahead and whether the interrupt button is pressed
/// (its input is low). Only the `Check` phase reads the deadline, and only
/// `Check` and `Low` read the button.
pub open spec fn buzz_transition(phase: BuzzPhase, before_end: bool, button_low: bool) -> (
    BuzzPhase,
    BuzzAction,
) {
    match phase {
        BuzzPhase::Check => if !before_end || button_low {
            (BuzzPhase::Stopped, BuzzAction::Stop)
        } else {
            (BuzzPhase::High, BuzzAction::SetHighAndWait)
        },
        BuzzPhase::High => (BuzzPhase::Low, BuzzAction::SetLow),
        BuzzPhase::Low => if button_low {
            (BuzzPhase::Stopped, BuzzAction::Stop)
        } else {
            (BuzzPhase::Check, BuzzAction::Wait)
        },
        BuzzPhase::Stopped => (BuzzPhase::Stopped, BuzzAction::Idle),
    }
}

/// The decisions of a buzzing cycle: the pin toggles every half period until
/// the deadline passes or the interrupt button is pressed, and it is left low.
pub struct BuzzCycle {
    phase: BuzzPhase,
}

impl BuzzCycle {
    pub closed spec fn phase(&self) -> BuzzPhase {
        self.phase
    }

    /// A cycle at the top of its loop.
    pub fn new() -> (cycle: Self)
        ensures
            cycle.phase() == BuzzPhase::Check,
    {
        BuzzCycle { phase: BuzzPhase::Check }
    }

    /// Whether buzzing is over.
    pub fn is_stopped(&self) -> (stopped: bool)
        ensures
            stopped == (self.phase() == BuzzPhase::Stopped),
    {
        self.phase == BuzzPhase::Stopped
    }

    /// Advances the cycle by one step and says what the driver does next.
    pub fn step(&mut self, before_end: bool, button_low: bool) -> (action: BuzzAction)
        ensures
            (final(self).phase(), action) == buzz_transition(old(self).phase(), before_end, button_low),
    {
        let (phase, action) = match self.phase {
            BuzzPhase::Check => if !before_end || button_low {
                (BuzzPhase::Stopped, BuzzAction::Stop)
            } else {
                (BuzzPhase::High, BuzzAction::SetHighAndWait)
            },
            BuzzPhase::High => (BuzzPhase::Low, BuzzAction::SetLow),
            BuzzPhase::Low => if button_low {
                (BuzzPhase::Stopped, BuzzAction::Stop)
            } else {
                (BuzzPhase::Check, BuzzAction::Wait)
            },
            BuzzPhase::Stopped => (BuzzPhase::Stopped, BuzzAction::Idle),
        };
        self.phase = phase;
        action
    }
}

/// Pressing the interrupt button stops buzzing at the next check, and a
/// passed deadline stops it at the top of the loop.
pub proof fn lemma_button_or_deadline_stops(phase: BuzzPhase, before_end: bool, button_low: bool)
    requires
        phase == BuzzPhase::Check || phase == BuzzPhase::Low,
        button_low || (phase == BuzzPhase::Check && !before_end),
    ensures
        buzz_transition(phase, before_end, button_low) == (BuzzPhase::Stopped, BuzzAction::Stop),
{
}

/// Once stopped, a cycle stays stopped and does nothing more.
pub proof fn lemma_stopped_is_final(before_end: bool, button_low: bool)
    ensures
        buzz_transition(BuzzPhase::Stopped, before_end, button_low) == (
            BuzzPhase::Stopped,
            BuzzAction::Idle,
        ),
{
}

/// Every transition into `Stopped` drives the pin low, and the pin is
/// never driven high except to start a half period from the top of the loop
/// while the deadline is ahead and the button is released.
pub proof fn lemma_pin_driven_high_only_when_allowed(
    phase: BuzzPhase,
    before_end: bool,
    button_low: bool,
)
    ensures
        ({
            let (next, action) = buzz_transition(phase, before_end, button_low);
            &&& (next == BuzzPhase::Stopped && phase != BuzzPhase::Stopped) ==> action
                == BuzzAction::Stop
            &&& action == BuzzAction::SetHighAndWait ==> (phase == BuzzPhase::Check && before_end
                && !button_low)
        }),
{
}

/// The phase and the actions of a cycle started in `start` and stepped once
/// per element of `inputs`, each a pair (deadline still ahead, button pressed).
pub open spec fn buzz_run(start: BuzzPhase, inputs: Seq<(bool, bool)>) -> (BuzzPhase, Seq<BuzzAction>)
    decreases inputs.len(),
{
    if inputs.len() == 0 {
        (start, Seq::empty())
    } else {
        let (phase, actions) = buzz_run(start, inputs.drop_last());
        let (next, action) = buzz_transition(phase, inputs.last().0, inputs.last().1);
        (next, actions.push(action))
    }
}

/// `n` full periods: pin high and wait, pin low, wait.
pub open spec fn buzz_periods(n: nat) -> Seq<BuzzAction>
    decreases n,
{
    if n == 0 {
        Seq::empty()
    } else {
        buzz_periods((n - 1) as nat) + seq![
            BuzzAction::SetHighAndWait,
            BuzzAction::SetLow,
            BuzzAction::Wait,
        ]
    }
}

/// `k` steps that do nothing.
pub open spec fn idle_steps(k: nat) -> Seq<BuzzAction> {
    Seq::new(k, |i: int| BuzzAction::Idle)
}

/// The actions of a run from the top of the loop that ends in `phase`.
pub open spec fn run_shape(phase: BuzzPhase, actions: Seq<BuzzAction>, n: nat, k: nat) -> bool {
    match phase {
        BuzzPhase::Check => actions == buzz_periods(n),
        BuzzPhase::High => actions == buzz_periods(n) + seq![BuzzAction::SetHighAndWait],
        BuzzPhase::Low => actions == buzz_periods(n) + seq![
            BuzzAction::SetHighAndWait,
            BuzzAction::SetLow,
        ],
        BuzzPhase::Stopped => actions == buzz_periods(n) + seq![BuzzAction::Stop] + idle_steps(k)
            || actions == buzz_periods(n) + seq![
            BuzzAction::SetHighAndWait,
            BuzzAction::SetLow,
            BuzzAction::Stop,
        ] + idle_steps(k),
    }
}

/// The pin writes of a sequence of actions (`true` = high, `false` = low).
pub open spec fn pin_writes(actions: Seq<BuzzAction>) -> Seq<bool>
    decreases actions.len(),
{
    if actions.len() == 0 {
        Seq::empty()
    } else {
        let rest = pin_writes(actions.drop_last());
        match actions.last() {
            BuzzAction::SetHighAndWait => rest.push(true),
            BuzzAction::SetLow => rest.push(false),
            BuzzAction::Stop => rest.push(false),
            _ => rest,
        }
    }
}

/// `n` high/low pairs of pin writes.
pub open spec fn high_low_pairs(n: nat) -> Seq<bool>
    decreases n,
{
    if n == 0 {
        Seq::empty()
    } else {
        high_low_pairs((n - 1) as nat) + seq![true, false]
    }
}

proof fn lemma_pin_writes_append(a: Seq<BuzzAction>, b: Seq<BuzzAction>)
    ensures
        pin_writes(a + b) == pin_writes(a) + pin_writes(b),
    decreases b.len(),
{
    if b.len() == 0 {
        assert(a + b =~= a);
        assert(pin_writes(a) + pin_writes(b) =~= pin_writes(a));
    } else {
        lemma_pin_writes_append(a, b.drop_last());
        assert((a + b).drop_last() =~= a + b.drop_last());
        assert((a + b).last() == b.last());
    }
}

proof fn lemma_pin_writes_periods(n: nat)
    ensures
        pin_writes(buzz_periods(n)) == high_low_pairs(n),
    decreases n,
{
    if n > 0 {
        lemma_pin_writes_periods((n - 1) as nat);
        let p = seq![BuzzAction::SetHighAndWait, BuzzAction::SetLow, BuzzAction::Wait];
        lemma_pin_writes_append(buzz_periods((n - 1) as nat), p);
        assert(p.drop_last() =~= seq![BuzzAction::SetHighAndWait, BuzzAction::SetLow]);
        assert(p.drop_last().drop_last() =~= seq![BuzzAction::SetHighAndWait]);
        assert(p.drop_last().drop_last().drop_last() =~= Seq::<BuzzAction>::empty());
        assert(pin_writes(p) =~= seq![true, false]) by {
            reveal_with_fuel(pin_writes, 4);
        }
    }
}

proof fn lemma_pin_writes_idle(k: nat)
    ensures
        pin_writes(idle_steps(k)) == Seq::<bool>::empty(),
    decreases k,
{
    if k > 0 {
        lemma_pin_writes_idle((k - 1) as nat);
        assert(idle_steps(k).drop_last() =~= idle_steps((k - 1) as nat));
    }
}

/// Whatever the deadline and button readings, a run from the top of the
/// loop is a number of full periods (pin high and wait, pin low, wait),
/// possibly followed by an unfinished period; once it stops (after a check
/// of the deadline or the button) it drives the pin low once and then does
/// nothing more.
pub proof fn lemma_buzz_run_shape(inputs: Seq<(bool, bool)>)
    ensures
        exists|n: nat, k: nat|
            run_shape(buzz_run(BuzzPhase::Check, inputs).0, buzz_run(BuzzPhase::Check, inputs).1, n, k),
    decreases inputs.len(),
{
    let (phase, actions) = buzz_run(BuzzPhase::Check, inputs);
    if inputs.len() == 0 {
        assert(run_shape(phase, actions, 0, 0));
    } else {
        let rest = inputs.drop_last();
        lemma_buzz_run_shape(rest);
        let (p, acts) = buzz_run(BuzzPhase::Check, rest);
        let (n, k) = choose|n: nat, k: nat| run_shape(p, acts, n, k);
        let (be, bl) = inputs.last();
        let prefix_hl = seq![BuzzAction::SetHighAndWait, BuzzAction::SetLow];
        match p {
            BuzzPhase::Check => {
                if !be || bl {
                    assert(actions =~= buzz_periods(n) + seq![BuzzAction::Stop] + idle_steps(0));
                    assert(run_shape(phase, actions, n, 0));
                } else {
                    assert(actions =~= buzz_periods(n) + seq![BuzzAction::SetHighAndWait]);
                    assert(run_shape(phase, actions, n, 0));
                }
            },
            BuzzPhase::High => {
                assert(actions =~= buzz_periods(n) + prefix_hl);
                assert(run_shape(phase, actions, n, 0));
            },
            BuzzPhase::Low => {
                if bl {
                    assert(actions =~= buzz_periods(n) + seq![
                        BuzzAction::SetHighAndWait,
                        BuzzAction::SetLow,
                        BuzzAction::Stop,
                    ] + idle_steps(0));
                    assert(run_shape(phase, actions, n, 0));
                } else {
                    assert(actions =~= buzz_periods(n + 1));
                    assert(run_shape(phase, actions, n + 1, 0));
                }
            },
            BuzzPhase::Stopped => {
                assert(idle_steps(k).push(BuzzAction::Idle) =~= idle_steps(k + 1));
                if acts == buzz_periods(n) + seq![BuzzAction::Stop] + idle_steps(k) {
                    assert(actions =~= buzz_periods(n) + seq![BuzzAction::Stop] + idle_steps(k + 1));
                } else {
                    assert(actions =~= buzz_periods(n) + seq![
                        BuzzAction::SetHighAndWait,
                        BuzzAction::SetLow,
                        BuzzAction::Stop,
                    ] + idle_steps(k + 1));
                }
                assert(run_shape(phase, actions, n, k + 1));
            },
        }
    }
}

/// Whatever the readings, once a run from the top of the loop has stopped,
/// its pin writes are `n` high/low pairs followed by one low, so the pin is
/// left low; before it stops, they are high/low pairs, possibly followed by
/// one high (while the pin is high, in phase `High`).
pub proof fn lemma_buzz_pin_writes(inputs: Seq<(bool, bool)>)
    ensures
        ({
            let (phase, actions) = buzz_run(BuzzPhase::Check, inputs);
            &&& phase == BuzzPhase::Stopped ==> exists|n: nat|
                pin_writes(actions) == high_low_pairs(n).push(false)
            &&& phase == BuzzPhase::High ==> exists|n: nat|
                pin_writes(actions) == high_low_pairs(n).push(true)
            &&& (phase == BuzzPhase::Check || phase == BuzzPhase::Low) ==> exists|n: nat|
                pin_writes(actions) == high_low_pairs(n)
        }),
{
    lemma_buzz_run_shape(inputs);
    let (phase, actions) = buzz_run(BuzzPhase::Check, inputs);
    let (n, k) = choose|n: nat, k: nat| run_shape(phase, actions, n, k);
    lemma_pin_writes_periods(n);
    lemma_pin_writes_idle(k);
    let h = seq![BuzzAction::SetHighAndWait];
    let hl = seq![BuzzAction::SetHighAndWait, BuzzAction::SetLow];
    let hls = seq![BuzzAction::SetHighAndWait, BuzzAction::SetLow, BuzzAction::Stop];
    let s = seq![BuzzAction::Stop];
    assert(pin_writes(h) =~= seq![true]) by {
        reveal_with_fuel(pin_writes, 2);
        assert(h.drop_last() =~= Seq::<BuzzAction>::empty());
    }
    assert(pin_writes(hl) =~= seq![true, false]) by {
        reveal_with_fuel(pin_writes, 3);
        assert(hl.drop_last() =~= h);
        assert(h.drop_last() =~= Seq::<BuzzAction>::empty());
    }
    assert(pin_writes(s) =~= seq![false]) by {
        reveal_with_fuel(pin_writes, 2);
        assert(s.drop_last() =~= Seq::<BuzzAction>::empty());
    }
    assert(pin_writes(hls) =~= seq![true, false, false]) by {
        reveal_with_fuel(pin_writes, 4);
        assert(hls.drop_last() =~= hl);
        assert(hl.drop_last() =~= h);
        assert(h.drop_last() =~= Seq::<BuzzAction>::empty());
    }
    match phase {
        BuzzPhase::Check => {
            assert(pin_writes(actions) == high_low_pairs(n));
        },
        BuzzPhase::High => {
            lemma_pin_writes_append(buzz_periods(n), h);
            assert(pin_writes(actions) =~= high_low_pairs(n).push(true));
        },
        BuzzPhase::Low => {
            lemma_pin_writes_append(buzz_periods(n), hl);
            assert(high_low_pairs(n + 1) == high_low_pairs(n) + seq![true, false]);
            assert(pin_writes(actions) =~= high_low_pairs(n + 1));
        },
        BuzzPhase::Stopped => {
            if actions == buzz_periods(n) + s + idle_steps(k) {
                lemma_pin_writes_append(buzz_periods(n), s);
                lemma_pin_writes_append(buzz_periods(n) + s, idle_steps(k));
                assert(pin_writes(actions) =~= high_low_pairs(n).push(false));
            } else {
                lemma_pin_writes_append(buzz_periods(n), hls);
                lemma_pin_writes_append(buzz_periods(n) + hls, idle_steps(k));
                assert(high_low_pairs(n + 1) == high_low_pairs(n) + seq![true, false]);
                assert(pin_writes(actions) =~= high_low_pairs(n + 1).push(false));
            }
        },
    }
}

} // verus!
