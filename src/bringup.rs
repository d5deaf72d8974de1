use vstd::prelude::*;

use crate::color::black;

verus! {

/// Logic level of an output line.
#[derive(Clone, Copy, Debug, PartialEq, Eq, Structural)]
pub enum Level {
    Low,
    High,
}

/// Where the panel stands in its bring-up.
///
/// The controller's own command exchange (geometry window, memory-access
/// orientation, color inversion, pixel format, sleep-out and display-on) is
/// one step, `Configuring`, carried out by the controller driver.
#[derive(Clone, Copy, Debug, PartialEq, Eq, Structural)]
pub enum Phase {
    Unpowered,
    ResetAsserted,
    ResetReleased,
    Configuring,
    BacklightPending,
    Ready,
    Faulted,
}

/// What the hardware side reports after performing an action.
#[derive(Clone, Copy, Debug, PartialEq, Eq, Structural)]
pub enum Outcome {
    Done,
    Failed,
}

/// One thing for the hardware side to do next.
#[derive(Clone, Copy, Debug, PartialEq, Eq, Structural)]
pub enum Action {
    /// Drive the panel's reset line.
    SetReset(Level),
    /// Drive the backlight-enable line.
    SetBacklight(Level),
    /// Block for at least this many milliseconds.
    DelayMs(u32),
    /// Configure the SPI bus and bind the chip-select line to it.
    OpenBus,
    /// Run the controller's initialization command sequence.
    InitController,
    /// Fill the whole panel with one RGB565 color.
    Clear(u16),
    /// Render the text line.
    DrawText,
    /// Stop all forward progress for good.
    Halt,
}

/// High phase of the reset line before the pulse, in ms.
pub const RESET_HIGH_MS: u32 = 10;
/// Length of the active-low reset pulse, in ms.
pub const RESET_LOW_MS: u32 = 10;
/// Wait after releasing reset before the controller takes commands, in ms.
pub const POST_RESET_MS: u32 = 120;
/// Wait after initialization before the backlight goes on, in ms.
pub const INIT_SETTLE_MS: u32 = 100;
/// Wait after the backlight goes on, in ms.
pub const BACKLIGHT_SETTLE_MS: u32 = 100;
/// Period of the idle loop once everything is drawn, in ms.
pub const IDLE_MS: u32 = 1000;
/// Index of the first step of the idle loop.
pub const IDLE_STEP: usize = 13;

/// The fixed program of the system: step `k` when nothing has failed.
pub open spec fn script(k: nat) -> Action {
    if k == 0 {
        Action::SetReset(Level::High)
    } else if k == 1 {
        Action::DelayMs(RESET_HIGH_MS)
    } else if k == 2 {
        Action::OpenBus
    } else if k == 3 {
        Action::SetReset(Level::Low)
    } else if k == 4 {
        Action::DelayMs(RESET_LOW_MS)
    } else if k == 5 {
        Action::SetReset(Level::High)
    } else if k == 6 {
        Action::DelayMs(POST_RESET_MS)
    } else if k == 7 {
        Action::InitController
    } else if k == 8 {
        Action::DelayMs(INIT_SETTLE_MS)
    } else if k == 9 {
        Action::SetBacklight(Level::High)
    } else if k == 10 {
        Action::DelayMs(BACKLIGHT_SETTLE_MS)
    } else if k == 11 {
        Action::Clear(0)
    } else if k == 12 {
        Action::DrawText
    } else {
        Action::DelayMs(IDLE_MS)
    }
}

/// Actions that talk to the bus or the controller and so may fail.
pub open spec fn fallible(a: Action) -> bool {
    match a {
        Action::OpenBus | Action::InitController | Action::Clear(_) | Action::DrawText => true,
        _ => false,
    }
}

/// Actions that stream pixel data to the panel.
pub open spec fn writes_pixels(a: Action) -> bool {
    match a {
        Action::Clear(_) | Action::DrawText => true,
        _ => false,
    }
}

/// Step `k` of the fixed program.
pub fn script_step(k: usize) -> (a: Action)
    ensures
        a == script(k as nat),
{
    if k == 0 {
        Action::SetReset(Level::High)
    } else if k == 1 {
        Action::DelayMs(RESET_HIGH_MS)
    } else if k == 2 {
        Action::OpenBus
    } else if k == 3 {
        Action::SetReset(Level::Low)
    } else if k == 4 {
        Action::DelayMs(RESET_LOW_MS)
    } else if k == 5 {
        Action::SetReset(Level::High)
    } else if k == 6 {
        Action::DelayMs(POST_RESET_MS)
    } else if k == 7 {
        Action::InitController
    } else if k == 8 {
        Action::DelayMs(INIT_SETTLE_MS)
    } else if k == 9 {
        Action::SetBacklight(Level::High)
    } else if k == 10 {
        Action::DelayMs(BACKLIGHT_SETTLE_MS)
    } else if k == 11 {
        Action::Clear(black())
    } else if k == 12 {
        Action::DrawText
    } else {
        Action::DelayMs(IDLE_MS)
    }
}

/// The bring-up state machine: a position in the fixed program and whether
/// a step has failed.
#[derive(Clone, Copy, Debug, PartialEq, Eq, Structural)]
pub struct BringUp {
    pub step: usize,
    pub faulted: bool,
}

impl BringUp {
    pub open spec fn initial() -> BringUp {
        BringUp { step: 0, faulted: false }
    }

    /// The action this state asks for.
    pub open spec fn spec_next(self) -> Action {
        if self.faulted {
            Action::Halt
        } else {
            script(self.step as nat)
        }
    }

    /// The state after the current action ended with `o`.
    pub open spec fn spec_advance(self, o: Outcome) -> BringUp {
        if self.faulted {
            self
        } else if fallible(script(self.step as nat)) && o == Outcome::Failed {
            BringUp { step: self.step, faulted: true }
        } else if self.step >= IDLE_STEP {
            self
        } else {
            BringUp { step: (self.step + 1) as usize, faulted: false }
        }
    }

    pub open spec fn spec_phase(self) -> Phase {
        if self.faulted {
            Phase::Faulted
        } else if self.step == 0 {
            Phase::Unpowered
        } else if self.step <= 5 {
            Phase::ResetAsserted
        } else if self.step == 6 {
            Phase::ResetReleased
        } else if self.step == 7 {
            Phase::Configuring
        } else if self.step <= 9 {
            Phase::BacklightPending
        } else {
            Phase::Ready
        }
    }

    /// A state machine at the start of bring-up, before any line is driven.
    pub fn new() -> (s: BringUp)
        ensures
            s == BringUp::initial(),
            s.spec_phase() == Phase::Unpowered,
    {
        BringUp { step: 0, faulted: false }
    }

    /// The action to perform now: the current step of the program, or
    /// `Halt` once a step has failed.
    pub fn next_action(&self) -> (a: Action)
        ensures
            a == self.spec_next(),
    {
        if self.faulted {
            Action::Halt
        } else {
            script_step(self.step)
        }
    }

    /// Takes the outcome of the action just performed. A failed bus or
    /// controller action moves to `Faulted` for good; any other outcome
    /// moves to the next step, and the idle step repeats forever.
    pub fn advance(&mut self, o: Outcome)
        ensures
            *final(self) == old(self).spec_advance(o),
    {
        if self.faulted {
            return;
        }
        let a = script_step(self.step);
        let can_fail = match a {
            Action::OpenBus | Action::InitController | Action::Clear(_) | Action::DrawText => true,
            _ => false,
        };
        if can_fail && o == Outcome::Failed {
            self.faulted = true;
        } else if self.step < IDLE_STEP {
            self.step = self.step + 1;
        }
    }

    /// The phase of bring-up this state stands in.
    pub fn phase(&self) -> (p: Phase)
        ensures
            p == self.spec_phase(),
    {
        if self.faulted {
            Phase::Faulted
        } else if self.step == 0 {
            Phase::Unpowered
        } else if self.step <= 5 {
            Phase::ResetAsserted
        } else if self.step == 6 {
            Phase::ResetReleased
        } else if self.step == 7 {
            Phase::Configuring
        } else if self.step <= 9 {
            Phase::BacklightPending
        } else {
            Phase::Ready
        }
    }
}

/// The state after the first `k` outcomes of `o`, starting from the initial
/// state.
pub open spec fn state_after(o: Seq<Outcome>, k: nat) -> BringUp
    decreases k,
{
    if k == 0 {
        BringUp::initial()
    } else {
        state_after(o, (k - 1) as nat).spec_advance(o[k - 1])
    }
}

/// The actions issued when the hardware answers the `i`-th of them with
/// `o[i]`.
pub open spec fn run(o: Seq<Outcome>) -> Seq<Action> {
    Seq::new(o.len(), |i: int| state_after(o, i as nat).spec_next())
}

/// Drives the state machine with a fixed list of outcomes and returns every
/// action it issued, one per outcome.
pub fn bring_up_trace(outcomes: &Vec<Outcome>) -> (r: Vec<Action>)
    ensures
        r@ == run(outcomes@),
{
    let mut s = BringUp::new();
    let mut r: Vec<Action> = Vec::new();
    let mut i: usize = 0;
    while i < outcomes.len()
        invariant
            i <= outcomes.len(),
            s == state_after(outcomes@, i as nat),
            r@.len() == i,
            forall|j: int| 0 <= j < i ==> r@[j] == state_after(outcomes@, j as nat).spec_next(),
        decreases outcomes.len() - i,
    {
        let a = s.next_action();
        r.push(a);
        s.advance(outcomes[i]);
        i = i + 1;
    }
    assert(r@ =~= run(outcomes@));
    r
}

/// Once faulted, the state machine stays faulted.
proof fn lemma_fault_persists(o: Seq<Outcome>, i: nat, j: nat)
    requires
        i <= j,
        state_after(o, i).faulted,
    ensures
        state_after(o, j).faulted,
    decreases j - i,
{
    if i < j {
        lemma_fault_persists(o, i, (j - 1) as nat);
    }
}

/// Until a step fails, the state machine walks the program one step per
/// outcome, stopping at the idle step.
proof fn lemma_unfaulted_step(o: Seq<Outcome>, i: nat)
    requires
        !state_after(o, i).faulted,
    ensures
        state_after(o, i).step == if i < IDLE_STEP { i } else { IDLE_STEP as nat },
    decreases i,
{
    if i > 0 {
        let p = state_after(o, (i - 1) as nat);
        if p.faulted {
            lemma_fault_persists(o, (i - 1) as nat, i);
        }
        lemma_unfaulted_step(o, (i - 1) as nat);
    }
}

/// The reset line goes high for at least 10 ms, then low for at least 10 ms,
/// then high again followed by a wait of at least 120 ms, and it is driven
/// nowhere else in the program. Delays are lower bounds kept by blocking, so
/// this order holds whatever the speed of execution; and in any run the
/// actions issued before a failure are exactly the program's steps.
pub proof fn lemma_reset_sequence(o: Seq<Outcome>)
    ensures
        script(0) == Action::SetReset(Level::High),
        script(1) matches Action::DelayMs(d) && d >= 10,
        script(3) == Action::SetReset(Level::Low),
        script(4) matches Action::DelayMs(d) && d >= 10,
        script(5) == Action::SetReset(Level::High),
        script(6) matches Action::DelayMs(d) && d >= 120,
        forall|k: nat| k != 0 && k != 3 && k != 5 ==> !(script(k) is SetReset),
        forall|i: int|
            0 <= i < o.len() && i <= IDLE_STEP && !state_after(o, i as nat).faulted
                ==> run(o)[i] == script(i as nat),
{
    assert forall|i: int|
        0 <= i < o.len() && i <= IDLE_STEP && !state_after(o, i as nat).faulted
            implies run(o)[i] == script(i as nat) by {
        lemma_unfaulted_step(o, i as nat);
    }
}

/// In every run, the backlight is switched on only after the controller's
/// initialization was issued and reported success.
pub proof fn lemma_backlight_after_init(o: Seq<Outcome>)
    ensures
        forall|j: int|
            0 <= j < o.len() && run(o)[j] == Action::SetBacklight(Level::High) ==> exists|i: int|
                0 <= i < j && run(o)[i] == Action::InitController && o[i] == Outcome::Done,
{
    assert forall|j: int|
        0 <= j < o.len() && run(o)[j] == Action::SetBacklight(Level::High) implies exists|i: int|
            0 <= i < j && run(o)[i] == Action::InitController && o[i] == Outcome::Done by {
        let sj = state_after(o, j as nat);
        assert(!sj.faulted);
        lemma_unfaulted_step(o, j as nat);
        assert(j == 9);
        if state_after(o, 7).faulted {
            lemma_fault_persists(o, 7, 9);
        }
        if state_after(o, 8).faulted {
            lemma_fault_persists(o, 8, 9);
        }
        lemma_unfaulted_step(o, 7);
        assert(run(o)[7] == Action::InitController);
        assert(o[7] == Outcome::Done);
    }
}

/// In every run, once a bus or controller action has failed, the state
/// machine is `Faulted` and asks for nothing but `Halt`: in particular no
/// pixel data is sent afterwards.
pub proof fn lemma_failure_halts(o: Seq<Outcome>)
    ensures
        forall|i: int, j: int|
            0 <= i < j < o.len() && fallible(run(o)[i]) && o[i] == Outcome::Failed ==> {
                &&& run(o)[j] == Action::Halt
                &&& !writes_pixels(run(o)[j])
                &&& state_after(o, j as nat).spec_phase() == Phase::Faulted
            },
{
    assert forall|i: int, j: int|
        0 <= i < j < o.len() && fallible(run(o)[i]) && o[i] == Outcome::Failed implies {
            &&& run(o)[j] == Action::Halt
            &&& !writes_pixels(run(o)[j])
            &&& state_after(o, j as nat).spec_phase() == Phase::Faulted
        } by {
        assert(state_after(o, (i + 1) as nat).faulted);
        lemma_fault_persists(o, (i + 1) as nat, j as nat);
    }
}

/// The state after `k` outcomes depends on those `k` outcomes alone.
proof fn lemma_state_prefix(o1: Seq<Outcome>, o2: Seq<Outcome>, k: nat)
    requires
        k <= o1.len(),
        k <= o2.len(),
        o1.take(k as int) == o2.take(k as int),
    ensures
        state_after(o1, k) == state_after(o2, k),
    decreases k,
{
    if k > 0 {
        assert(o1.take(k - 1) == o1.take(k as int).take(k - 1));
        assert(o2.take(k - 1) == o2.take(k as int).take(k - 1));
        lemma_state_prefix(o1, o2, (k - 1) as nat);
        assert(o1[k - 1] == o1.take(k as int)[k - 1]);
        assert(o2[k - 1] == o2.take(k as int)[k - 1]);
    }
}

/// Bring-up is repeatable: two runs that receive the same hardware
/// responses issue the same actions, step for step, up to the first point
/// where the responses differ.
pub proof fn lemma_bring_up_repeatable(o1: Seq<Outcome>, o2: Seq<Outcome>, k: nat)
    requires
        k <= o1.len(),
        k <= o2.len(),
        o1.take(k as int) == o2.take(k as int),
    ensures
        run(o1).take(k as int) == run(o2).take(k as int),
{
    assert forall|i: int| 0 <= i < k implies run(o1)[i] == run(o2)[i] by {
        assert(o1.take(i) == o1.take(k as int).take(i));
        assert(o2.take(i) == o2.take(k as int).take(i));
        lemma_state_prefix(o1, o2, i as nat);
    }
    assert(run(o1).take(k as int) =~= run(o2).take(k as int));
}

} // verus!
