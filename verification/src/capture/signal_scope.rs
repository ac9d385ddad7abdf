//! The recorder's own control signals while a capture runs.
use vstd::prelude::*;
use vstd::string::*;

use crate::capture::facts::RecorderStop;
use crate::io;
use crate::io::with_context;
use crate::numbers;
use crate::text;
use crate::views;

verus! {

broadcast use crate::views::group_views;

/// The state of a control signal before the recorder changed it.
#[derive(Debug, Clone, Copy, PartialEq, Eq, Structural)]
pub struct SavedSignal {
    /// The signal.
    pub number: i32,
    /// Whether it was ignored.
    pub ignored: bool,
    /// Whether it was blocked.
    pub blocked: bool,
}

/// What came of reading one pending signal.
#[derive(Debug, PartialEq, Eq)]
pub enum SignalRead {
    /// A signal was read.
    Signal(i32),
    /// The read was interrupted.
    Interrupted,
    /// No signal is pending.
    WouldBlock,
    /// The read failed, and why.
    Failed(String),
    /// Less than a signal was read.
    Short(u64),
}

/// What a [`SignalRead`] says.
pub enum SignalReadView {
    /// A signal was read.
    Signal(i32),
    /// The read was interrupted.
    Interrupted,
    /// No signal is pending.
    WouldBlock,
    /// The read failed, and why.
    Failed(Seq<char>),
    /// Less than a signal was read.
    Short(u64),
}

impl View for SignalRead {
    type V = SignalReadView;

    open spec fn view(&self) -> SignalReadView {
        match self {
            SignalRead::Signal(signal) => SignalReadView::Signal(*signal),
            SignalRead::Interrupted => SignalReadView::Interrupted,
            SignalRead::WouldBlock => SignalReadView::WouldBlock,
            SignalRead::Failed(message) => SignalReadView::Failed(message@),
            SignalRead::Short(count) => SignalReadView::Short(*count),
        }
    }
}

/// What the recorder has seen of its control signals.
///
/// The first observed signal stays. After capture facts freeze, late signals stay
/// pending for the recorder's original disposition.
pub struct SignalScope {
    /// The signals as they were.
    pub saved: Vec<SavedSignal>,
    /// The first signal that was observed.
    pub first_observed: Option<i32>,
    /// Whether no more signals are observed.
    pub frozen: bool,
    /// Whether the signals are as they were.
    pub restored: bool,
}

/// What a [`SignalScope`] holds.
#[verifier::ext_equal]
pub struct ScopeView {
    /// The signals as they were.
    pub saved: Seq<SavedSignal>,
    /// The first signal that was observed.
    pub first_observed: Option<i32>,
    /// Whether no more signals are observed.
    pub frozen: bool,
    /// Whether the signals are as they were.
    pub restored: bool,
}

impl View for SignalScope {
    type V = ScopeView;

    open spec fn view(&self) -> ScopeView {
        ScopeView {
            saved: self.saved@,
            first_observed: self.first_observed,
            frozen: self.frozen,
            restored: self.restored,
        }
    }
}

impl ScopeView {
    /// The scope once a read has come back.
    pub open spec fn after(self, read: SignalReadView) -> ScopeView {
        match read {
            SignalReadView::Signal(signal) if self.first_observed is None => ScopeView {
                first_observed: Some(signal),
                ..self
            },
            _ => self,
        }
    }

    /// Whether a signal would not end the collector if it were passed on: it was
    /// blocked or ignored, and the collector inherits that.
    pub open spec fn direct(self, signal: i32) -> bool {
        exists|i: int|
            0 <= i < self.saved.len() && (#[trigger] self.saved[i]).number == signal && (
            forall|j: int| 0 <= j < i ==> (#[trigger] self.saved[j]).number != signal) && (
            self.saved[i].blocked || self.saved[i].ignored)
    }

    /// Whether the recorder was stopped.
    pub open spec fn stop(self) -> RecorderStop {
        match self.first_observed {
            Some(signal) => RecorderStop::Signal(signal),
            None => RecorderStop::NoSignal,
        }
    }
}

/// Whether a read is to be followed by another.
pub open spec fn reads_again(read: SignalReadView) -> bool {
    read is Signal || read is Interrupted
}

/// What is wrong with a read.
pub open spec fn read_fault(read: SignalReadView) -> Option<Seq<char>> {
    match read {
        SignalReadView::Failed(message) => Some(io::context("read recorder signalfd"@, message)),
        SignalReadView::Short(count) => Some(
            "short read from recorder signalfd: "@ + numbers::decimal(count as nat) + " bytes"@,
        ),
        _ => None,
    }
}

impl SignalScope {
    /// Starts to observe signals.
    pub fn new(saved: Vec<SavedSignal>) -> (r: SignalScope)
        ensures
            r@ == (ScopeView {
                saved: saved@,
                first_observed: None,
                frozen: false,
                restored: false,
            }),
    {
        SignalScope { saved, first_observed: None, frozen: false, restored: false }
    }

    /// Says whether signals may still be read: reading uses them up, and those that come
    /// after the facts are frozen are the caller's.
    pub fn may_read(&self) -> (r: bool)
        ensures
            r == !self@.frozen,
    {
        !self.frozen
    }

    /// Notes what came of reading one pending signal, and says whether to read
    /// another.
    pub fn observe(&mut self, read: SignalRead) -> (r: Result<bool, String>)
        requires
            !old(self)@.frozen,
        ensures
            final(self)@ == old(self)@.after(read@),
            match r {
                Ok(again) => read_fault(read@) is None && again == reads_again(read@),
                Err(message) => read_fault(read@) == Some(message@),
            },
    {
        match read {
            SignalRead::Signal(signal) => {
                if self.first_observed.is_none() {
                    self.first_observed = Some(signal);
                }
                Ok(true)
            },
            SignalRead::Interrupted => Ok(true),
            SignalRead::WouldBlock => Ok(false),
            SignalRead::Failed(message) => Err(
                with_context("read recorder signalfd", message.as_str()),
            ),
            SignalRead::Short(count) => {
                let mut s: String = "short read from recorder signalfd: ".to_owned();
                s.append(numbers::decimal_string(count as u128).as_str());
                s.append(" bytes");
                Err(s)
            },
        }
    }

    /// Says whether the recorder was stopped.
    pub fn recorder_stop(&self) -> (r: RecorderStop)
        ensures
            r == self@.stop(),
    {
        match self.first_observed {
            Some(signal) => RecorderStop::Signal(signal),
            None => RecorderStop::NoSignal,
        }
    }

    /// Says whether a signal would not end the collector if it were passed on.
    pub fn requires_direct_termination(&self, signal: i32) -> (r: bool)
        ensures
            r == self@.direct(signal),
    {
        for i in 0..self.saved.len()
            invariant
                forall|j: int| 0 <= j < i ==> (#[trigger] self@.saved[j]).number != signal,
        {
            let saved: SavedSignal = self.saved[i];
            assert(self@.saved[i as int] == saved);
            if saved.number == signal {
                return saved.blocked || saved.ignored;
            }
        }
        false
    }

    /// Ends the observation of signals; those that come later stay pending.
    pub fn freeze(&mut self)
        ensures
            final(self)@ == (ScopeView { frozen: true, ..old(self)@ }),
    {
        self.frozen = true;
    }

    /// Notes that the signals are as they were.
    pub fn mark_restored(&mut self)
        ensures
            final(self)@ == (ScopeView { restored: true, ..old(self)@ }),
    {
        self.restored = true;
    }
}

/// What failed of a restoration, in order.
pub open spec fn restore_faults(
    drain: Option<Seq<char>>,
    actions: Option<Seq<char>>,
    mask: Option<Seq<char>>,
) -> Seq<Seq<char>> {
    let first = match drain {
        Some(error) => seq![io::context("drain signalfd"@, error)],
        None => Seq::empty(),
    };
    let second = match actions {
        Some(error) => seq![io::context("restore actions"@, error)],
        None => Seq::empty(),
    };
    let third = match mask {
        Some(error) => seq![io::context("restore mask"@, error)],
        None => Seq::empty(),
    };
    first + second + third
}

/// Adds an error behind some words, if there is one.
fn push_error(errors: &mut Vec<String>, words: &str, error: &Option<String>)
    ensures
        views::each(final(errors)@) == views::each(old(errors)@) + (match views::opt(*error) {
            Some(e) => seq![io::context(words@, e)],
            None => Seq::empty(),
        }),
{
    let ghost before = views::each(errors@);
    match error {
        Some(e) => {
            errors.push(with_context(words, e.as_str()));
            assert(views::each(errors@) =~= before + seq![io::context(words@, e@)]);
        },
        None => {
            assert(views::each(errors@) =~= before + Seq::<Seq<char>>::empty());
        },
    }
}

/// Combines what failed of a restoration.
pub fn combine_signal_restore_errors(
    drain: Option<String>,
    actions: Option<String>,
    mask: Option<String>,
) -> (r: Result<(), String>)
    ensures
        ({
            let faults = restore_faults(views::opt(drain), views::opt(actions), views::opt(mask));
            match r {
                Ok(_) => faults.len() == 0,
                Err(message) => faults.len() > 0 && message@ == text::joined_upto(
                    faults,
                    "; "@,
                    faults.len() as int,
                ),
            }
        }),
{
    let mut errors: Vec<String> = Vec::new();
    push_error(&mut errors, "drain signalfd", &drain);
    push_error(&mut errors, "restore actions", &actions);
    push_error(&mut errors, "restore mask", &mask);
    proof {
        let faults = restore_faults(views::opt(drain), views::opt(actions), views::opt(mask));
        assert(views::each(errors@) =~= faults);
        assert(views::each(errors@).len() == errors@.len());
    }
    if errors.len() == 0 {
        Ok(())
    } else {
        Err(text::join(&errors, "; "))
    }
}

/// The texts for actions that could not be restored.
pub open spec fn action_faults(failures: Seq<(i32, String)>) -> Seq<Seq<char>> {
    Seq::new(
        failures.len(),
        |i: int| io::context("signal "@ + numbers::signed(failures[i].0 as int), failures[i].1@),
    )
}

/// Gives the error for the actions that could not be restored.
pub fn restore_signal_actions(failures: &Vec<(i32, String)>) -> (r: Result<(), String>)
    ensures
        match r {
            Ok(_) => failures@.len() == 0,
            Err(message) => failures@.len() > 0 && message@ == "restore control signal actions: "@
                + text::joined_upto(
                action_faults(failures@),
                "; "@,
                failures@.len() as int,
            ),
        },
{
    if failures.len() == 0 {
        return Ok(());
    }
    let mut errors: Vec<String> = Vec::new();
    for i in 0..failures.len()
        invariant
            views::each(errors@) == action_faults(failures@).take(i as int),
    {
        let mut words: String = "signal ".to_owned();
        words.append(numbers::signed_string(failures[i].0).as_str());
        errors.push(with_context(words.as_str(), failures[i].1.as_str()));
        assert(action_faults(failures@).take(i + 1) =~= action_faults(failures@).take(
            i as int,
        ).push(action_faults(failures@)[i as int]));
    }
    assert(action_faults(failures@).take(failures@.len() as int) =~= action_faults(failures@));
    let mut s: String = "restore control signal actions: ".to_owned();
    s.append(text::join(&errors, "; ").as_str());
    Err(s)
}

/// The text for an optional error.
pub open spec fn or_ok(error: Option<Seq<char>>) -> Seq<char> {
    match error {
        Some(e) => e,
        None => "ok"@,
    }
}

/// A setup error with what failed of its rollback.
pub open spec fn rollback_text(
    primary: Seq<char>,
    actions: Option<Seq<char>>,
    mask: Option<Seq<char>>,
) -> Seq<char> {
    if actions is None && mask is None {
        primary
    } else {
        primary + "; signal setup rollback failed: actions="@ + or_ok(actions) + "; mask="@ + or_ok(
            mask,
        )
    }
}

/// Adds what failed of a rollback to the setup error that called for it.
pub fn with_signal_setup_rollback(
    primary: String,
    actions: Option<String>,
    mask: Option<String>,
) -> (r: String)
    ensures
        r@ == rollback_text(primary@, views::opt(actions), views::opt(mask)),
{
    if actions.is_none() && mask.is_none() {
        return primary;
    }
    let mut s: String = primary;
    s.append("; signal setup rollback failed: actions=");
    match actions {
        Some(error) => s.append(error.as_str()),
        None => s.append("ok"),
    }
    s.append("; mask=");
    match mask {
        Some(error) => s.append(error.as_str()),
        None => s.append("ok"),
    }
    s
}

/// What a setup of the control signals does next.
#[derive(Debug, PartialEq, Eq)]
pub enum SetupStep {
    /// Make the signal at a position observable.
    SetAction(usize),
    /// Open the descriptor that reads pending signals.
    OpenDescriptor,
    /// The setup is complete.
    Complete,
    /// Restore the actions at these positions, in this order, and the mask; then fail
    /// with this error.
    RollBack(Vec<usize>, String),
}

/// What a [`SetupStep`] says.
pub enum SetupStepView {
    /// Make the signal at a position observable.
    SetAction(usize),
    /// Open the descriptor that reads pending signals.
    OpenDescriptor,
    /// The setup is complete.
    Complete,
    /// Restore the actions at these positions and the mask, then fail.
    RollBack(Seq<usize>, Seq<char>),
}

impl View for SetupStep {
    type V = SetupStepView;

    open spec fn view(&self) -> SetupStepView {
        match self {
            SetupStep::SetAction(i) => SetupStepView::SetAction(*i),
            SetupStep::OpenDescriptor => SetupStepView::OpenDescriptor,
            SetupStep::Complete => SetupStepView::Complete,
            SetupStep::RollBack(order, error) => SetupStepView::RollBack(order@, error@),
        }
    }
}

/// The progress of a setup of the control signals, which are blocked already.
#[derive(Debug, Clone, Copy, PartialEq, Eq, Structural)]
pub struct SignalSetup {
    /// How many signals there are.
    pub count: usize,
    /// How many have been made observable.
    pub changed: usize,
    /// Whether the descriptor is open.
    pub open: bool,
}

/// The positions below `n`, from the last to the first.
pub open spec fn backwards(n: nat) -> Seq<usize> {
    Seq::new(n, |i: int| (n - 1 - i) as usize)
}

impl SignalSetup {
    /// What is to be done next.
    pub open spec fn due(self) -> SetupStepView {
        if self.changed < self.count {
            SetupStepView::SetAction(self.changed)
        } else if !self.open {
            SetupStepView::OpenDescriptor
        } else {
            SetupStepView::Complete
        }
    }

    /// The setup once what was due has been done.
    pub open spec fn done(self) -> SignalSetup {
        if self.changed < self.count {
            SignalSetup { changed: (self.changed + 1) as usize, ..self }
        } else {
            SignalSetup { open: true, ..self }
        }
    }

    /// The words for a failure of what is due.
    pub open spec fn words(self) -> Seq<char> {
        if self.changed < self.count {
            "make control signal observable"@
        } else {
            "create recorder signalfd"@
        }
    }

    /// Starts a setup.
    pub fn new(count: usize) -> (r: SignalSetup)
        ensures
            r == (SignalSetup { count, changed: 0, open: false }),
    {
        SignalSetup { count, changed: 0, open: false }
    }

    /// Gives what is to be done first.
    pub fn first(&self) -> (r: SetupStep)
        ensures
            r@ == self.due(),
    {
        if self.changed < self.count {
            SetupStep::SetAction(self.changed)
        } else if !self.open {
            SetupStep::OpenDescriptor
        } else {
            SetupStep::Complete
        }
    }

    /// Notes the result of what was due and gives what is to be done next. A failure
    /// restores exactly the actions that were changed, from the last to the first.
    pub fn step(&mut self, failure: Option<String>) -> (r: SetupStep)
        ensures
            match views::opt(failure) {
                None => *final(self) == old(self).done() && r@ == old(self).done().due(),
                Some(error) => *final(self) == *old(self) && r@ == SetupStepView::RollBack(
                    backwards(old(self).changed as nat),
                    io::context(old(self).words(), error),
                ),
            },
    {
        match failure {
            None => {
                if self.changed < self.count {
                    self.changed = self.changed + 1;
                } else {
                    self.open = true;
                }
                self.first()
            },
            Some(error) => {
                let mut order: Vec<usize> = Vec::new();
                let changed: usize = self.changed;
                for i in 0..changed
                    invariant
                        order@ == Seq::new(i as nat, |j: int| (changed - 1 - j) as usize),
                {
                    order.push(changed - 1 - i);
                    assert(order@ =~= Seq::new((i + 1) as nat, |j: int| (changed - 1 - j) as usize));
                }
                assert(order@ =~= backwards(changed as nat));
                let words: &str = if self.changed < self.count {
                    "make control signal observable"
                } else {
                    "create recorder signalfd"
                };
                SetupStep::RollBack(order, with_context(words, error.as_str()))
            },
        }
    }
}

/// What the restoration of the recorder's signals has come to.
pub enum RestorePhase {
    /// The last look for signals is due.
    Draining,
    /// So many actions are left, and the last of them is due.
    Acting(usize),
    /// The mask is due.
    Masking,
    /// Nothing more.
    Done,
}

/// What is to be done next to restore the recorder's signals.
pub enum RestoreStep {
    /// Look for signals for the last time.
    Drain,
    /// Restore the action of the signal at a position.
    SetAction(usize),
    /// Restore the mask.
    SetMask,
    /// Report what came of it.
    Finished(Result<(), String>),
}

/// The restoration of the recorder's signals.
///
/// The mask is restored only behind every action: a signal that is unblocked earlier
/// would meet the wrong disposition.
pub struct SignalRestoration {
    /// The numbers of the signals.
    pub numbers: Vec<i32>,
    /// What went wrong with the last look.
    pub drain: Option<String>,
    /// The actions that could not be restored.
    pub failures: Vec<(i32, String)>,
    /// What it waits for.
    pub phase: RestorePhase,
}

/// The error for the actions that could not be restored.
pub open spec fn actions_fault(failures: Seq<(i32, String)>) -> Option<Seq<char>> {
    if failures.len() == 0 {
        None
    } else {
        Some(
            "restore control signal actions: "@ + text::joined_upto(
                action_faults(failures),
                "; "@,
                failures.len() as int,
            ),
        )
    }
}

/// Whether a result is what a restoration with the given faults comes to.
pub open spec fn restores(
    r: Result<(), String>,
    drain: Option<Seq<char>>,
    actions: Option<Seq<char>>,
    mask: Option<Seq<char>>,
) -> bool {
    let faults = restore_faults(drain, actions, mask);
    match r {
        Ok(_) => faults.len() == 0,
        Err(message) => faults.len() > 0 && message@ == text::joined_upto(
            faults,
            "; "@,
            faults.len() as int,
        ),
    }
}

impl SignalRestoration {
    /// The actions that are left are among those of the signals.
    pub open spec fn wf(self) -> bool {
        self.phase matches RestorePhase::Acting(left) ==> 0 < left <= self.numbers@.len()
    }

    /// What a result leads to.
    pub open spec fn goes(
        self,
        failure: Option<String>,
        next: SignalRestoration,
        step: RestoreStep,
    ) -> bool {
        &&& next.numbers == self.numbers
        &&& match self.phase {
            RestorePhase::Draining => {
                &&& next.drain == failure
                &&& next.failures == self.failures
                &&& if self.numbers@.len() > 0 {
                    &&& next.phase == RestorePhase::Acting(self.numbers@.len() as usize)
                    &&& step == RestoreStep::SetAction((self.numbers@.len() - 1) as usize)
                } else {
                    next.phase is Masking && step is SetMask
                }
            },
            RestorePhase::Acting(left) => {
                &&& next.drain == self.drain || next.phase is Done
                &&& next.failures@ == (match failure {
                    Some(error) => self.failures@.push((self.numbers@[left - 1], error)),
                    None => self.failures@,
                })
                &&& if left > 1 {
                    &&& next.phase == RestorePhase::Acting((left - 1) as usize)
                    &&& step == RestoreStep::SetAction((left - 2) as usize)
                } else if next.failures@.len() == 0 {
                    next.phase is Masking && step is SetMask
                } else {
                    &&& next.phase is Done
                    &&& step matches RestoreStep::Finished(r)
                    &&& restores(r, views::opt(self.drain), actions_fault(next.failures@), None)
                }
            },
            RestorePhase::Masking => {
                &&& next.phase is Done
                &&& step matches RestoreStep::Finished(r)
                &&& restores(
                    r,
                    views::opt(self.drain),
                    actions_fault(self.failures@),
                    views::opt(failure),
                )
            },
            RestorePhase::Done => true,
        }
    }

    /// Starts to restore signals; the last look for them is due.
    pub fn new(numbers: Vec<i32>) -> (r: SignalRestoration)
        ensures
            r.wf(),
            r.numbers == numbers,
            r.drain is None,
            r.failures@.len() == 0,
            r.phase is Draining,
    {
        SignalRestoration {
            numbers,
            drain: None,
            failures: Vec::new(),
            phase: RestorePhase::Draining,
        }
    }

    /// Takes the result of what was due and gives what is next.
    pub fn step(&mut self, failure: Option<String>) -> (r: RestoreStep)
        requires
            old(self).wf(),
            !(old(self).phase is Done),
        ensures
            final(self).wf(),
            old(self).goes(failure, *final(self), r),
    {
        match self.phase {
            RestorePhase::Draining => {
                self.drain = failure;
                let count: usize = self.numbers.len();
                if count > 0 {
                    self.phase = RestorePhase::Acting(count);
                    RestoreStep::SetAction(count - 1)
                } else {
                    self.phase = RestorePhase::Masking;
                    RestoreStep::SetMask
                }
            },
            RestorePhase::Acting(left) => {
                if let Some(error) = failure {
                    self.failures.push((self.numbers[left - 1], error));
                }
                if left > 1 {
                    self.phase = RestorePhase::Acting(left - 1);
                    RestoreStep::SetAction(left - 2)
                } else if self.failures.len() == 0 {
                    self.phase = RestorePhase::Masking;
                    RestoreStep::SetMask
                } else {
                    self.finish(None)
                }
            },
            RestorePhase::Masking => self.finish(failure),
            RestorePhase::Done => RestoreStep::Finished(Ok(())),
        }
    }

    /// Reports what came of a restoration.
    fn finish(&mut self, mask: Option<String>) -> (r: RestoreStep)
        ensures
            final(self).numbers == old(self).numbers,
            final(self).drain is None,
            final(self).failures == old(self).failures,
            final(self).phase is Done,
            r matches RestoreStep::Finished(x) && restores(
                x,
                views::opt(old(self).drain),
                actions_fault(old(self).failures@),
                views::opt(mask),
            ),
    {
        self.phase = RestorePhase::Done;
        let actions: Option<String> = match restore_signal_actions(&self.failures) {
            Ok(_) => None,
            Err(error) => Some(error),
        };
        let drain: Option<String> = self.drain.take();
        RestoreStep::Finished(combine_signal_restore_errors(drain, actions, mask))
    }
}

/// The mask is restored only behind every action, and only where all of them were
/// restored.
pub proof fn mask_comes_behind_every_action(
    restoration: SignalRestoration,
    failure: Option<String>,
    next: SignalRestoration,
    step: RestoreStep,
)
    requires
        restoration.wf(),
        restoration.goes(failure, next, step),
        step is SetMask,
        !(restoration.phase is Done),
    ensures
        next.phase is Masking,
        match restoration.phase {
            RestorePhase::Draining => restoration.numbers@.len() == 0,
            RestorePhase::Acting(left) => left == 1 && failure is None
                && restoration.failures@.len() == 0,
            _ => false,
        },
{
}

/// A restoration succeeds only where nothing went wrong on the way.
pub proof fn restoration_succeeds_only_whole(
    restoration: SignalRestoration,
    failure: Option<String>,
    next: SignalRestoration,
    step: RestoreStep,
)
    requires
        restoration.wf(),
        restoration.goes(failure, next, step),
        !(restoration.phase is Done),
        step matches RestoreStep::Finished(Ok(_)),
    ensures
        restoration.phase is Masking,
        failure is None,
        restoration.drain is None,
        restoration.failures@.len() == 0,
{
    let mask = match restoration.phase {
        RestorePhase::Masking => views::opt(failure),
        _ => None,
    };
    let actions = match restoration.phase {
        RestorePhase::Masking => actions_fault(restoration.failures@),
        _ => actions_fault(next.failures@),
    };
    let faults = restore_faults(views::opt(restoration.drain), actions, mask);
    assert(faults.len() == 0);
}

} // verus!
