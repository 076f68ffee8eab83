//! Button gesture classifier.
//!
//! The classifier is fed one contact sample per tick, together with the time
//! of the sample in milliseconds, and turns the raw level into at most one
//! [`ButtonEvent`] per tick. Its behaviour is defined by [`ButtonState::step`],
//! a pure function on the mathematical state; [`ButtonInput::poll`] is proved
//! to compute exactly that function.

use vstd::prelude::*;

verus! {

/// A closure of the contact is ignored as bounce unless it lasts longer than this.
pub const DEBOUNCE_MS: u64 = 50;

/// A press that is released after more than this, without having entered
/// sampling mode, is a long press.
pub const LONG_PRESS_MS: u64 = 1000;

/// A press that is still held after more than this enters sampling mode.
pub const SAMPLING_MS: u64 = 200;

/// A lone click is reported once this much time has passed since its release.
pub const DOUBLE_CLICK_MS: u64 = 350;

/// A discrete user intent recognised from the button.
#[derive(Clone, Copy, Debug, PartialEq, Eq, Structural)]
pub enum ButtonEvent {
    /// One short press, with no second press inside the double-click window.
    SingleClick,
    /// Two short presses in a row.
    DoubleClick,
    /// A press longer than [`LONG_PRESS_MS`] that never entered sampling mode.
    LongPress,
    /// The press has just entered sampling mode.
    HeldBegin,
    /// The button is still held in sampling mode.
    HeldTick,
    /// The button was let go after sampling mode.
    Released,
}

/// The mathematical state of the classifier.
pub struct ButtonState {
    /// The contact was closed at the last sample.
    pub pressed: bool,
    /// When the press in progress began.
    pub press_start: Option<int>,
    /// When the last counted click was released.
    pub last_release: Option<int>,
    /// Clicks counted and not yet reported.
    pub pending_clicks: nat,
    /// The press in progress has entered sampling mode.
    pub sampling: bool,
}

/// What one tick does: the state it leaves and the event it emits, if any.
pub struct Step {
    pub next: ButtonState,
    pub event: Option<ButtonEvent>,
}

/// One sample of the contact: its level and the time it was taken at.
pub struct Sample {
    pub closed: bool,
    pub now: int,
}

impl ButtonState {
    /// The state before the first sample.
    pub open spec fn initial() -> ButtonState {
        ButtonState {
            pressed: false,
            press_start: None,
            last_release: None,
            pending_clicks: 0,
            sampling: false,
        }
    }

    /// The invariant of the classifier: a press start is recorded exactly
    /// while a press is in progress, sampling mode belongs to a press, at most
    /// two clicks are pending, and a pending click has its release time.
    pub open spec fn wf(self) -> bool {
        &&& self.pressed <==> self.press_start is Some
        &&& self.sampling ==> self.pressed
        &&& self.pending_clicks <= 2
        &&& self.pending_clicks > 0 ==> self.last_release is Some
        &&& self.press_start matches Some(t) ==> 0 <= t
        &&& self.last_release matches Some(t) ==> 0 <= t
    }

    /// The latest time the state remembers, or 0 if it remembers none.
    /// Time must not run backwards: a sample is accepted from this time on.
    pub open spec fn latest(self) -> int {
        let a = match self.press_start {
            Some(t) => t,
            None => 0,
        };
        let b = match self.last_release {
            Some(t) => t,
            None => 0,
        };
        if a >= b {
            a
        } else {
            b
        }
    }

    /// How long the press in progress has lasted at `now`.
    pub open spec fn held_for(self, now: int) -> int {
        match self.press_start {
            Some(t) => now - t,
            None => 0,
        }
    }

    /// How long ago the last counted click was released.
    pub open spec fn idle_for(self, now: int) -> int {
        match self.last_release {
            Some(t) => now - t,
            None => 0,
        }
    }

    /// Rising edge: the press begins. No event.
    pub open spec fn press(self, now: int) -> Step {
        Step {
            next: ButtonState { pressed: true, press_start: Some(now), sampling: false, ..self },
            event: None,
        }
    }

    /// Falling edge: the press ends after `held_for(now)`.
    ///
    /// After sampling mode it is `Released`. Otherwise a press longer than
    /// [`LONG_PRESS_MS`] is a `LongPress`, one longer than [`DEBOUNCE_MS`] is
    /// counted as a click (at most two) to be told apart later, and anything
    /// shorter is bounce, which only ends the press.
    pub open spec fn release(self, now: int) -> Step {
        let up = ButtonState { pressed: false, press_start: None, ..self };
        if self.sampling {
            Step {
                next: ButtonState { pending_clicks: 0, sampling: false, ..up },
                event: Some(ButtonEvent::Released),
            }
        } else if self.held_for(now) > LONG_PRESS_MS {
            Step {
                next: ButtonState { pending_clicks: 0, ..up },
                event: Some(ButtonEvent::LongPress),
            }
        } else if self.held_for(now) > DEBOUNCE_MS {
            Step {
                next: ButtonState {
                    pending_clicks: if self.pending_clicks >= 2 {
                        2
                    } else {
                        self.pending_clicks + 1
                    },
                    last_release: Some(now),
                    ..up
                },
                event: None,
            }
        } else {
            Step { next: up, event: None }
        }
    }

    /// The contact stays closed: sampling mode begins once the press has
    /// lasted longer than [`SAMPLING_MS`], and ticks from then on.
    pub open spec fn hold(self, now: int) -> Step {
        if self.sampling {
            Step { next: self, event: Some(ButtonEvent::HeldTick) }
        } else if self.held_for(now) > SAMPLING_MS {
            Step {
                next: ButtonState { sampling: true, ..self },
                event: Some(ButtonEvent::HeldBegin),
            }
        } else {
            Step { next: self, event: None }
        }
    }

    /// The contact stays open: pending clicks are reported. Two are a
    /// `DoubleClick` at once; one is a `SingleClick` as soon as more than
    /// [`DOUBLE_CLICK_MS`] have passed since its release.
    pub open spec fn idle(self, now: int) -> Step {
        if self.pending_clicks >= 2 {
            Step {
                next: ButtonState { pending_clicks: 0, ..self },
                event: Some(ButtonEvent::DoubleClick),
            }
        } else if self.pending_clicks == 1 && self.idle_for(now) > DOUBLE_CLICK_MS {
            Step {
                next: ButtonState { pending_clicks: 0, ..self },
                event: Some(ButtonEvent::SingleClick),
            }
        } else {
            Step { next: self, event: None }
        }
    }

    /// One tick of the classifier. Exactly one of the four rules applies:
    /// the edges come first, then the steady levels.
    pub open spec fn step(self, closed: bool, now: int) -> Step {
        if closed && !self.pressed {
            self.press(now)
        } else if !closed && self.pressed {
            self.release(now)
        } else if self.pressed {
            self.hold(now)
        } else {
            self.idle(now)
        }
    }

    /// The state after all of `samples`, taken in order.
    pub open spec fn run(self, samples: Seq<Sample>) -> ButtonState
        decreases samples.len(),
    {
        if samples.len() == 0 {
            self
        } else {
            self.run(samples.drop_last()).step(samples.last().closed, samples.last().now).next
        }
    }

    /// The event of sample `i` of `samples`, if it emits one.
    pub open spec fn event_at(self, samples: Seq<Sample>, i: int) -> Option<ButtonEvent> {
        self.run(samples.take(i)).step(samples[i].closed, samples[i].now).event
    }

    /// All the events that `samples` emit, in order.
    pub open spec fn emitted(self, samples: Seq<Sample>) -> Seq<ButtonEvent>
        decreases samples.len(),
    {
        if samples.len() == 0 {
            Seq::empty()
        } else {
            let before = self.emitted(samples.drop_last());
            match self.event_at(samples, samples.len() - 1) {
                Some(e) => before.push(e),
                None => before,
            }
        }
    }
}

/// No sample is older than the one before it, and none is older than `from`.
pub open spec fn chronological(from: int, samples: Seq<Sample>) -> bool {
    &&& forall|i: int| 0 <= i < samples.len() ==> from <= (#[trigger] samples[i]).now
    &&& forall|i: int, j: int|
        0 <= i <= j < samples.len() ==> (#[trigger] samples[i]).now <= (#[trigger] samples[j]).now
}

/// `samples` are one whole press: the contact is closed at every sample but
/// the last, which finds it open again.
pub open spec fn one_press(samples: Seq<Sample>) -> bool {
    &&& samples.len() >= 2
    &&& forall|i: int| 0 <= i < samples.len() - 1 ==> (#[trigger] samples[i]).closed
    &&& !samples.last().closed
}

/// How long the press of `one_press(samples)` lasted: from the first sample
/// that found the contact closed to the one that found it open.
pub open spec fn press_length(samples: Seq<Sample>) -> int {
    samples.last().now - samples[0].now
}

/// Some sample of the press found the contact still closed more than
/// [`SAMPLING_MS`] after the press began.
pub open spec fn held_past_threshold(samples: Seq<Sample>) -> bool {
    exists|k: int|
        0 < k < samples.len() - 1 && (#[trigger] samples[k]).now - samples[0].now > SAMPLING_MS
}

/// Every one of `samples` finds the contact open.
pub open spec fn all_open(samples: Seq<Sample>) -> bool {
    forall|i: int| 0 <= i < samples.len() ==> !(#[trigger] samples[i]).closed
}

/// The time of the last of `samples`, or `from` where there is none.
pub open spec fn end_of(from: int, samples: Seq<Sample>) -> int {
    if samples.len() == 0 {
        from
    } else {
        samples.last().now
    }
}

/// `samples` are one press that counts as a click: it lasts longer than
/// [`DEBOUNCE_MS`] and no longer than [`LONG_PRESS_MS`], and no sample finds
/// it still held past the sampling threshold.
pub open spec fn one_click(samples: Seq<Sample>) -> bool {
    &&& one_press(samples)
    &&& DEBOUNCE_MS < press_length(samples) <= LONG_PRESS_MS
    &&& !held_past_threshold(samples)
}

/// The button gesture classifier.
#[derive(Debug)]
pub struct ButtonInput {
    is_pressed: bool,
    full_press_start: Option<u64>,
    last_release_time: Option<u64>,
    click_count: u8,
    was_held_long: bool,
}

/// A recorded time as a mathematical integer.
pub open spec fn time_of(t: Option<u64>) -> Option<int> {
    match t {
        Some(v) => Some(v as int),
        None => None,
    }
}

impl View for ButtonInput {
    type V = ButtonState;

    closed spec fn view(&self) -> ButtonState {
        ButtonState {
            pressed: self.is_pressed,
            press_start: time_of(self.full_press_start),
            last_release: time_of(self.last_release_time),
            pending_clicks: self.click_count as nat,
            sampling: self.was_held_long,
        }
    }
}

impl ButtonInput {
    /// A classifier that has seen no sample yet.
    pub fn new() -> (button: ButtonInput)
        ensures
            button@ == ButtonState::initial(),
            button@.wf(),
    {
        ButtonInput {
            is_pressed: false,
            full_press_start: None,
            last_release_time: None,
            click_count: 0,
            was_held_long: false,
        }
    }

    /// Whether the contact was closed at the last sample.
    pub fn is_held(&self) -> (held: bool)
        ensures
            held == self@.pressed,
    {
        self.is_pressed
    }

    /// Whether a sample taken at `now` may be handed to [`ButtonInput::poll`]:
    /// time has not run backwards.
    pub fn accepts(&self, now: u64) -> (ok: bool)
        ensures
            ok == (self@.latest() <= now),
    {
        let a = match self.full_press_start {
            Some(t) => t,
            None => 0,
        };
        let b = match self.last_release_time {
            Some(t) => t,
            None => 0,
        };
        a <= now && b <= now
    }

    /// Takes the sample of one tick: `raw_pressed` is the level of the
    /// contact and `now` the time in milliseconds. Returns the event of this
    /// tick, if there is one.
    pub fn poll(&mut self, raw_pressed: bool, now: u64) -> (event: Option<ButtonEvent>)
        requires
            old(self)@.wf(),
            old(self)@.latest() <= now,
        ensures
            final(self)@ == old(self)@.step(raw_pressed, now as int).next,
            event == old(self)@.step(raw_pressed, now as int).event,
            final(self)@.wf(),
            final(self)@.latest() <= now,
    {
        if raw_pressed && !self.is_pressed {
            self.is_pressed = true;
            self.full_press_start = Some(now);
            self.was_held_long = false;
            None
        } else if !raw_pressed && self.is_pressed {
            let held: u64 = match self.full_press_start {
                Some(start) => now - start,
                None => 0,
            };
            self.is_pressed = false;
            self.full_press_start = None;
            if self.was_held_long {
                self.was_held_long = false;
                self.click_count = 0;
                Some(ButtonEvent::Released)
            } else if held > LONG_PRESS_MS {
                self.click_count = 0;
                Some(ButtonEvent::LongPress)
            } else if held > DEBOUNCE_MS {
                if self.click_count < 2 {
                    self.click_count = self.click_count + 1;
                }
                self.last_release_time = Some(now);
                None
            } else {
                None
            }
        } else if self.is_pressed {
            if self.was_held_long {
                Some(ButtonEvent::HeldTick)
            } else {
                let held: u64 = match self.full_press_start {
                    Some(start) => now - start,
                    None => 0,
                };
                if held > SAMPLING_MS {
                    self.was_held_long = true;
                    Some(ButtonEvent::HeldBegin)
                } else {
                    None
                }
            }
        } else {
            if self.click_count >= 2 {
                self.click_count = 0;
                Some(ButtonEvent::DoubleClick)
            } else if self.click_count == 1 {
                let idle: u64 = match self.last_release_time {
                    Some(released) => now - released,
                    None => 0,
                };
                if idle > DOUBLE_CLICK_MS {
                    self.click_count = 0;
                    Some(ButtonEvent::SingleClick)
                } else {
                    None
                }
            } else {
                None
            }
        }
    }
}

/// The classifier's invariant survives every tick, and so does the order of time.
pub proof fn lemma_step_keeps_wf(s: ButtonState, closed: bool, now: int)
    requires
        s.wf(),
        s.latest() <= now,
    ensures
        s.step(closed, now).next.wf(),
        s.step(closed, now).next.latest() <= now,
{
}

/// Running a prefix of the samples and then the next one is running the
/// longer prefix.
pub proof fn lemma_run_unfold(s: ButtonState, samples: Seq<Sample>, k: int)
    requires
        0 <= k < samples.len(),
    ensures
        s.run(samples.take(k + 1)) == s.run(samples.take(k)).step(
            samples[k].closed,
            samples[k].now,
        ).next,
        s.run(samples.take(samples.len() as int)) == s.run(samples),
{
    assert(samples.take(k + 1).drop_last() =~= samples.take(k));
    assert(samples.take(samples.len() as int) =~= samples);
}

/// Every tick emits at most one event: a run of samples never emits more
/// events than it has samples.
pub proof fn lemma_at_most_one_event_per_tick(s: ButtonState, samples: Seq<Sample>)
    ensures
        s.emitted(samples).len() <= samples.len(),
    decreases samples.len(),
{
    if samples.len() > 0 {
        lemma_at_most_one_event_per_tick(s, samples.drop_last());
    }
}

/// While a press is in progress the classifier remembers when it began, and
/// is in sampling mode exactly if the latest sample that found the contact
/// still closed came more than [`SAMPLING_MS`] after the beginning. Pending
/// clicks and their release time are untouched.
pub proof fn lemma_state_during_press(s: ButtonState, samples: Seq<Sample>, k: int)
    requires
        s.wf(),
        !s.pressed,
        chronological(s.latest(), samples),
        one_press(samples),
        1 <= k <= samples.len() - 1,
    ensures
        s.run(samples.take(k)) == (ButtonState {
            pressed: true,
            press_start: Some(samples[0].now),
            sampling: k >= 2 && samples[k - 1].now - samples[0].now > SAMPLING_MS,
            ..s
        }),
    decreases k,
{
    if k == 1 {
        lemma_run_unfold(s, samples, 0);
    } else {
        lemma_state_during_press(s, samples, k - 1);
        lemma_run_unfold(s, samples, k - 1);
    }
}

/// What a press emits while the contact stays closed: nothing until a sample
/// comes more than [`SAMPLING_MS`] after the press began, `HeldBegin` at the
/// first such sample, and `HeldTick` at every one after it. So the events of
/// a press can only come in the order `HeldBegin`, `HeldTick`..., and then
/// what [`lemma_release_of_press`] says of its end.
pub proof fn lemma_events_during_press(s: ButtonState, samples: Seq<Sample>, i: int)
    requires
        s.wf(),
        !s.pressed,
        chronological(s.latest(), samples),
        one_press(samples),
        0 <= i < samples.len() - 1,
    ensures
        s.event_at(samples, i) == if samples[i].now - samples[0].now <= SAMPLING_MS {
            None
        } else if i >= 2 && samples[i - 1].now - samples[0].now > SAMPLING_MS {
            Some(ButtonEvent::HeldTick)
        } else {
            Some(ButtonEvent::HeldBegin)
        },
{
    if i > 0 {
        lemma_state_during_press(s, samples, i);
    }
}

/// A closure of the contact that lasts no longer than [`DEBOUNCE_MS`] is
/// bounce: none of its samples emits an event, the count of pending clicks
/// never changes, and after it the classifier is in the state it was in
/// before.
pub proof fn lemma_bounce_is_ignored(s: ButtonState, samples: Seq<Sample>)
    requires
        s.wf(),
        !s.pressed,
        chronological(s.latest(), samples),
        one_press(samples),
        press_length(samples) <= DEBOUNCE_MS,
    ensures
        forall|i: int| 0 <= i < samples.len() ==> s.event_at(samples, i) is None,
        forall|k: int|
            0 <= k <= samples.len() ==> (#[trigger] s.run(samples.take(k))).pending_clicks
                == s.pending_clicks,
        s.run(samples) == s,
{
    let n = samples.len() as int;
    assert forall|k: int| 1 <= k <= n - 1 implies (#[trigger] s.run(samples.take(k))) == (
    ButtonState { pressed: true, press_start: Some(samples[0].now), ..s }) by {
        lemma_state_during_press(s, samples, k);
    }
    lemma_run_unfold(s, samples, n - 1);
}

/// How a press ends. If some sample found the contact still closed more than
/// [`SAMPLING_MS`] after the press began, the press entered sampling mode and
/// its release is `Released`, however long it lasted. If none did, a press
/// longer than [`LONG_PRESS_MS`] is a `LongPress` and any other emits nothing
/// at its release.
pub proof fn lemma_release_of_press(s: ButtonState, samples: Seq<Sample>)
    requires
        s.wf(),
        !s.pressed,
        chronological(s.latest(), samples),
        one_press(samples),
    ensures
        s.event_at(samples, samples.len() - 1) == if held_past_threshold(samples) {
            Some(ButtonEvent::Released)
        } else if press_length(samples) > LONG_PRESS_MS {
            Some(ButtonEvent::LongPress)
        } else {
            None
        },
{
    // time does not run backwards, so a sample found the press held past the
    // threshold exactly if the last one before the release did
    let n = samples.len() as int;
    lemma_state_during_press(s, samples, n - 1);
}

/// A press of [`LONG_PRESS_MS`] or more during which the contact was sampled
/// more than [`SAMPLING_MS`] after it began ends in `Released`, and none of
/// its samples emits `LongPress`.
pub proof fn lemma_long_hold_is_released(s: ButtonState, samples: Seq<Sample>)
    requires
        s.wf(),
        !s.pressed,
        chronological(s.latest(), samples),
        one_press(samples),
        press_length(samples) >= LONG_PRESS_MS,
        held_past_threshold(samples),
    ensures
        s.event_at(samples, samples.len() - 1) == Some(ButtonEvent::Released),
        forall|i: int|
            0 <= i < samples.len() ==> s.event_at(samples, i) != Some(ButtonEvent::LongPress),
{
    lemma_release_of_press(s, samples);
}

/// `LongPress` comes only from a falling edge that ends a press of more than
/// [`LONG_PRESS_MS`] which never entered sampling mode.
pub proof fn lemma_long_press_only_without_sampling(s: ButtonState, closed: bool, now: int)
    requires
        s.step(closed, now).event == Some(ButtonEvent::LongPress),
    ensures
        s.pressed,
        !closed,
        !s.sampling,
        s.held_for(now) > LONG_PRESS_MS,
{
}

/// Where the contact is sampled at least every `period` milliseconds, with
/// `period` under [`LONG_PRESS_MS`] − [`SAMPLING_MS`], a press of
/// [`LONG_PRESS_MS`] or more is always sampled past the threshold.
pub proof fn lemma_dense_sampling_crosses_threshold(samples: Seq<Sample>, period: int)
    requires
        one_press(samples),
        press_length(samples) >= LONG_PRESS_MS,
        period < LONG_PRESS_MS - SAMPLING_MS,
        forall|i: int|
            0 <= i < samples.len() - 1 ==> (#[trigger] samples[i + 1]).now - samples[i].now
                <= period,
    ensures
        held_past_threshold(samples),
{
    let n = samples.len() as int;
    assert(samples[n - 2 + 1].now - samples[n - 2].now <= period);
}

/// The classifier's invariant survives every run of samples in which time
/// does not run backwards, and after the run the state remembers no time
/// later than the last sample.
pub proof fn lemma_run_keeps_wf(s: ButtonState, samples: Seq<Sample>)
    requires
        s.wf(),
        chronological(s.latest(), samples),
    ensures
        s.run(samples).wf(),
        s.run(samples).latest() <= end_of(s.latest(), samples),
    decreases samples.len(),
{
    if samples.len() > 0 {
        let before = samples.drop_last();
        assert(chronological(s.latest(), before));
        lemma_run_keeps_wf(s, before);
        lemma_step_keeps_wf(s.run(before), samples.last().closed, samples.last().now);
    }
}

/// Where time does not run backwards over two runs of samples put
/// together, it does not in either of them.
pub proof fn lemma_chronological_parts(from: int, a: Seq<Sample>, b: Seq<Sample>)
    requires
        chronological(from, a + b),
    ensures
        chronological(from, a),
        chronological(end_of(from, a), b),
{
    let whole = a + b;
    assert forall|i: int| 0 <= i < a.len() implies from <= (#[trigger] a[i]).now by {
        assert(whole[i] == a[i]);
    }
    assert forall|i: int, j: int| 0 <= i <= j < a.len() implies (#[trigger] a[i]).now <= (
    #[trigger] a[j]).now by {
        assert(whole[i] == a[i] && whole[j] == a[j]);
    }
    assert forall|i: int| 0 <= i < b.len() implies end_of(from, a) <= (#[trigger] b[i]).now by {
        assert(whole[a.len() + i] == b[i]);
        if a.len() > 0 {
            assert(whole[a.len() - 1] == a.last());
        }
    }
    assert forall|i: int, j: int| 0 <= i <= j < b.len() implies (#[trigger] b[i]).now <= (
    #[trigger] b[j]).now by {
        assert(whole[a.len() + i] == b[i] && whole[a.len() + j] == b[j]);
    }
}

/// Running two runs of samples put together is running one after the other.
pub proof fn lemma_run_concat(s: ButtonState, a: Seq<Sample>, b: Seq<Sample>)
    ensures
        s.run(a + b) == s.run(a).run(b),
    decreases b.len(),
{
    if b.len() == 0 {
        assert(a + b =~= a);
    } else {
        assert((a + b).drop_last() =~= a + b.drop_last());
        lemma_run_concat(s, a, b.drop_last());
    }
}

/// Two runs of samples put together emit what the first emits and then
/// what the second emits from the state that the first leaves.
pub proof fn lemma_emitted_concat(s: ButtonState, a: Seq<Sample>, b: Seq<Sample>)
    ensures
        s.emitted(a + b) == s.emitted(a) + s.run(a).emitted(b),
    decreases b.len(),
{
    if b.len() == 0 {
        assert(a + b =~= a);
    } else {
        assert((a + b).drop_last() =~= a + b.drop_last());
        lemma_run_concat(s, a, b.drop_last());
        lemma_emitted_concat(s, a, b.drop_last());
    }
}

/// Samples of which none emits an event emit nothing.
pub proof fn lemma_silent_run(s: ButtonState, samples: Seq<Sample>)
    requires
        forall|i: int| 0 <= i < samples.len() ==> s.event_at(samples, i) is None,
    ensures
        s.emitted(samples) == Seq::<ButtonEvent>::empty(),
    decreases samples.len(),
{
    if samples.len() > 0 {
        let before = samples.drop_last();
        assert forall|i: int| 0 <= i < before.len() implies s.event_at(before, i) is None by {
            assert(before.take(i) =~= samples.take(i));
            assert(s.event_at(samples, i) is None);
        }
        lemma_silent_run(s, before);
    }
}

/// A click is counted in silence: none of its samples emits an event, and
/// it leaves one more click pending, two at most, released at its last
/// sample.
pub proof fn lemma_click_is_counted(s: ButtonState, samples: Seq<Sample>)
    requires
        s.wf(),
        !s.pressed,
        chronological(s.latest(), samples),
        one_click(samples),
    ensures
        s.emitted(samples) == Seq::<ButtonEvent>::empty(),
        s.run(samples) == (ButtonState {
            pending_clicks: if s.pending_clicks >= 2 {
                2
            } else {
                s.pending_clicks + 1
            },
            last_release: Some(samples.last().now),
            ..s
        }),
{
    let n = samples.len() as int;
    assert forall|i: int| 0 <= i < n implies s.event_at(samples, i) is None by {
        if i < n - 1 {
            lemma_events_during_press(s, samples, i);
        } else {
            lemma_release_of_press(s, samples);
        }
    }
    lemma_silent_run(s, samples);
    lemma_state_during_press(s, samples, n - 1);
    lemma_run_unfold(s, samples, n - 1);
}

/// While the contact stays open, pending clicks are reported once: two as
/// a `DoubleClick` at the first sample, one as a `SingleClick` at the first
/// sample that comes more than [`DOUBLE_CLICK_MS`] after its release, and
/// nothing is emitted besides.
pub proof fn lemma_idle_reports_pending(s: ButtonState, samples: Seq<Sample>)
    requires
        s.wf(),
        !s.pressed,
        chronological(s.latest(), samples),
        all_open(samples),
    ensures
        ({
            let reported = samples.len() > 0 && (s.pending_clicks >= 2 || (s.pending_clicks == 1
                && s.idle_for(samples.last().now) > DOUBLE_CLICK_MS));
            &&& s.emitted(samples) == if !reported {
                Seq::<ButtonEvent>::empty()
            } else if s.pending_clicks >= 2 {
                seq![ButtonEvent::DoubleClick]
            } else {
                seq![ButtonEvent::SingleClick]
            }
            &&& s.run(samples) == if reported {
                ButtonState { pending_clicks: 0, ..s }
            } else {
                s
            }
        }),
    decreases samples.len(),
{
    if samples.len() > 0 {
        let before = samples.drop_last();
        assert(before + seq![samples.last()] =~= samples);
        lemma_chronological_parts(s.latest(), before, seq![samples.last()]);
        assert(all_open(before));
        lemma_idle_reports_pending(s, before);
    }
}

/// One click and then nothing: whatever the samples after the click, as
/// long as the contact stays open they emit one `SingleClick` once one of
/// them comes more than [`DOUBLE_CLICK_MS`] after the release, and no other
/// event ever.
pub proof fn lemma_lone_click_is_single_click(
    s: ButtonState,
    click: Seq<Sample>,
    rest: Seq<Sample>,
)
    requires
        s.wf(),
        !s.pressed,
        s.pending_clicks == 0,
        chronological(s.latest(), click + rest),
        one_click(click),
        all_open(rest),
    ensures
        s.emitted(click + rest) == if rest.len() > 0 && rest.last().now - click.last().now
            > DOUBLE_CLICK_MS {
            seq![ButtonEvent::SingleClick]
        } else {
            Seq::<ButtonEvent>::empty()
        },
{
    lemma_chronological_parts(s.latest(), click, rest);
    lemma_click_is_counted(s, click);
    lemma_run_keeps_wf(s, click);
    let counted = s.run(click);
    lemma_idle_reports_pending(counted, rest);
    lemma_emitted_concat(s, click, rest);
}

/// Two clicks in a row: where no sample between them finds the contact
/// open more than [`DOUBLE_CLICK_MS`] after the first release, the first
/// sample after the second click emits one `DoubleClick`, and no other event
/// is emitted, before or after.
pub proof fn lemma_two_clicks_are_double_click(
    s: ButtonState,
    first: Seq<Sample>,
    gap: Seq<Sample>,
    second: Seq<Sample>,
    rest: Seq<Sample>,
)
    requires
        s.wf(),
        !s.pressed,
        s.pending_clicks == 0,
        chronological(s.latest(), first + gap + second + rest),
        one_click(first),
        all_open(gap),
        gap.len() > 0 ==> gap.last().now - first.last().now <= DOUBLE_CLICK_MS,
        one_click(second),
        all_open(rest),
        rest.len() > 0,
    ensures
        s.emitted(first + gap + second + rest) == seq![ButtonEvent::DoubleClick],
{
    let from = s.latest();
    lemma_chronological_parts(from, first + gap + second, rest);
    lemma_chronological_parts(from, first + gap, second);
    lemma_chronological_parts(from, first, gap);

    // the first click is counted
    lemma_click_is_counted(s, first);
    lemma_run_keeps_wf(s, first);
    let one = s.run(first);

    // nothing happens before the second
    lemma_idle_reports_pending(one, gap);
    lemma_run_concat(s, first, gap);
    lemma_emitted_concat(s, first, gap);

    // the second click is counted
    lemma_click_is_counted(one, second);
    lemma_run_keeps_wf(one, second);
    lemma_run_concat(s, first + gap, second);
    lemma_emitted_concat(s, first + gap, second);
    let two = one.run(second);

    // and both are reported at once
    lemma_idle_reports_pending(two, rest);
    lemma_emitted_concat(s, first + gap + second, rest);
}

} // verus!
