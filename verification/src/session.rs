//! Session state: the mode, the capture history, the current reading, and
//! what is owed to the display.
//!
//! Every operation is specified as a function on [`SessionState`], the
//! mathematical view of [`AppState`].

use crate::colors::{match_color, NamedColor, Rgb};
use crate::input::ButtonEvent;
use crate::tcs34725::Rgbc;
use vstd::prelude::*;

verus! {

/// The number of slots of the capture history.
pub const HISTORY_LEN: usize = 10;

/// What the device is showing.
#[derive(Clone, Copy, Debug, PartialEq, Eq, Structural)]
pub enum AppMode {
    /// The live reading.
    Measuring,
    /// The captured readings.
    History,
}

/// What the display is asked to do.
#[derive(Clone, Copy, Debug, PartialEq, Eq, Structural)]
pub enum Redraw {
    /// Leave the screen as it is.
    Nothing,
    /// Draw the reading afresh: its name has changed.
    Partial,
    /// Clear the screen and draw everything.
    Full,
}

/// The session.
#[derive(Clone, Copy, Debug)]
pub struct AppState {
    pub mode: AppMode,
    /// The captured readings, the most recent first.
    pub history: [Option<NamedColor>; 10],
    /// The latest reading that was matched, if there has been one.
    pub current_reading: Option<NamedColor>,
    /// The sample that the latest reading was matched from.
    pub current_rgbc: Rgbc,
    /// A full redraw is owed.
    pub needs_redraw: bool,
    /// The name of the reading that was on the screen at the last redraw.
    pub rendered_name: Option<&'static str>,
}

/// The mathematical view of the session.
pub struct SessionState {
    pub mode: AppMode,
    pub history: Seq<Option<NamedColor>>,
    pub current_reading: Option<NamedColor>,
    pub current_sample: Rgbc,
    pub redraw_pending: bool,
    pub rendered: Option<Seq<char>>,
}

/// The characters of a name, where there is one.
pub open spec fn text_of(name: Option<&'static str>) -> Option<Seq<char>> {
    match name {
        Some(n) => Some(n@),
        None => None,
    }
}

/// The 8-bit value of one colour channel of a sample whose clear channel
/// counts `clear`: the channel's share of the clear count, scaled to 255 and
/// rounded down. A channel that counts more than the clear channel gives
/// more than 255, of which the low eight bits are kept.
pub open spec fn scaled(channel: u16, clear: u16) -> u8 {
    ((channel * 255 / (clear as int)) % 256) as u8
}

/// The colour of a sample, or none where the clear channel counts nothing.
pub open spec fn normalized(sample: Rgbc) -> Option<Rgb> {
    if sample.c == 0 {
        None
    } else {
        Some(
            Rgb {
                r: scaled(sample.r, sample.c),
                g: scaled(sample.g, sample.c),
                b: scaled(sample.b, sample.c),
            },
        )
    }
}

/// The reading that a colour gives: the colour itself, under the name of
/// the palette entry it is matched to.
pub open spec fn reading_of(color: Rgb) -> NamedColor {
    NamedColor { name: crate::colors::palette()[crate::colors::nearest(color)].name, color }
}

/// A history with `reading` put in front: every entry moves one slot back
/// and the one in the last slot is dropped.
pub open spec fn pushed_front(history: Seq<Option<NamedColor>>, reading: NamedColor) -> Seq<
    Option<NamedColor>,
> {
    seq![Some(reading)] + history.drop_last()
}

/// A history after each of `readings` was put in front, in order.
pub open spec fn pushed_all(history: Seq<Option<NamedColor>>, readings: Seq<NamedColor>) -> Seq<
    Option<NamedColor>,
>
    decreases readings.len(),
{
    if readings.len() == 0 {
        history
    } else {
        pushed_front(pushed_all(history, readings.drop_last()), readings.last())
    }
}

/// A history whose slots are all empty.
pub open spec fn empty_history() -> Seq<Option<NamedColor>> {
    Seq::new(HISTORY_LEN as nat, |i: int| None)
}

impl SessionState {
    /// The session at start: measuring, nothing captured, nothing read, and
    /// the first full redraw owed.
    pub open spec fn initial() -> SessionState {
        SessionState {
            mode: AppMode::Measuring,
            history: empty_history(),
            current_reading: None,
            current_sample: Rgbc { r: 0, g: 0, b: 0, c: 0 },
            redraw_pending: true,
            rendered: None,
        }
    }

    /// The other mode, with a full redraw owed.
    pub open spec fn toggled(self) -> SessionState {
        SessionState {
            mode: match self.mode {
                AppMode::Measuring => AppMode::History,
                AppMode::History => AppMode::Measuring,
            },
            redraw_pending: true,
            ..self
        }
    }

    /// The current reading captured in front of the history; nothing
    /// changes where there is no current reading.
    pub open spec fn captured(self) -> SessionState {
        match self.current_reading {
            Some(reading) => SessionState {
                history: pushed_front(self.history, reading),
                ..self
            },
            None => self,
        }
    }

    /// In history mode, the history emptied and a full redraw owed; in
    /// measuring mode, no change.
    pub open spec fn cleared(self) -> SessionState {
        match self.mode {
            AppMode::History => SessionState {
                history: empty_history(),
                redraw_pending: true,
                ..self
            },
            AppMode::Measuring => self,
        }
    }

    /// What an event of the button does to the session. A double click
    /// changes the mode. A single click captures the current reading, in
    /// measuring mode only. A long press clears the history, in history mode
    /// only. No other event changes anything.
    pub open spec fn after_event(self, event: ButtonEvent) -> SessionState {
        match event {
            ButtonEvent::DoubleClick => self.toggled(),
            ButtonEvent::SingleClick => match self.mode {
                AppMode::Measuring => self.captured(),
                AppMode::History => self,
            },
            ButtonEvent::LongPress => self.cleared(),
            _ => self,
        }
    }

    /// What the sensor's answer does to the session. In measuring mode a
    /// sample with a clear count becomes the current sample and its colour
    /// the current reading. A failed read, a sample without a clear count,
    /// and any answer in history mode change nothing.
    pub open spec fn after_reading<E>(self, reading: Result<Rgbc, E>) -> SessionState {
        match (self.mode, reading) {
            (AppMode::Measuring, Ok(sample)) => match normalized(sample) {
                Some(color) => SessionState {
                    current_reading: Some(reading_of(color)),
                    current_sample: sample,
                    ..self
                },
                None => self,
            },
            _ => self,
        }
    }

    /// The name of the current reading.
    pub open spec fn current_name(self) -> Option<Seq<char>> {
        match self.current_reading {
            Some(reading) => Some(reading.name@),
            None => None,
        }
    }

    /// The redraw that is due: a full one where one is owed; else, in
    /// measuring mode, a partial one where the name of the current reading is
    /// not the one on the screen; else none.
    pub open spec fn redraw_due(self) -> Redraw {
        if self.redraw_pending {
            Redraw::Full
        } else if self.mode == AppMode::Measuring && self.current_name() != self.rendered {
            Redraw::Partial
        } else {
            Redraw::Nothing
        }
    }

    /// The session once the redraw that was due has been done: nothing is
    /// owed, and the screen shows the current reading's name.
    pub open spec fn after_redraw(self) -> SessionState {
        if self.redraw_due() == Redraw::Nothing {
            self
        } else {
            SessionState { redraw_pending: false, rendered: self.current_name(), ..self }
        }
    }
}

impl View for AppState {
    type V = SessionState;

    open spec fn view(&self) -> SessionState {
        SessionState {
            mode: self.mode,
            history: self.history@,
            current_reading: self.current_reading,
            current_sample: self.current_rgbc,
            redraw_pending: self.needs_redraw,
            rendered: text_of(self.rendered_name),
        }
    }
}

/// Whether two texts are spelled the same.
fn same_text(a: &str, b: &str) -> (same: bool)
    ensures
        same == (a@ == b@),
{
    broadcast use vstd::utf8::encode_utf8_decode_utf8;

    let x = a.as_bytes();
    let y = b.as_bytes();
    if x.len() != y.len() {
        return false;
    }
    let mut i: usize = 0;
    while i < x.len()
        invariant
            i <= x.len(),
            x.len() == y.len(),
            x@ == vstd::utf8::encode_utf8(a@),
            y@ == vstd::utf8::encode_utf8(b@),
            forall|j: int| 0 <= j < i ==> x@[j] == y@[j],
        decreases x.len() - i,
    {
        if x[i] != y[i] {
            return false;
        }
        i = i + 1;
    }
    assert(x@ =~= y@);
    assert(vstd::utf8::decode_utf8(vstd::utf8::encode_utf8(a@)) == a@);
    assert(vstd::utf8::decode_utf8(vstd::utf8::encode_utf8(b@)) == b@);
    true
}

/// Whether two names are spelled the same, or both absent.
fn same_name(a: Option<&'static str>, b: Option<&'static str>) -> (same: bool)
    ensures
        same == (text_of(a) == text_of(b)),
{
    match (a, b) {
        (Some(x), Some(y)) => same_text(x, y),
        (None, None) => true,
        _ => false,
    }
}

/// One channel of a sample scaled to eight bits.
fn scale_channel(channel: u16, clear: u16) -> (value: u8)
    requires
        clear > 0,
    ensures
        value == scaled(channel, clear),
{
    let wide: u32 = (channel as u32) * 255 / (clear as u32);
    (wide % 256) as u8
}

/// The colour of a sample: each channel as its share of the clear channel,
/// scaled to 255. There is none where the clear channel counts nothing.
pub fn normalize(sample: Rgbc) -> (color: Option<Rgb>)
    ensures
        color == normalized(sample),
{
    if sample.c == 0 {
        None
    } else {
        Some(
            Rgb {
                r: scale_channel(sample.r, sample.c),
                g: scale_channel(sample.g, sample.c),
                b: scale_channel(sample.b, sample.c),
            },
        )
    }
}

impl AppState {
    /// The session at start.
    pub fn new() -> (state: AppState)
        ensures
            state@ == SessionState::initial(),
    {
        let state = AppState {
            mode: AppMode::Measuring,
            history: [None; 10],
            current_reading: None,
            current_rgbc: Rgbc::default(),
            needs_redraw: true,
            rendered_name: None,
        };
        assert(state.history@ =~= empty_history());
        state
    }

    /// Captures the current reading: it goes in front of the history, and
    /// the oldest entry is dropped. Without a current reading nothing
    /// changes.
    pub fn push_history(&mut self)
        ensures
            final(self)@ == old(self)@.captured(),
    {
        if let Some(color) = self.current_reading {
            let mut i: usize = HISTORY_LEN - 1;
            while i > 0
                invariant
                    i < HISTORY_LEN,
                    self.mode == old(self).mode,
                    self.current_reading == old(self).current_reading,
                    self.current_rgbc == old(self).current_rgbc,
                    self.needs_redraw == old(self).needs_redraw,
                    self.rendered_name == old(self).rendered_name,
                    forall|j: int| 0 <= j <= i ==> self.history@[j] == old(self).history@[j],
                    forall|j: int|
                        i < j < HISTORY_LEN ==> self.history@[j] == old(self).history@[j - 1],
                decreases i,
            {
                self.history[i] = self.history[i - 1];
                i = i - 1;
            }
            self.history[0] = Some(color);
            assert(self.history@ =~= pushed_front(old(self).history@, color));
        }
    }

    /// Changes to the other mode and asks for a full redraw.
    pub fn toggle_mode(&mut self)
        ensures
            final(self)@ == old(self)@.toggled(),
    {
        self.mode = match self.mode {
            AppMode::Measuring => AppMode::History,
            AppMode::History => AppMode::Measuring,
        };
        self.needs_redraw = true;
    }

    /// In history mode, empties every slot of the history and asks for a
    /// full redraw. In measuring mode it does nothing.
    pub fn clear_history(&mut self)
        ensures
            final(self)@ == old(self)@.cleared(),
            old(self).mode == AppMode::Measuring ==> *final(self) == *old(self),
            old(self).mode == AppMode::History ==> final(self).needs_redraw && forall|i: int|
                0 <= i < HISTORY_LEN ==> final(self).history@[i] is None,
    {
        match self.mode {
            AppMode::History => {
                self.history = [None; 10];
                self.needs_redraw = true;
                assert(self.history@ =~= empty_history());
            },
            AppMode::Measuring => {},
        }
    }

    /// Applies an event of the button.
    pub fn handle_event(&mut self, event: ButtonEvent)
        ensures
            final(self)@ == old(self)@.after_event(event),
    {
        match event {
            ButtonEvent::DoubleClick => {
                self.toggle_mode();
            },
            ButtonEvent::SingleClick => {
                match self.mode {
                    AppMode::Measuring => {
                        self.push_history();
                    },
                    AppMode::History => {},
                }
            },
            ButtonEvent::LongPress => {
                self.clear_history();
            },
            _ => {},
        }
    }

    /// Takes in what the sensor answered this tick.
    pub fn integrate_reading<E>(&mut self, reading: Result<Rgbc, E>)
        ensures
            final(self)@ == old(self)@.after_reading(reading),
    {
        match self.mode {
            AppMode::Measuring => {
                if let Ok(sample) = reading {
                    if let Some(color) = normalize(sample) {
                        let name = match_color(color.r, color.g, color.b);
                        self.current_rgbc = sample;
                        self.current_reading = Some(NamedColor { name, color });
                    }
                }
            },
            AppMode::History => {},
        }
    }

    /// Says which redraw is due.
    pub fn redraw_due(&self) -> (redraw: Redraw)
        ensures
            redraw == self@.redraw_due(),
    {
        let current_name = match self.current_reading {
            Some(reading) => Some(reading.name),
            None => None,
        };
        if self.needs_redraw {
            Redraw::Full
        } else if self.mode == AppMode::Measuring && !same_name(current_name, self.rendered_name) {
            Redraw::Partial
        } else {
            Redraw::Nothing
        }
    }

    /// Takes the redraw that is due as done. Until this is called the same
    /// redraw stays due, so one that failed is asked for again.
    pub fn redraw_done(&mut self)
        ensures
            final(self)@ == old(self)@.after_redraw(),
    {
        match self.redraw_due() {
            Redraw::Nothing => {},
            _ => {
                self.needs_redraw = false;
                self.rendered_name = match self.current_reading {
                    Some(reading) => Some(reading.name),
                    None => None,
                };
            },
        }
    }
}

/// Changing the mode twice gives back the mode, and never touches the
/// history, the current reading or the current sample: all that is left of
/// it is the full redraw that it asked for.
pub proof fn lemma_toggle_twice_restores(s: SessionState)
    ensures
        s.toggled().toggled().mode == s.mode,
        s.toggled().toggled().history == s.history,
        s.toggled().toggled().current_reading == s.current_reading,
        s.toggled().toggled().current_sample == s.current_sample,
        s.toggled().toggled() == (SessionState { redraw_pending: true, ..s }),
{
}

/// The history holds the latest captures, the newest first. After any
/// number of captures it still has its ten slots; slot `i` holds the
/// capture made `i` captures before the last; and what was there before the
/// captures has moved back by their number, the oldest entries falling off
/// the end.
pub proof fn lemma_history_holds_latest(
    history: Seq<Option<NamedColor>>,
    readings: Seq<NamedColor>,
)
    requires
        history.len() == HISTORY_LEN,
    ensures
        pushed_all(history, readings).len() == HISTORY_LEN,
        forall|i: int|
            0 <= i < HISTORY_LEN && i < readings.len() ==> #[trigger] pushed_all(
                history,
                readings,
            )[i] == Some(readings[readings.len() - 1 - i]),
        forall|i: int|
            readings.len() <= i < HISTORY_LEN ==> #[trigger] pushed_all(history, readings)[i]
                == history[i - readings.len()],
    decreases readings.len(),
{
    if readings.len() > 0 {
        let before = readings.drop_last();
        lemma_history_holds_latest(history, before);
        let prev = pushed_all(history, before);
        let now = pushed_all(history, readings);
        assert(now == pushed_front(prev, readings.last()));
        assert forall|i: int| 0 <= i < HISTORY_LEN && i < readings.len() implies #[trigger] now[i]
            == Some(readings[readings.len() - 1 - i]) by {
            if i > 0 {
                assert(now[i] == prev[i - 1]);
                assert(before[before.len() - 1 - (i - 1)] == readings[readings.len() - 1 - i]);
            }
        }
        assert forall|i: int| readings.len() <= i < HISTORY_LEN implies #[trigger] now[i]
            == history[i - readings.len()] by {
            assert(now[i] == prev[i - 1]);
        }
    }
}

/// A redraw is asked for once: when the one that was due has been done,
/// none is due until the session changes.
pub proof fn lemma_redraw_is_edge_triggered(s: SessionState)
    ensures
        s.after_redraw().redraw_due() == Redraw::Nothing,
{
}

} // verus!
