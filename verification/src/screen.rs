//! What the two screens show: their texts and colour swatches.
//!
//! Where things go on the display, and in which font, is left to whoever
//! draws them. Texts that are put together at run time are held in labels of
//! a fixed capacity, `heapless::String<32>`.

use crate::colors::{NamedColor, Rgb};
use crate::session::AppState;
use vstd::prelude::*;

verus! {

/// The title of the measuring screen.
pub const TITLE: &'static str = "ColorPicky";

/// The title of the history screen.
pub const HISTORY_TITLE: &'static str = "History";

/// What the measuring screen says while there is no reading.
pub const PLACEHOLDER: &'static str = "Place on color...";

/// The number of bytes that a label can hold.
pub const LABEL_CAPACITY: usize = 32;

/// `heapless::String`, a string of a fixed capacity: declared so that it can
/// be named in signatures and fields. What one holds is known only through
/// [`label_text`].
#[verifier::external_type_specification]
#[verifier::external_body]
pub struct ExLabel<const N: usize>(heapless::String<N>);

/// The characters that a label holds: those of `heapless::String::as_str`.
pub uninterp spec fn label_text(label: heapless::String<32>) -> Seq<char>;

/// The number of bytes that a text takes in a label: the length of its
/// UTF-8 encoding.
pub open spec fn byte_len(text: Seq<char>) -> nat {
    vstd::utf8::encode_utf8(text).len()
}

/// The hexadecimal digit of a value under 16, in upper case.
pub open spec fn hex_digit(n: int) -> char {
    "0123456789ABCDEF"@[n]
}

/// The two hexadecimal digits of a byte.
pub open spec fn hex_byte(v: u8) -> Seq<char> {
    seq![hex_digit(v as int / 16), hex_digit(v as int % 16)]
}

/// The hex code of a colour: `#`, then red, green and blue, two digits each.
pub open spec fn hex_code(color: Rgb) -> Seq<char> {
    seq!['#'] + hex_byte(color.r) + hex_byte(color.g) + hex_byte(color.b)
}

/// The decimal digit of a value under 10.
pub open spec fn digit(n: int) -> char {
    "0123456789"@[n]
}

/// A number in decimal digits.
pub open spec fn decimal(n: nat) -> Seq<char>
    decreases n,
{
    if n < 10 {
        seq![digit(n as int)]
    } else {
        decimal(n / 10).push(digit((n % 10) as int))
    }
}

/// The text of a row of the history screen: the row's number, a dot, a
/// space, and the name. A name that would not fit into the label with them
/// is left out.
pub open spec fn row_text(number: nat, name: Seq<char>) -> Seq<char> {
    let head = decimal(number) + seq!['.', ' '];
    if byte_len(head) + byte_len(name) <= LABEL_CAPACITY {
        head + name
    } else {
        head
    }
}

/// The occupied slots of a history, in order: each with its slot's index
/// and the reading it holds.
pub open spec fn occupied(history: Seq<Option<NamedColor>>) -> Seq<(int, NamedColor)>
    decreases history.len(),
{
    if history.len() == 0 {
        Seq::empty()
    } else {
        let before = occupied(history.drop_last());
        match history.last() {
            Some(reading) => before.push((history.len() - 1, reading)),
            None => before,
        }
    }
}

/// The reading as the measuring screen shows it.
pub struct ReadingPanel {
    /// The colour of the swatch.
    pub swatch: Rgb,
    /// The name under the swatch.
    pub name: &'static str,
    /// The hex code under the name.
    pub hex: heapless::String<32>,
}

/// One row of the history screen.
pub struct HistoryRow {
    /// The row's text.
    pub label: heapless::String<32>,
    /// The colour of the swatch beside it.
    pub swatch: Rgb,
}

impl HistoryRow {
    /// The row shows the reading held in slot `entry.0` of the history:
    /// numbered from 1, under its name, beside its colour.
    pub open spec fn shows(self, entry: (int, NamedColor)) -> bool {
        &&& label_text(self.label) == row_text((entry.0 + 1) as nat, entry.1.name@)
        &&& self.swatch == entry.1.color
    }
}

/// `heapless::String::new`: the label it makes holds nothing.
#[verifier::external_body]
fn new_label() -> (label: heapless::String<32>)
    ensures
        label_text(label) == Seq::<char>::empty(),
{
    heapless::String::new()
}

/// `heapless::String::push_str`: where the label has room for the bytes of
/// `text` it takes all of them at its end, else it stays as it is. Says
/// which.
#[verifier::external_body]
fn push_text(label: &mut heapless::String<32>, text: &str) -> (fits: bool)
    ensures
        fits == (byte_len(label_text(*old(label))) + byte_len(text@) <= LABEL_CAPACITY),
        fits ==> label_text(*final(label)) == label_text(*old(label)) + text@,
        !fits ==> label_text(*final(label)) == label_text(*old(label)),
{
    label.push_str(text).is_ok()
}

/// `heapless::String::push`: where the label has room for the bytes of `c`
/// it takes the character at its end, else it stays as it is. Says which.
#[verifier::external_body]
fn push_char(label: &mut heapless::String<32>, c: char) -> (fits: bool)
    ensures
        fits == (byte_len(label_text(*old(label))) + byte_len(seq![c]) <= LABEL_CAPACITY),
        fits ==> label_text(*final(label)) == label_text(*old(label)).push(c),
        !fits ==> label_text(*final(label)) == label_text(*old(label)),
{
    label.push(c).is_ok()
}

/// A text followed by another takes the bytes of both.
proof fn lemma_byte_len_concat(a: Seq<char>, b: Seq<char>)
    ensures
        byte_len(a + b) == byte_len(a) + byte_len(b),
    decreases a.len(),
{
    if a.len() == 0 {
        assert(a + b =~= b);
    } else {
        assert((a + b).drop_first() =~= a.drop_first() + b);
        lemma_byte_len_concat(a.drop_first(), b);
    }
}

/// A text of ASCII characters takes one byte for each.
proof fn lemma_byte_len_ascii(text: Seq<char>)
    requires
        vstd::utf8::is_ascii_chars(text),
    ensures
        byte_len(text) == text.len(),
{
    vstd::utf8::is_ascii_chars_encode_utf8(text);
}

/// A digit is an ASCII character.
proof fn lemma_digits_are_ascii()
    ensures
        forall|n: int| 0 <= n < 16 ==> #[trigger] hex_digit(n) <= '\u{7f}',
        forall|n: int| 0 <= n < 10 ==> #[trigger] digit(n) <= '\u{7f}',
{
    reveal_strlit("0123456789ABCDEF");
    reveal_strlit("0123456789");
}

/// A number under 256 has at most three decimal digits, all ASCII.
proof fn lemma_decimal_is_short(n: nat)
    requires
        n < 256,
    ensures
        1 <= decimal(n).len() <= 3,
        byte_len(decimal(n)) == decimal(n).len(),
{
    lemma_digits_are_ascii();
    if n < 10 {
        assert(decimal(n) =~= seq![digit(n as int)]);
    } else if n < 100 {
        assert(decimal(n / 10) =~= seq![digit((n / 10) as int)]);
        assert(decimal(n) =~= seq![digit((n / 10) as int), digit((n % 10) as int)]);
    } else {
        assert(decimal(n / 100) =~= seq![digit((n / 100) as int)]);
        assert(decimal(n / 10) =~= seq![
            digit((n / 100) as int),
            digit((n / 10 % 10) as int),
        ]);
        assert(decimal(n) =~= seq![
            digit((n / 100) as int),
            digit((n / 10 % 10) as int),
            digit((n % 10) as int),
        ]);
    }
    lemma_byte_len_ascii(decimal(n));
}

/// Puts one ASCII character at the end of a label that has room for it.
fn push_ascii(label: &mut heapless::String<32>, c: char)
    requires
        c <= '\u{7f}',
        byte_len(label_text(*old(label))) < LABEL_CAPACITY,
    ensures
        label_text(*final(label)) == label_text(*old(label)).push(c),
        byte_len(label_text(*final(label))) == byte_len(label_text(*old(label))) + 1,
{
    proof {
        lemma_byte_len_ascii(seq![c]);
        lemma_byte_len_concat(label_text(*label), seq![c]);
        assert(label_text(*label) + seq![c] =~= label_text(*label).push(c));
    }
    let fits = push_char(label, c);
    assert(fits);
}

/// The hexadecimal digit of a value under 16.
fn hex_digit_of(n: u8) -> (c: char)
    requires
        n < 16,
    ensures
        c == hex_digit(n as int),
        c <= '\u{7f}',
{
    proof {
        reveal_strlit("0123456789ABCDEF");
    }
    "0123456789ABCDEF".get_char(n as usize)
}

/// The decimal digit of a value under 10.
fn digit_of(n: u8) -> (c: char)
    requires
        n < 10,
    ensures
        c == digit(n as int),
        c <= '\u{7f}',
{
    proof {
        reveal_strlit("0123456789");
    }
    "0123456789".get_char(n as usize)
}

/// Puts the two hexadecimal digits of `v` at the end of a label.
fn push_hex_byte(label: &mut heapless::String<32>, v: u8)
    requires
        byte_len(label_text(*old(label))) + 2 <= LABEL_CAPACITY,
    ensures
        label_text(*final(label)) == label_text(*old(label)) + hex_byte(v),
        byte_len(label_text(*final(label))) == byte_len(label_text(*old(label))) + 2,
{
    push_ascii(label, hex_digit_of(v / 16));
    push_ascii(label, hex_digit_of(v % 16));
    assert(label_text(*label) =~= label_text(*old(label)) + hex_byte(v));
}

/// The label that holds the hex code of `color`.
pub fn hex_label(color: Rgb) -> (label: heapless::String<32>)
    ensures
        label_text(label) == hex_code(color),
{
    let mut label = new_label();
    proof {
        lemma_byte_len_ascii(label_text(label));
    }
    push_ascii(&mut label, '#');
    push_hex_byte(&mut label, color.r);
    push_hex_byte(&mut label, color.g);
    push_hex_byte(&mut label, color.b);
    assert(label_text(label) =~= hex_code(color));
    label
}

/// Puts the decimal digits of `n` at the end of a label that has room for
/// them.
fn push_decimal(label: &mut heapless::String<32>, n: u8)
    requires
        byte_len(label_text(*old(label))) + 3 <= LABEL_CAPACITY,
    ensures
        label_text(*final(label)) == label_text(*old(label)) + decimal(n as nat),
        byte_len(label_text(*final(label))) == byte_len(label_text(*old(label))) + decimal(
            n as nat,
        ).len(),
    decreases n,
{
    proof {
        lemma_decimal_is_short(n as nat);
    }
    if n >= 10 {
        proof {
            lemma_decimal_is_short((n / 10) as nat);
        }
        push_decimal(label, n / 10);
        push_ascii(label, digit_of(n % 10));
        assert(label_text(*label) =~= label_text(*old(label)) + decimal(n as nat));
    } else {
        push_ascii(label, digit_of(n));
        assert(label_text(*label) =~= label_text(*old(label)) + decimal(n as nat));
    }
}

/// The label of a row of the history screen.
pub fn row_label(number: u8, name: &str) -> (label: heapless::String<32>)
    ensures
        label_text(label) == row_text(number as nat, name@),
{
    let mut label = new_label();
    proof {
        lemma_byte_len_ascii(label_text(label));
        lemma_decimal_is_short(number as nat);
    }
    push_decimal(&mut label, number);
    push_ascii(&mut label, '.');
    push_ascii(&mut label, ' ');
    assert(label_text(label) =~= decimal(number as nat) + seq!['.', ' ']);
    let _ = push_text(&mut label, name);
    label
}

/// What the measuring screen shows of the current reading: its colour,
/// its name and its hex code. There is none while nothing has been read.
pub fn reading_panel(state: &AppState) -> (panel: Option<ReadingPanel>)
    ensures
        match state.current_reading {
            Some(reading) => panel matches Some(p) && p.swatch == reading.color && p.name
                == reading.name && label_text(p.hex) == hex_code(reading.color),
            None => panel is None,
        },
{
    match state.current_reading {
        Some(reading) => Some(
            ReadingPanel {
                swatch: reading.color,
                name: reading.name,
                hex: hex_label(reading.color),
            },
        ),
        None => None,
    }
}

/// The rows of the history screen: one for each occupied slot of the
/// history, in order, so at most ten.
pub fn history_rows(state: &AppState) -> (rows: Vec<HistoryRow>)
    ensures
        rows@.len() == occupied(state.history@).len(),
        rows@.len() <= crate::session::HISTORY_LEN,
        forall|k: int|
            0 <= k < rows@.len() ==> (#[trigger] rows@[k]).shows(occupied(state.history@)[k]),
{
    let mut rows: Vec<HistoryRow> = Vec::new();
    let mut i: usize = 0;
    assert(state.history@.take(0) =~= Seq::<Option<NamedColor>>::empty());
    while i < 10
        invariant
            i <= 10,
            rows@.len() == occupied(state.history@.take(i as int)).len(),
            rows@.len() <= i,
            forall|k: int|
                0 <= k < rows@.len() ==> (#[trigger] rows@[k]).shows(
                    occupied(state.history@.take(i as int))[k],
                ),
        decreases 10 - i,
    {
        proof {
            assert(state.history@.take(i + 1).drop_last() =~= state.history@.take(i as int));
            assert(state.history@.take(i + 1).last() == state.history@[i as int]);
        }
        if let Some(reading) = state.history[i] {
            rows.push(
                HistoryRow { label: row_label((i + 1) as u8, reading.name), swatch: reading.color },
            );
        }
        i = i + 1;
    }
    assert(state.history@.take(10) =~= state.history@);
    rows
}

} // verus!
