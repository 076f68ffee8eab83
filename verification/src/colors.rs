//! Named palette and nearest-colour matching.
//!
//! A colour is matched to the palette entry at the least squared Euclidean
//! distance in RGB space. Where several entries are equally near, the one
//! declared first wins, so the order of the palette is part of its meaning.

use vstd::prelude::*;

verus! {

/// An 8-bit RGB colour.
#[derive(Clone, Copy, Debug, PartialEq, Eq, Structural)]
pub struct Rgb {
    pub r: u8,
    pub g: u8,
    pub b: u8,
}

/// A colour with its name.
#[derive(Clone, Copy, Debug, PartialEq, Eq)]
pub struct NamedColor {
    pub name: &'static str,
    pub color: Rgb,
}

/// The number of palette entries.
pub const PALETTE_LEN: usize = 73;

/// The palette, in declaration order: the name of each entry and its red,
/// green and blue components.
pub const COLORS: [(&'static str, u8, u8, u8); 73] = [
    // Reds
    ("Red", 255, 0, 0),
    ("Dark Red", 139, 0, 0),
    ("Crimson", 220, 20, 60),
    ("Maroon", 128, 0, 0),
    ("Salmon", 250, 128, 114),
    ("Coral", 255, 127, 80),
    ("Tomato", 255, 99, 71),
    // Oranges
    ("Orange", 255, 165, 0),
    ("Dark Orange", 255, 140, 0),
    ("Orange Red", 255, 69, 0),
    ("Peach", 255, 218, 185),
    // Yellows
    ("Yellow", 255, 255, 0),
    ("Gold", 255, 215, 0),
    ("Lemon", 255, 247, 0),
    ("Khaki", 240, 230, 140),
    ("Beige", 245, 245, 220),
    // Greens
    ("Green", 0, 255, 0),
    ("Lime", 50, 205, 50),
    ("Dark Green", 0, 100, 0),
    ("Forest Green", 34, 139, 34),
    ("Olive", 128, 128, 0),
    ("Sea Green", 46, 139, 87),
    ("Spring Green", 0, 255, 127),
    ("Mint", 152, 255, 152),
    // Cyans / Turquoise
    ("Cyan", 0, 255, 255),
    ("Aqua", 0, 255, 255),
    ("Turquoise", 64, 224, 208),
    ("Teal", 0, 128, 128),
    ("Dark Cyan", 0, 139, 139),
    ("Aquamarine", 127, 255, 212),
    ("Light Cyan", 224, 255, 255),
    // Blues
    ("Blue", 0, 0, 255),
    ("Navy", 0, 0, 128),
    ("Royal Blue", 65, 105, 225),
    ("Sky Blue", 135, 206, 235),
    ("Light Blue", 173, 216, 230),
    ("Steel Blue", 70, 130, 180),
    ("Dodger Blue", 30, 144, 255),
    ("Deep Sky Blue", 0, 191, 255),
    ("Midnight Blue", 25, 25, 112),
    // Purples / Violets
    ("Purple", 128, 0, 128),
    ("Violet", 238, 130, 238),
    ("Indigo", 75, 0, 130),
    ("Lavender", 230, 230, 250),
    ("Plum", 221, 160, 221),
    ("Orchid", 218, 112, 214),
    ("Magenta", 255, 0, 255),
    ("Fuchsia", 255, 0, 255),
    ("Dark Violet", 148, 0, 211),
    ("Blue Violet", 138, 43, 226),
    ("Medium Purple", 147, 112, 219),
    // Pinks
    ("Pink", 255, 192, 203),
    ("Hot Pink", 255, 105, 180),
    ("Deep Pink", 255, 20, 147),
    ("Light Pink", 255, 182, 193),
    ("Rose", 255, 0, 127),
    // Browns / Tans
    ("Brown", 139, 69, 19),
    ("Chocolate", 210, 105, 30),
    ("Tan", 210, 180, 140),
    ("Sienna", 160, 82, 45),
    ("Sandy Brown", 244, 164, 96),
    ("Peru", 205, 133, 63),
    ("Saddle Brown", 139, 69, 19),
    // Whites / Grays / Blacks
    ("White", 255, 255, 255),
    ("Snow", 255, 250, 250),
    ("Ivory", 255, 255, 240),
    ("Light Gray", 211, 211, 211),
    ("Silver", 192, 192, 192),
    ("Gray", 128, 128, 128),
    ("Dark Gray", 64, 64, 64),
    ("Charcoal", 54, 69, 79),
    ("Black", 0, 0, 0),
    ("Slate Gray", 112, 128, 144),
];

/// The palette as a sequence of named colours.
pub open spec fn palette() -> Seq<NamedColor> {
    Seq::new(
        PALETTE_LEN as nat,
        |i: int|
            NamedColor {
                name: COLORS[i].0,
                color: Rgb { r: COLORS[i].1, g: COLORS[i].2, b: COLORS[i].3 },
            },
    )
}

/// The squared Euclidean distance of two colours in RGB space.
pub open spec fn distance(a: Rgb, b: Rgb) -> int {
    (a.r - b.r) * (a.r - b.r) + (a.g - b.g) * (a.g - b.g) + (a.b - b.b) * (a.b - b.b)
}

/// Palette entry `i` is the match of `target`: no entry is nearer, and every
/// entry declared before it is strictly farther.
pub open spec fn is_nearest(i: int, target: Rgb) -> bool {
    &&& 0 <= i < palette().len()
    &&& forall|j: int|
        0 <= j < palette().len() ==> distance(palette()[i].color, target) <= distance(
            (#[trigger] palette()[j]).color,
            target,
        )
    &&& forall|j: int|
        0 <= j < i ==> distance(palette()[i].color, target) < distance(
            (#[trigger] palette()[j]).color,
            target,
        )
}

/// The index of the palette entry that `target` is matched to.
pub open spec fn nearest(target: Rgb) -> int {
    choose|i: int| is_nearest(i, target)
}

/// No colour has two matches.
pub proof fn lemma_nearest_is_unique(i: int, j: int, target: Rgb)
    requires
        is_nearest(i, target),
        is_nearest(j, target),
    ensures
        i == j,
{
    if i < j {
        assert(distance(palette()[j].color, target) < distance(palette()[i].color, target));
    } else if j < i {
        assert(distance(palette()[i].color, target) < distance(palette()[j].color, target));
    }
}

/// The match of `target` among the first `n` entries of the palette.
spec fn nearest_among(n: int, target: Rgb) -> int
    decreases n,
{
    if n <= 1 {
        0
    } else {
        let before = nearest_among(n - 1, target);
        if distance(palette()[n - 1].color, target) < distance(palette()[before].color, target) {
            n - 1
        } else {
            before
        }
    }
}

proof fn lemma_nearest_among(n: int, target: Rgb)
    requires
        1 <= n <= palette().len(),
    ensures
        0 <= nearest_among(n, target) < n,
        forall|j: int|
            0 <= j < n ==> distance(palette()[nearest_among(n, target)].color, target)
                <= distance((#[trigger] palette()[j]).color, target),
        forall|j: int|
            0 <= j < nearest_among(n, target) ==> distance(
                palette()[nearest_among(n, target)].color,
                target,
            ) < distance((#[trigger] palette()[j]).color, target),
    decreases n,
{
    if n > 1 {
        lemma_nearest_among(n - 1, target);
    }
}

/// Every colour has a match.
pub proof fn lemma_every_color_has_a_match(target: Rgb)
    ensures
        is_nearest(nearest(target), target),
{
    lemma_nearest_among(palette().len() as int, target);
    assert(is_nearest(nearest_among(palette().len() as int, target), target));
}

/// A distance is never negative, and is zero only between equal colours.
pub proof fn lemma_distance_zero_iff_equal(a: Rgb, b: Rgb)
    ensures
        distance(a, b) >= 0,
        distance(a, b) == 0 <==> a == b,
{
    let dr = a.r - b.r;
    let dg = a.g - b.g;
    let db = a.b - b.b;
    assert(dr * dr >= 0 && (dr * dr == 0 <==> dr == 0)) by (nonlinear_arith);
    assert(dg * dg >= 0 && (dg * dg == 0 <==> dg == 0)) by (nonlinear_arith);
    assert(db * db >= 0 && (db * db == 0 <==> db == 0)) by (nonlinear_arith);
}

/// A colour of the palette is matched to the first entry that has it.
pub proof fn lemma_palette_color_matches_itself(i: int)
    requires
        0 <= i < palette().len(),
        forall|j: int| 0 <= j < i ==> (#[trigger] palette()[j]).color != palette()[i].color,
    ensures
        nearest(palette()[i].color) == i,
{
    let target = palette()[i].color;
    lemma_distance_zero_iff_equal(target, target);
    assert forall|j: int| 0 <= j < palette().len() implies distance(palette()[i].color, target)
        <= distance((#[trigger] palette()[j]).color, target) by {
        lemma_distance_zero_iff_equal(palette()[j].color, target);
    }
    assert forall|j: int| 0 <= j < i implies distance(palette()[i].color, target) < distance(
        (#[trigger] palette()[j]).color,
        target,
    ) by {
        lemma_distance_zero_iff_equal(palette()[j].color, target);
    }
    assert(is_nearest(i, target));
    lemma_nearest_is_unique(i, nearest(target), target);
}

/// Entry `i` of the palette.
pub fn palette_entry(i: usize) -> (entry: NamedColor)
    requires
        i < PALETTE_LEN,
    ensures
        entry == palette()[i as int],
{
    let (name, r, g, b) = COLORS[i];
    NamedColor { name, color: Rgb { r, g, b } }
}

/// The squared distance of one colour channel.
fn channel_distance(a: u8, b: u8) -> (d: u32)
    ensures
        d == (a - b) * (a - b),
        d <= 65025,
{
    let diff: u32 = if a >= b {
        (a - b) as u32
    } else {
        (b - a) as u32
    };
    assert(diff * diff == (a - b) * (a - b) && diff * diff <= 65025) by (nonlinear_arith)
        requires
            diff <= 255,
            diff == a - b || diff == b - a,
    ;
    diff * diff
}

/// The squared Euclidean distance of two colours.
pub fn squared_distance(a: Rgb, b: Rgb) -> (d: u32)
    ensures
        d == distance(a, b),
{
    channel_distance(a.r, b.r) + channel_distance(a.g, b.g) + channel_distance(a.b, b.b)
}

/// The index of the palette entry nearest to the colour `(r, g, b)`; of
/// several that are equally near, the first.
pub fn match_index(r: u8, g: u8, b: u8) -> (index: usize)
    ensures
        is_nearest(index as int, Rgb { r, g, b }),
        index == nearest(Rgb { r, g, b }),
{
    let target = Rgb { r, g, b };
    let mut best: usize = 0;
    let mut best_dist: u32 = squared_distance(palette_entry(0).color, target);
    let mut i: usize = 1;
    while i < PALETTE_LEN
        invariant
            1 <= i <= PALETTE_LEN,
            best < i,
            best_dist == distance(palette()[best as int].color, target),
            forall|j: int|
                0 <= j < i ==> best_dist <= distance((#[trigger] palette()[j]).color, target),
            forall|j: int|
                0 <= j < best ==> best_dist < distance((#[trigger] palette()[j]).color, target),
        decreases PALETTE_LEN - i,
    {
        let dist = squared_distance(palette_entry(i).color, target);
        if dist < best_dist {
            best = i;
            best_dist = dist;
        }
        i = i + 1;
    }
    proof {
        assert(is_nearest(best as int, target));
        lemma_nearest_is_unique(best as int, nearest(target), target);
    }
    best
}

/// The name of the palette entry nearest to the colour `(r, g, b)`; of
/// several that are equally near, the first.
pub fn match_color(r: u8, g: u8, b: u8) -> (name: &'static str)
    ensures
        is_nearest(nearest(Rgb { r, g, b }), Rgb { r, g, b }),
        name == palette()[nearest(Rgb { r, g, b })].name,
{
    palette_entry(match_index(r, g, b)).name
}

} // verus!
