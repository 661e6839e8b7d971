use vstd::prelude::*;

verus! {

// Glyphs of the clock font, five rows each.

pub const DOTS: [&'static str; 5] = [
    "   ",
    " _ ",
    "(_)",
    " _ ",
    "(_)",
];

pub const ONE: [&'static str; 5] = [
    " _ ",
    "/ |",
    "| |",
    "| |",
    "|_|",
];

pub const TWO: [&'static str; 5] = [
    " ____  ",
    "|___ \\ ",
    "  __) |",
    " / __/ ",
    "|_____|",
];

pub const THREE: [&'static str; 5] = [
    " _____ ",
    "|___ / ",
    "  |_ \\ ",
    " ___) |",
    "|____/ ",
];

pub const FOUR: [&'static str; 5] = [
    " _  _   ",
    "| || |  ",
    "| || |_ ",
    "|__   _|",
    "   |_|  ",
];

pub const FIVE: [&'static str; 5] = [
    " ____  ",
    "| ___| ",
    "|___ \\ ",
    " ___) |",
    "|____/ ",
];

pub const SIX: [&'static str; 5] = [
    "  __   ",
    " / /_  ",
    "| '_ \\ ",
    "| (_) |",
    " \\___/ ",
];

pub const SEVEN: [&'static str; 5] = [
    " _____ ",
    "|___  |",
    "   / / ",
    "  / /  ",
    " /_/   ",
];

pub const EIGHT: [&'static str; 5] = [
    "  ___  ",
    " ( _ ) ",
    " / _ \\ ",
    "| (_) |",
    " \\___/ ",
];

pub const NINE: [&'static str; 5] = [
    "  ___  ",
    " / _ \\ ",
    "| (_) |",
    " \\__, |",
    "   /_/ ",
];

pub const ZERO: [&'static str; 5] = [
    "  ___  ",
    " / _ \\ ",
    "| | | |",
    "| |_| |",
    " \\___/ ",
];
/// Whether `c` has a glyph in the clock font: a decimal digit or a colon.
pub open spec fn is_clock_char(c: char) -> bool {
    ('0' <= c && c <= '9') || c == ':'
}

/// The five rows of the glyph of `c` in the clock font.
pub open spec fn glyph(c: char) -> [&'static str; 5] {
    if c == ':' {
        DOTS
    } else if c == '1' {
        ONE
    } else if c == '2' {
        TWO
    } else if c == '3' {
        THREE
    } else if c == '4' {
        FOUR
    } else if c == '5' {
        FIVE
    } else if c == '6' {
        SIX
    } else if c == '7' {
        SEVEN
    } else if c == '8' {
        EIGHT
    } else if c == '9' {
        NINE
    } else {
        ZERO
    }
}

/// Row `i` of the art for `text`: row `i` of each glyph, side by side.
pub open spec fn art_row(text: Seq<char>, i: int) -> Seq<char>
    decreases text.len(),
{
    if text.len() == 0 {
        seq![]
    } else {
        art_row(text.drop_last(), i) + glyph(text.last())@[i]@
    }
}

/// The art for `text`: its five rows, separated by line breaks.
pub open spec fn art(text: Seq<char>) -> Seq<char> {
    art_row(text, 0) + seq!['\n'] + art_row(text, 1) + seq!['\n'] + art_row(text, 2) + seq!['\n']
        + art_row(text, 3) + seq!['\n'] + art_row(text, 4)
}

/// The glyph of a clock character.
pub fn glyph_of(c: char) -> (r: [&'static str; 5])
    requires
        is_clock_char(c),
    ensures
        r == glyph(c),
{
    match c {
        ':' => DOTS,
        '1' => ONE,
        '2' => TWO,
        '3' => THREE,
        '4' => FOUR,
        '5' => FIVE,
        '6' => SIX,
        '7' => SEVEN,
        '8' => EIGHT,
        '9' => NINE,
        _ => ZERO,
    }
}

/// Renders `text`, made of digits and colons, in the clock font.
pub fn render(text: &str) -> (r: String)
    requires
        forall|k: int| 0 <= k < text@.len() ==> is_clock_char(#[trigger] text@[k]),
    ensures
        r@ == art(text@),
{
    let n = text.unicode_len();
    let mut r0 = String::new();
    let mut r1 = String::new();
    let mut r2 = String::new();
    let mut r3 = String::new();
    let mut r4 = String::new();
    let mut i: usize = 0;
    while i < n
        invariant
            n == text@.len(),
            i <= n,
            forall|k: int| 0 <= k < text@.len() ==> is_clock_char(#[trigger] text@[k]),
            r0@ == art_row(text@.take(i as int), 0),
            r1@ == art_row(text@.take(i as int), 1),
            r2@ == art_row(text@.take(i as int), 2),
            r3@ == art_row(text@.take(i as int), 3),
            r4@ == art_row(text@.take(i as int), 4),
        decreases n - i,
    {
        let c = text.get_char(i);
        let g = glyph_of(c);
        r0.append(g[0]);
        r1.append(g[1]);
        r2.append(g[2]);
        r3.append(g[3]);
        r4.append(g[4]);
        proof {
            let next = text@.take(i + 1);
            assert(next.drop_last() =~= text@.take(i as int));
            assert(next.last() == c);
        }
        i = i + 1;
    }
    assert(text@.take(n as int) =~= text@);
    r0.append("\n");
    r0.append(r1.as_str());
    r0.append("\n");
    r0.append(r2.as_str());
    r0.append("\n");
    r0.append(r3.as_str());
    r0.append("\n");
    r0.append(r4.as_str());
    proof {
        reveal_strlit("\n");
    }
    r0
}

/// Something that can be drawn as large ASCII art.
pub trait Ascii {
    /// The characters of the art.
    spec fn ascii_view(&self) -> Seq<char>;

    /// Draws `self` as ASCII art.
    fn to_ascii_art(&self) -> (r: String)
        ensures
            r@ == self.ascii_view(),
    ;
}

} // verus!
