use vstd::prelude::*;

use crate::ascii::{DOTS, EIGHT, FIVE, FOUR, NINE, ONE, SEVEN, SIX, THREE, TWO, ZERO};
use crate::text::{
    chars_of, parse_usize, parse_usize_chars, replace_all, replace_chars, split_whitespace,
    string_of, words, words_from,
};
use crate::timer::digit_value;

verus! {

pub const EXCLAMATION: [&'static str; 5] = [
    " _ ",
    "| |",
    "| |",
    "|_|",
    "(_)",
];

/// FIGlet font character: its rows, top to bottom.
#[derive(Debug, Clone)]
pub struct Char(pub Vec<String>);

impl Char {
    /// The rows of the character.
    pub open spec fn rows(&self) -> Seq<Seq<char>> {
        self.0@.map_values(|s: String| s@)
    }

    /// A five-row character from its rows.
    pub fn from_rows(rows: [&'static str; 5]) -> (r: Char)
        ensures
            r.rows() == seq![rows[0]@, rows[1]@, rows[2]@, rows[3]@, rows[4]@],
    {
        let mut v: Vec<String> = Vec::new();
        v.push(String::from_str(rows[0]));
        v.push(String::from_str(rows[1]));
        v.push(String::from_str(rows[2]));
        v.push(String::from_str(rows[3]));
        v.push(String::from_str(rows[4]));
        let r = Char(v);
        assert(r.rows() =~= seq![rows[0]@, rows[1]@, rows[2]@, rows[3]@, rows[4]@]);
        r
    }
}

/// A character that a FIGlet font of this library draws: a decimal digit, a colon or `!`.
pub open spec fn is_figlet_char(c: char) -> bool {
    ('0' <= c && c <= '9') || c == ':' || c == '!'
}

/// FIGlet font: the characters a timer needs.
#[derive(Debug, Clone)]
pub struct Font {
    zero: Char,
    one: Char,
    two: Char,
    three: Char,
    four: Char,
    five: Char,
    six: Char,
    seven: Char,
    eight: Char,
    nine: Char,
    dots: Char,
    exclamation: Char,
}

/// Row `i` of `text` drawn in `font`: row `i` of each character, side by side.
pub open spec fn figlet_row(font: Font, text: Seq<char>, i: int) -> Seq<char>
    decreases text.len(),
{
    if text.len() == 0 {
        seq![]
    } else {
        figlet_row(font, text.drop_last(), i) + font.glyph(text.last())[i]
    }
}

/// The first `n` rows of `text` drawn in `font`, separated by line breaks.
pub open spec fn figlet_rows(font: Font, text: Seq<char>, n: nat) -> Seq<char>
    decreases n,
{
    if n == 0 {
        seq![]
    } else if n == 1 {
        figlet_row(font, text, 0)
    } else {
        figlet_rows(font, text, (n - 1) as nat) + seq!['\n'] + figlet_row(font, text, n - 1)
    }
}

/// `text` drawn in `font`.
pub open spec fn figlet_text(font: Font, text: Seq<char>) -> Seq<char> {
    figlet_rows(font, text, font.height())
}

impl Font {
    /// The rows of the character `c`.
    pub closed spec fn glyph(self, c: char) -> Seq<Seq<char>> {
        if c == '0' {
            self.zero.rows()
        } else if c == '1' {
            self.one.rows()
        } else if c == '2' {
            self.two.rows()
        } else if c == '3' {
            self.three.rows()
        } else if c == '4' {
            self.four.rows()
        } else if c == '5' {
            self.five.rows()
        } else if c == '6' {
            self.six.rows()
        } else if c == '7' {
            self.seven.rows()
        } else if c == '8' {
            self.eight.rows()
        } else if c == '9' {
            self.nine.rows()
        } else if c == ':' {
            self.dots.rows()
        } else {
            self.exclamation.rows()
        }
    }

    /// The number of rows of every character.
    pub closed spec fn height(self) -> nat {
        self.zero.rows().len()
    }

    /// Every character has as many rows as the font's height.
    pub open spec fn wf(self) -> bool {
        forall|c: char| is_figlet_char(c) ==> #[trigger] self.glyph(c).len() == self.height()
    }

    fn glyph_of(&self, c: char) -> (r: &Char)
        requires
            is_figlet_char(c),
        ensures
            r.rows() == self.glyph(c),
    {
        match c {
            '0' => &self.zero,
            '1' => &self.one,
            '2' => &self.two,
            '3' => &self.three,
            '4' => &self.four,
            '5' => &self.five,
            '6' => &self.six,
            '7' => &self.seven,
            '8' => &self.eight,
            '9' => &self.nine,
            ':' => &self.dots,
            _ => &self.exclamation,
        }
    }

    /// Draws `string`, made of digits, colons and `!`, in this font.
    pub fn convert(&self, string: &str) -> (r: String)
        requires
            self.wf(),
            forall|k: int| 0 <= k < string@.len() ==> is_figlet_char(#[trigger] string@[k]),
        ensures
            r@ == figlet_text(*self, string@),
    {
        let height = self.zero.0.len();
        let n = string.unicode_len();
        let mut out = String::new();
        let mut i: usize = 0;
        while i < height
            invariant
                self.wf(),
                height == self.height(),
                n == string@.len(),
                i <= height,
                forall|k: int| 0 <= k < string@.len() ==> is_figlet_char(#[trigger] string@[k]),
                out@ == figlet_rows(*self, string@, i as nat),
            decreases height - i,
        {
            if i > 0 {
                out.append("\n");
                proof {
                    reveal_strlit("\n");
                }
            }
            let mut j: usize = 0;
            let ghost start = out@;
            while j < n
                invariant
                    self.wf(),
                    height == self.height(),
                    n == string@.len(),
                    i < height,
                    forall|k: int| 0 <= k < string@.len() ==> is_figlet_char(#[trigger] string@[k]),
                    out@ == start + figlet_row(*self, string@.take(j as int), i as int),
                    j <= n,
                decreases n - j,
            {
                let c = string.get_char(j);
                let g = self.glyph_of(c);
                assert(self.glyph(c).len() == self.height());
                out.append(g.0[i].as_str());
                proof {
                    let next = string@.take(j + 1);
                    assert(next.drop_last() =~= string@.take(j as int));
                    assert(next.last() == c);
                }
                j = j + 1;
            }
            assert(string@.take(n as int) =~= string@);
            proof {
                let rows = figlet_rows(*self, string@, (i + 1) as nat);
                if i == 0 {
                    assert(rows == figlet_row(*self, string@, 0));
                    assert(out@ =~= rows);
                } else {
                    assert(rows == figlet_rows(*self, string@, i as nat) + seq!['\n'] + figlet_row(
                        *self,
                        string@,
                        i as int,
                    ));
                    assert(out@ =~= rows);
                }
            }
            i = i + 1;
        }
        out
    }
}

impl Default for Font {
    /// The built-in font, whose digits and colon are those of the clock art.
    fn default() -> (r: Font)
        ensures
            r.wf(),
            r.height() == 5,
            r.glyph('0') == seq![ZERO[0]@, ZERO[1]@, ZERO[2]@, ZERO[3]@, ZERO[4]@],
            r.glyph('1') == seq![ONE[0]@, ONE[1]@, ONE[2]@, ONE[3]@, ONE[4]@],
            r.glyph('2') == seq![TWO[0]@, TWO[1]@, TWO[2]@, TWO[3]@, TWO[4]@],
            r.glyph('3') == seq![THREE[0]@, THREE[1]@, THREE[2]@, THREE[3]@, THREE[4]@],
            r.glyph('4') == seq![FOUR[0]@, FOUR[1]@, FOUR[2]@, FOUR[3]@, FOUR[4]@],
            r.glyph('5') == seq![FIVE[0]@, FIVE[1]@, FIVE[2]@, FIVE[3]@, FIVE[4]@],
            r.glyph('6') == seq![SIX[0]@, SIX[1]@, SIX[2]@, SIX[3]@, SIX[4]@],
            r.glyph('7') == seq![SEVEN[0]@, SEVEN[1]@, SEVEN[2]@, SEVEN[3]@, SEVEN[4]@],
            r.glyph('8') == seq![EIGHT[0]@, EIGHT[1]@, EIGHT[2]@, EIGHT[3]@, EIGHT[4]@],
            r.glyph('9') == seq![NINE[0]@, NINE[1]@, NINE[2]@, NINE[3]@, NINE[4]@],
            r.glyph(':') == seq![DOTS[0]@, DOTS[1]@, DOTS[2]@, DOTS[3]@, DOTS[4]@],
            r.glyph('!') == seq![
                EXCLAMATION[0]@,
                EXCLAMATION[1]@,
                EXCLAMATION[2]@,
                EXCLAMATION[3]@,
                EXCLAMATION[4]@,
            ],
    {
        Font {
            zero: Char::from_rows(ZERO),
            one: Char::from_rows(ONE),
            two: Char::from_rows(TWO),
            three: Char::from_rows(THREE),
            four: Char::from_rows(FOUR),
            five: Char::from_rows(FIVE),
            six: Char::from_rows(SIX),
            seven: Char::from_rows(SEVEN),
            eight: Char::from_rows(EIGHT),
            nine: Char::from_rows(NINE),
            dots: Char::from_rows(DOTS),
            exclamation: Char::from_rows(EXCLAMATION),
        }
    }
}

/// How many characters a FIGlet font file must define: the printable ASCII ones.
pub const REQUIRED_CHARS: usize = 95;

/// A FIGlet font file begins with this signature.
pub open spec fn starts_flf(line: Seq<char>) -> bool {
    line.len() >= 5 && line.take(5) == seq!['f', 'l', 'f', '2', 'a']
}

pub open spec fn ends_with(line: Seq<char>, c: char) -> bool {
    line.len() > 0 && line.last() == c
}

/// The first lines of the characters of a font file, read from line `i` on: lines that do not
/// end with `endmark` are skipped, and each character takes `height` lines from the first line
/// that does. `count` characters were read before; `seeking` tells that lines are being skipped.
/// Reading ends at the end of the file, which must not fall among skipped lines, once at least
/// `REQUIRED_CHARS` characters are read.
pub open spec fn scan_glyphs(
    lines: Seq<Seq<char>>,
    i: nat,
    endmark: char,
    height: nat,
    count: nat,
    seeking: bool,
) -> Option<Seq<nat>>
    decreases lines.len() - i,
{
    if i >= lines.len() {
        if !seeking && count >= REQUIRED_CHARS {
            Some(seq![])
        } else {
            None
        }
    } else if !ends_with(lines[i as int], endmark) {
        scan_glyphs(lines, i + 1, endmark, height, count, true)
    } else if height == 0 || i + height > lines.len() {
        None
    } else {
        match scan_glyphs(lines, i + height, endmark, height, count + 1, false) {
            None => None,
            Some(rest) => Some(seq![i] + rest),
        }
    }
}

/// `starts` put in front of the result `o`, if there is one.
pub open spec fn prepend(starts: Seq<nat>, o: Option<Seq<nat>>) -> Option<Seq<nat>> {
    match o {
        None => None,
        Some(rest) => Some(starts + rest),
    }
}

/// What a font file's lines say of its layout: the first line of each character, the height
/// of the characters, the hard blank and the end mark; none if the file is not a valid font.
/// The header is the first line: the signature, then words, of which the first is the hard
/// blank, the second the height, the sixth the number of comment lines. The end mark is the
/// last character of the line after the comments.
pub open spec fn flf_layout(lines: Seq<Seq<char>>) -> Option<(Seq<nat>, nat, Seq<char>, char)> {
    if lines.len() == 0 || !starts_flf(lines[0]) {
        None
    } else {
        let header = words(lines[0].skip(5));
        if header.len() < 6 {
            None
        } else {
            match (parse_usize(header[1]), parse_usize(header[5])) {
                (Some(height), Some(comments)) => {
                    let i = comments + 1;
                    if i > usize::MAX || i >= lines.len() || lines[i as int].len() == 0 {
                        None
                    } else {
                        let endmark = lines[i as int].last();
                        match scan_glyphs(lines, i, endmark, height, 0, false) {
                            None => None,
                            Some(starts) => Some((starts, height, header[0], endmark)),
                        }
                    }
                },
                _ => None,
            }
        }
    }
}

/// A row of a character as drawn: hard blanks become spaces, end marks go.
pub open spec fn fix_row(line: Seq<char>, hard_blank: Seq<char>, endmark: char) -> Seq<char> {
    replace_all(replace_all(line, hard_blank, seq![' ']), seq![endmark], seq![])
}

/// The rows of the character whose first line is `start`.
pub open spec fn flf_rows(
    lines: Seq<Seq<char>>,
    start: nat,
    height: nat,
    hard_blank: Seq<char>,
    endmark: char,
) -> Seq<Seq<char>> {
    Seq::new(height, |k: int| fix_row(lines[start + k], hard_blank, endmark))
}

/// The place of `c` among the characters of a font file, which come in ASCII order from space.
pub open spec fn flf_index(c: char) -> int {
    if c == '!' {
        1
    } else if c == ':' {
        26
    } else {
        16 + digit_value(c) as int
    }
}

proof fn lemma_words_nonempty(s: Seq<char>, i: int, word: Seq<char>)
    requires
        0 <= i,
    ensures
        forall|k: int|
            0 <= k < words_from(s, i, word).len() ==> (#[trigger] words_from(s, i, word)[k]).len()
                > 0,
    decreases s.len() - i,
{
    let ws = words_from(s, i, word);
    if i >= s.len() {
        if word.len() > 0 {
            assert(ws == seq![word]);
            assert(ws[0] == word);
        } else {
            assert(ws == Seq::<Seq<char>>::empty());
        }
    } else {
        if crate::text::is_whitespace(s[i]) {
            lemma_words_nonempty(s, i + 1, seq![]);
            let head: Seq<Seq<char>> = if word.len() > 0 {
                seq![word]
            } else {
                seq![]
            };
            let rest = words_from(s, i + 1, seq![]);
            assert(ws == head + rest);
            assert forall|k: int| 0 <= k < ws.len() implies (#[trigger] ws[k]).len() > 0 by {
                if k < head.len() {
                    assert(ws[k] == head[k]);
                } else {
                    assert(ws[k] == rest[k - head.len()]);
                }
            }
        } else {
            lemma_words_nonempty(s, i + 1, word.push(s[i]));
            assert(ws == words_from(s, i + 1, word.push(s[i])));
        }
    }
}

fn is_signature(line: &Vec<char>) -> (r: bool)
    ensures
        r == starts_flf(line@),
{
    if line.len() < 5 {
        return false;
    }
    let r = line[0] == 'f' && line[1] == 'l' && line[2] == 'f' && line[3] == '2' && line[4] == 'a';
    assert(line@.take(5)[0] == line@[0]);
    assert(line@.take(5)[1] == line@[1]);
    assert(line@.take(5)[2] == line@[2]);
    assert(line@.take(5)[3] == line@[3]);
    assert(line@.take(5)[4] == line@[4]);
    if r {
        assert(line@.take(5) =~= seq!['f', 'l', 'f', '2', 'a']);
    }
    r
}

fn skip_chars(v: &Vec<char>, k: usize) -> (r: Vec<char>)
    requires
        k <= v@.len(),
    ensures
        r@ == v@.skip(k as int),
{
    let mut r: Vec<char> = Vec::new();
    let mut i: usize = k;
    while i < v.len()
        invariant
            k <= i <= v@.len(),
            r@ == v@.subrange(k as int, i as int),
        decreases v@.len() - i,
    {
        r.push(v[i]);
        i = i + 1;
        assert(r@ =~= v@.subrange(k as int, i as int));
    }
    assert(r@ =~= v@.skip(k as int));
    r
}

fn ends_with_mark(lines: &Vec<String>, i: usize, endmark: char) -> (r: bool)
    requires
        i < lines@.len(),
    ensures
        r == ends_with(lines@[i as int]@, endmark),
{
    let line = chars_of(lines[i].as_str());
    line.len() > 0 && line[line.len() - 1] == endmark
}

fn flf_char(
    lines: &Vec<String>,
    start: usize,
    height: usize,
    hard_blank: &Vec<char>,
    endmark: char,
) -> (r: Char)
    requires
        start + height <= lines@.len(),
        hard_blank@.len() > 0,
    ensures
        r.rows() == flf_rows(
            lines@.map_values(|l: String| l@),
            start as nat,
            height as nat,
            hard_blank@,
            endmark,
        ),
{
    let ghost lv = lines@.map_values(|l: String| l@);
    let space: Vec<char> = vec![' '];
    let mark: Vec<char> = vec![endmark];
    let nothing: Vec<char> = Vec::new();
    let mut rows: Vec<String> = Vec::new();
    let mut k: usize = 0;
    let n = lines.len();
    while k < height
        invariant
            n == lines@.len(),
            start + height <= lines@.len(),
            lv == lines@.map_values(|l: String| l@),
            hard_blank@.len() > 0,
            space@ == seq![' '],
            mark@ == seq![endmark],
            nothing@ == Seq::<char>::empty(),
            k <= height,
            rows@.len() == k,
            forall|m: int|
                0 <= m < k ==> (#[trigger] rows@[m])@ == fix_row(
                    lv[start + m],
                    hard_blank@,
                    endmark,
                ),
        decreases height - k,
    {
        let line = chars_of(lines[start + k].as_str());
        let spaced = replace_chars(&line, hard_blank, &space);
        let fixed = replace_chars(&spaced, &mark, &nothing);
        rows.push(string_of(&fixed));
        k = k + 1;
    }
    let r = Char(rows);
    assert(r.rows() =~= flf_rows(lv, start as nat, height as nat, hard_blank@, endmark));
    r
}

impl Font {
    /// Reads a FIGlet font from the lines of a font file (see `flf_layout` and `flf_rows`);
    /// `path` names the file in the error.
    pub fn parse_flf(path: &str, lines: &Vec<String>) -> (r: Result<Font, FontError>)
        ensures
            match flf_layout(lines@.map_values(|l: String| l@)) {
                None => r matches Err(FontError::InvalidFile(p)) && p@ == path@,
                Some(layout) => r is Ok && r->Ok_0.wf() && r->Ok_0.height() == layout.1 && forall|
                    c: char,
                | is_figlet_char(c) ==> #[trigger] r->Ok_0.glyph(c) == flf_rows(
                    lines@.map_values(|l: String| l@),
                    layout.0[flf_index(c)],
                    layout.1,
                    layout.2,
                    layout.3,
                ),
            },
    {
        let ghost lv = lines@.map_values(|l: String| l@);
        let n = lines.len();
        if n == 0 {
            return Err(FontError::InvalidFile(String::from_str(path)));
        }
        let first = chars_of(lines[0].as_str());
        if !is_signature(&first) {
            return Err(FontError::InvalidFile(String::from_str(path)));
        }
        let header = split_whitespace(&skip_chars(&first, 5));
        proof {
            lemma_words_nonempty(first@.skip(5), 0, seq![]);
        }
        if header.len() < 6 {
            return Err(FontError::InvalidFile(String::from_str(path)));
        }
        assert(header@.map_values(|w: Vec<char>| w@)[1] == header@[1]@);
        assert(header@.map_values(|w: Vec<char>| w@)[5] == header@[5]@);
        assert(header@.map_values(|w: Vec<char>| w@)[0] == header@[0]@);
        let height = match parse_usize_chars(&header[1]) {
            Some(h) => h,
            None => {
                return Err(FontError::InvalidFile(String::from_str(path)));
            },
        };
        let comments = match parse_usize_chars(&header[5]) {
            Some(c) => c,
            None => {
                return Err(FontError::InvalidFile(String::from_str(path)));
            },
        };
        if comments == usize::MAX || comments + 1 >= n {
            return Err(FontError::InvalidFile(String::from_str(path)));
        }
        let mut i = comments + 1;
        let mark_line = chars_of(lines[i].as_str());
        if mark_line.len() == 0 {
            return Err(FontError::InvalidFile(String::from_str(path)));
        }
        let endmark = mark_line[mark_line.len() - 1];
        let ghost i0 = i as nat;
        let ghost hb = header@[0]@;
        assert(lv[0] == lines@[0]@);
        assert(lv[i as int] == lines@[i as int]@);
        assert(flf_layout(lv) == match scan_glyphs(lv, i0, endmark, height as nat, 0, false) {
            None => None,
            Some(st) => Some((st, height as nat, hb, endmark)),
        });
        let mut starts: Vec<usize> = Vec::new();
        let ghost mut gs: Seq<nat> = seq![];
        let mut seeking = false;
        while i < n
            invariant
                n == lv.len(),
                lv == lines@.map_values(|l: String| l@),
                flf_layout(lv) == match scan_glyphs(lv, i0, endmark, height as nat, 0, false) {
                    None => None,
                    Some(st) => Some((st, height as nat, hb, endmark)),
                },
                gs.len() == starts@.len(),
                forall|m: int| 0 <= m < gs.len() ==> gs[m] == #[trigger] starts@[m] as nat,
                forall|m: int| 0 <= m < gs.len() ==> gs[m] + height <= n,
                scan_glyphs(lv, i0, endmark, height as nat, 0, false) == prepend(
                    gs,
                    scan_glyphs(lv, i as nat, endmark, height as nat, gs.len(), seeking),
                ),
            decreases n - i,
        {
            assert(lv[i as int] == lines@[i as int]@);
            if !ends_with_mark(lines, i, endmark) {
                seeking = true;
                i = i + 1;
            } else {
                if height == 0 || height > n - i {
                    return Err(FontError::InvalidFile(String::from_str(path)));
                }
                proof {
                    let rest = scan_glyphs(lv, (i + height) as nat, endmark, height as nat, gs.len() + 1, false);
                    assert(prepend(gs, prepend(seq![i as nat], rest)) == prepend(gs.push(i as nat), rest)) by {
                        match rest {
                            None => {},
                            Some(t) => {
                                assert(gs + (seq![i as nat] + t) =~= gs.push(i as nat) + t);
                            },
                        }
                    }
                    gs = gs.push(i as nat);
                }
                starts.push(i);
                i = i + height;
                seeking = false;
            }
        }
        if seeking || starts.len() < REQUIRED_CHARS {
            return Err(FontError::InvalidFile(String::from_str(path)));
        }
        assert(gs + Seq::<nat>::empty() =~= gs);
        let hard_blank = &header[0];
        let font = Font {
            zero: flf_char(lines, starts[16], height, hard_blank, endmark),
            one: flf_char(lines, starts[17], height, hard_blank, endmark),
            two: flf_char(lines, starts[18], height, hard_blank, endmark),
            three: flf_char(lines, starts[19], height, hard_blank, endmark),
            four: flf_char(lines, starts[20], height, hard_blank, endmark),
            five: flf_char(lines, starts[21], height, hard_blank, endmark),
            six: flf_char(lines, starts[22], height, hard_blank, endmark),
            seven: flf_char(lines, starts[23], height, hard_blank, endmark),
            eight: flf_char(lines, starts[24], height, hard_blank, endmark),
            nine: flf_char(lines, starts[25], height, hard_blank, endmark),
            dots: flf_char(lines, starts[26], height, hard_blank, endmark),
            exclamation: flf_char(lines, starts[1], height, hard_blank, endmark),
        };
        Ok(font)
    }
}

/// FIGlet font parse error.
#[derive(Debug, Clone, PartialEq, Eq)]
pub enum FontError {
    /// The path is not a file.
    NotAFile(String),
    /// The path is a file, but its extension is not `.flf`.
    InvalidExtension(String),
    /// The file is not a valid FIGlet font file.
    InvalidFile(String),
    /// The font file holds text that is not UTF-8.
    NonUtf8,
}

/// Something that can be drawn in a FIGlet font.
pub trait Figlet {
    fn to_figlet(&self, font: &Font) -> String;
}

} // verus!
