//! Glyphs, and the choice of a theme.
//!
//! Two hard constraints shape this module:
//!
//! * **The live appliance renders on the bare Linux framebuffer console**
//!   (`TERM=linux`). That console supports only the 16 ANSI colors and a
//!   CP437-ish glyph set: no truecolor, no rounded corners, no exotic Unicode.
//! * **Terminal fonts disagree about glyph width.** Characters with an
//!   *ambiguous* or *wide* East Asian Width are counted as one column by layout
//!   but drawn as two columns by many fonts. The cumulative error detaches box
//!   borders, the classic TUI "border drift". The glyphs here are width-1 in
//!   every font: ASCII, and the box-drawing, block-element and braille ranges,
//!   which terminals special-case.

use vstd::prelude::*;

use crate::text::{chars_of, same};

verus! {

/// Width-1-safe glyphs.
#[derive(Clone, Copy, Debug)]
pub struct Glyphs {
    /// Whether block borders are rounded (desktop) or plain (console).
    pub rounded: bool,
    /// Cursor row indicator (a left bar). Trailing space included.
    pub cursor: &'static str,
    /// Selection marker shown for a disk that will be erased.
    pub sel_on: &'static str,
    /// Marker for a disk that cannot be selected.
    pub locked: &'static str,
    /// Empty selection slot.
    pub sel_off: &'static str,
    /// Horizontal rule fill.
    pub rule: &'static str,
    /// Whether the gauge may use sub-cell block resolution.
    pub fine_gauge: bool,
}

/// [`Glyphs`] by their texts.
pub struct GlyphModel {
    pub rounded: bool,
    pub cursor: Seq<char>,
    pub sel_on: Seq<char>,
    pub locked: Seq<char>,
    pub sel_off: Seq<char>,
    pub rule: Seq<char>,
    pub fine_gauge: bool,
}

impl View for Glyphs {
    type V = GlyphModel;

    open spec fn view(&self) -> GlyphModel {
        GlyphModel {
            rounded: self.rounded,
            cursor: self.cursor@,
            sel_on: self.sel_on@,
            locked: self.locked@,
            sel_off: self.sel_off@,
            rule: self.rule@,
            fine_gauge: self.fine_gauge,
        }
    }
}

/// The block-element set.
pub open spec fn fancy_glyphs() -> GlyphModel {
    GlyphModel {
        rounded: true,
        cursor: "▌ "@,
        sel_on: "█"@,
        locked: "▒"@,
        sel_off: " "@,
        rule: "─"@,
        fine_gauge: true,
    }
}

/// The CP437-safe set.
pub open spec fn plain_glyphs() -> GlyphModel {
    GlyphModel {
        rounded: false,
        cursor: "> "@,
        sel_on: "#"@,
        locked: "x"@,
        sel_off: " "@,
        rule: "-"@,
        fine_gauge: false,
    }
}

/// Frame `k` of the spinner for active work.
pub open spec fn spinner_spec(fancy: bool, k: int) -> Seq<char> {
    if fancy {
        let i = k % 10;
        if i == 0 {
            "⠋"@
        } else if i == 1 {
            "⠙"@
        } else if i == 2 {
            "⠹"@
        } else if i == 3 {
            "⠸"@
        } else if i == 4 {
            "⠼"@
        } else if i == 5 {
            "⠴"@
        } else if i == 6 {
            "⠦"@
        } else if i == 7 {
            "⠧"@
        } else if i == 8 {
            "⠇"@
        } else {
            "⠏"@
        }
    } else {
        let i = k % 4;
        if i == 0 {
            "|"@
        } else if i == 1 {
            "/"@
        } else if i == 2 {
            "-"@
        } else {
            "\\"@
        }
    }
}

impl Glyphs {
    /// Block-element set for desktop terminals.
    pub fn fancy() -> (g: Self)
        ensures
            g@ == fancy_glyphs(),
    {
        Glyphs {
            rounded: true,
            cursor: "▌ ",
            sel_on: "█",
            locked: "▒",
            sel_off: " ",
            rule: "─",
            fine_gauge: true,
        }
    }

    /// CP437-safe set for the Linux framebuffer console.
    pub fn plain() -> (g: Self)
        ensures
            g@ == plain_glyphs(),
    {
        Glyphs {
            rounded: false,
            cursor: "> ",
            sel_on: "#",
            locked: "x",
            sel_off: " ",
            rule: "-",
            fine_gauge: false,
        }
    }

    /// Frame of the spinner for the animation counter `k`.
    pub fn spinner(&self, k: usize) -> (s: &'static str)
        ensures
            s@ == spinner_spec(self.fine_gauge, k as int),
    {
        if self.fine_gauge {
            match k % 10 {
                0 => "⠋",
                1 => "⠙",
                2 => "⠹",
                3 => "⠸",
                4 => "⠼",
                5 => "⠴",
                6 => "⠦",
                7 => "⠧",
                8 => "⠇",
                _ => "⠏",
            }
        } else {
            match k % 4 {
                0 => "|",
                1 => "/",
                2 => "-",
                _ => "\\",
            }
        }
    }
}

/// Whether the environment calls for the pretty theme: `term` is the value of
/// `TERM` if it is set and readable, `plain` and `no_color` tell whether
/// `DBAN_PLAIN` and `NO_COLOR` are set.
pub open spec fn is_fancy(plain: bool, no_color: bool, term: Option<Seq<char>>) -> bool {
    !plain && !no_color && match term {
        Some(t) => t != "linux"@ && t != "dumb"@ && t != ""@,
        None => false,
    }
}

/// Pick a theme from the environment. The kernel console (`TERM=linux`) and
/// dumb terminals get the safe theme; everything else gets the pretty one.
/// `NO_COLOR` and an explicit `DBAN_PLAIN` also force safe mode.
pub fn detect(plain: bool, no_color: bool, term: &Option<String>) -> (fancy: bool)
    ensures
        fancy == is_fancy(plain, no_color, crate::engine::text_model(*term)),
{
    if plain || no_color {
        return false;
    }
    match term {
        Some(t) => !(same(t.as_str(), "linux") || same(t.as_str(), "dumb") || same(t.as_str(), "")),
        None => false,
    }
}

/// Every glyph of both sets is one column wide, and the cursor bar is one
/// column and a blank.
pub proof fn law_glyphs_are_one_column()
    ensures
        fancy_glyphs().cursor.len() == 2 && plain_glyphs().cursor.len() == 2,
        fancy_glyphs().sel_on.len() == 1 && plain_glyphs().sel_on.len() == 1,
        fancy_glyphs().locked.len() == 1 && plain_glyphs().locked.len() == 1,
        fancy_glyphs().sel_off.len() == 1 && plain_glyphs().sel_off.len() == 1,
        fancy_glyphs().rule.len() == 1 && plain_glyphs().rule.len() == 1,
        forall|fancy: bool, k: int| (#[trigger] spinner_spec(fancy, k)).len() == 1,
{
    reveal_strlit("▌ ");
    reveal_strlit("█");
    reveal_strlit("▒");
    reveal_strlit(" ");
    reveal_strlit("─");
    reveal_strlit("> ");
    reveal_strlit("#");
    reveal_strlit("x");
    reveal_strlit("-");
    reveal_strlit("⠋");
    reveal_strlit("⠙");
    reveal_strlit("⠹");
    reveal_strlit("⠸");
    reveal_strlit("⠼");
    reveal_strlit("⠴");
    reveal_strlit("⠦");
    reveal_strlit("⠧");
    reveal_strlit("⠇");
    reveal_strlit("⠏");
    reveal_strlit("|");
    reveal_strlit("/");
    reveal_strlit("\\");
}

/// Whether a character is printable ASCII.
pub open spec fn is_ascii_glyph(c: char) -> bool {
    ' ' <= c <= '~'
}

/// Whether a character beyond ASCII is drawn in one column by every font: box
/// drawing, block elements, braille, and the single angle quotes.
pub open spec fn is_block_glyph(c: char) -> bool {
    ||| '\u{2500}' <= c <= '\u{259f}'
    ||| '\u{2800}' <= c <= '\u{28ff}'
    ||| c == '‹'
    ||| c == '›'
}

/// Whether a theme may draw a character: the console draws ASCII only.
pub open spec fn is_safe_glyph(c: char, fancy: bool) -> bool {
    is_ascii_glyph(c) || (fancy && is_block_glyph(c))
}

/// The ASCII character that stands for one that cannot be drawn.
pub open spec fn ascii_stand_in(c: char) -> char {
    if c == '—' || c == '–' || c == '─' {
        '-'
    } else if c == '│' {
        '|'
    } else if c == '└' {
        '`'
    } else if c == '‹' {
        '<'
    } else if c == '›' {
        '>'
    } else {
        '?'
    }
}

/// A character as a theme draws it.
pub open spec fn shown_char(c: char, fancy: bool) -> char {
    if is_safe_glyph(c, fancy) {
        c
    } else {
        ascii_stand_in(c)
    }
}

/// A text as a theme draws it.
pub open spec fn shown_text(s: Seq<char>, fancy: bool) -> Seq<char> {
    s.map_values(|c: char| shown_char(c, fancy))
}

fn show_char(c: char, fancy: bool) -> (r: char)
    ensures
        r == shown_char(c, fancy),
{
    let safe = (' ' <= c && c <= '~') || (fancy && (('\u{2500}' <= c && c <= '\u{259f}') || (
    '\u{2800}' <= c && c <= '\u{28ff}') || c == '‹' || c == '›'));
    if safe {
        c
    } else if c == '—' || c == '–' || c == '─' {
        '-'
    } else if c == '│' {
        '|'
    } else if c == '└' {
        '`'
    } else if c == '‹' {
        '<'
    } else if c == '›' {
        '>'
    } else {
        '?'
    }
}

/// A text as a theme draws it: a character that some font would draw wider than
/// one column, and on the console any character beyond ASCII, is replaced by an
/// ASCII one.
pub fn show_text(s: &str, fancy: bool) -> (r: String)
    ensures
        r@ == shown_text(s@, fancy),
{
    let v = chars_of(s);
    let mut r = String::new();
    let mut i: usize = 0;
    assert(r@ =~= shown_text(v@.take(0), fancy));
    while i < v.len()
        invariant
            i <= v@.len(),
            r@ == shown_text(v@.take(i as int), fancy),
        decreases v@.len() - i,
    {
        r.push(show_char(v[i], fancy));
        i += 1;
        assert(r@ =~= shown_text(v@.take(i as int), fancy));
    }
    assert(v@.take(i as int) =~= v@);
    r
}

/// What a theme draws is safe: every character takes one column in every font,
/// and on the console every character is ASCII. No text grows or shrinks.
pub proof fn law_shown_text_is_safe(s: Seq<char>, fancy: bool, i: int)
    requires
        0 <= i < s.len(),
    ensures
        shown_text(s, fancy).len() == s.len(),
        is_safe_glyph(shown_text(s, fancy)[i], fancy),
        !fancy ==> is_ascii_glyph(shown_text(s, fancy)[i]),
{
}

} // verus!
