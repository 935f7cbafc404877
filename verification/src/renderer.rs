//! Rendering context: the terminal's color profile and whether its
//! background is dark, with the rules that derive them from the environment.

use vstd::prelude::*;
use crate::strings::{chars_of, parse_u32, spec_parse_u32};

verus! {

/// How many colors a terminal can show.
#[derive(Debug, Clone, Copy, PartialEq, Eq, Structural)]
pub enum ColorProfileKind {
    /// 24-bit color.
    TrueColor,
    /// The 256-color palette.
    ANSI256,
    /// The 16 basic colors.
    ANSI,
    /// No color at all.
    NoColor,
}

/// What is known of the output stream.
#[derive(Debug, Clone, Copy, PartialEq, Eq, Structural)]
pub struct Output {
    /// Whether escape sequences are understood.
    pub supports_ansi: bool,
    /// Whether the stream is a terminal.
    pub is_tty_like: bool,
}

/// The parts of the process environment that color detection reads.
#[derive(Debug, Clone)]
pub struct Environment {
    /// `NO_COLOR` is set.
    pub no_color: bool,
    /// Value of `COLORTERM` (empty when unset).
    pub colorterm: String,
    /// Value of `TERM` (empty when unset).
    pub term: String,
    /// Value of `COLORFGBG`, if set.
    pub colorfgbg: Option<String>,
}

/// Terminal color settings: a profile and a background brightness, each
/// either set explicitly or detected once from the environment.
///
/// A renderer is a plain value: a copy (one made by `clone`, or the one a
/// style keeps through `Style::renderer`) holds the settings as they were
/// when it was made, and later changes to either one leave the other as
/// it is. Settings shared by the whole process are kept by the program in
/// one place and handed to the functions that render.
#[derive(Debug, Clone, Copy)]
pub struct Renderer {
    output: Option<Output>,
    color_profile: ColorProfileKind,
    explicit_color_profile: bool,
    color_profile_detected: bool,
    has_dark_background: bool,
    explicit_background: bool,
    background_detected: bool,
}

/// ASCII lowercase of a character.
pub open spec fn ascii_lower(c: char) -> char {
    if 'A' <= c <= 'Z' {
        ((c as u32) + 32) as char
    } else {
        c
    }
}

/// ASCII lowercase of a string.
pub open spec fn lower(s: Seq<char>) -> Seq<char> {
    s.map_values(|c: char| ascii_lower(c))
}

/// Whether `needle` occurs in `s`.
pub open spec fn contains_seq(s: Seq<char>, needle: Seq<char>) -> bool {
    exists|i: int| 0 <= i <= s.len() - needle.len() && #[trigger] s.subrange(i, i + needle.len()) == needle
}

/// The color profile that an environment calls for.
pub open spec fn spec_detect_color_profile(
    no_color: bool,
    colorterm: Seq<char>,
    term: Seq<char>,
) -> ColorProfileKind {
    if no_color {
        ColorProfileKind::NoColor
    } else if contains_seq(lower(colorterm), seq!['t', 'r', 'u', 'e', 'c', 'o', 'l', 'o', 'r'])
        || contains_seq(lower(colorterm), seq!['2', '4', 'b', 'i', 't']) {
        ColorProfileKind::TrueColor
    } else if contains_seq(lower(term), seq!['2', '5', '6', 'c', 'o', 'l', 'o', 'r']) {
        ColorProfileKind::ANSI256
    } else if contains_seq(lower(term), seq!['c', 'o', 'l', 'o', 'r']) {
        ColorProfileKind::ANSI
    } else {
        ColorProfileKind::NoColor
    }
}

/// The last `;`-separated field of `s`.
pub open spec fn last_field(s: Seq<char>) -> Seq<char>
    decreases s.len(),
{
    if s.len() == 0 {
        s
    } else if s.last() == ';' {
        Seq::<char>::empty()
    } else {
        last_field(s.drop_last()).push(s.last())
    }
}

/// Whether a `COLORFGBG` value describes a dark background: its last field
/// parsed as a byte is at most 6; dark when unset or unparsable.
pub open spec fn spec_detect_dark_background(colorfgbg: Option<Seq<char>>) -> bool {
    match colorfgbg {
        Some(v) => match spec_parse_u32(last_field(v)) {
            Some(n) => if n <= 255 { n <= 6 } else { true },
            None => true,
        },
        None => true,
    }
}

fn lower_chars(s: &str) -> (r: Vec<char>)
    ensures
        r@ == lower(s@),
{
    let cs = chars_of(s);
    let mut r: Vec<char> = Vec::new();
    let mut i: usize = 0;
    while i < cs.len()
        invariant
            i <= cs.len(),
            cs@ == s@,
            r@ == lower(s@).take(i as int),
        decreases cs.len() - i,
    {
        let c = cs[i];
        let l = if 'A' <= c && c <= 'Z' { ((c as u8) + 32) as char } else { c };
        proof {
            if 'A' <= c && c <= 'Z' {
                assert((c as u8) as u32 == c as u32);
            }
        }
        r.push(l);
        i = i + 1;
        assert(r@ =~= lower(s@).take(i as int));
    }
    assert(lower(s@).take(cs.len() as int) =~= lower(s@));
    r
}

/// Whether `needle` occurs in `s`.
fn contains_chars(s: &[char], needle: &[char]) -> (r: bool)
    ensures
        r == contains_seq(s@, needle@),
{
    if needle.len() > s.len() {
        return false;
    }
    let mut i: usize = 0;
    while i <= s.len() - needle.len()
        invariant
            needle.len() <= s.len(),
            i <= s.len() - needle.len() + 1,
            forall|k: int| 0 <= k < i ==> #[trigger] s@.subrange(k, k + needle@.len()) != needle@,
        decreases s.len() - i,
    {
        let mut j: usize = 0;
        let mut same = true;
        while j < needle.len()
            invariant
                i + needle.len() <= s.len(),
                j <= needle.len(),
                same == (forall|m: int| 0 <= m < j ==> s@[i + m] == needle@[m]),
            decreases needle.len() - j,
        {
            if s[i + j] != needle[j] {
                same = false;
            }
            j = j + 1;
        }
        if same {
            assert(s@.subrange(i as int, i + needle@.len()) =~= needle@);
            return true;
        }
        assert(s@.subrange(i as int, i + needle@.len()) != needle@) by {
            let m = choose|m: int| 0 <= m < needle.len() && s@[i + m] != needle@[m];
            assert(s@.subrange(i as int, i + needle@.len())[m] != needle@[m]);
        }
        i = i + 1;
    }
    false
}

/// The color profile that the environment calls for: `NO_COLOR` wins, then
/// `COLORTERM` naming true color, then `TERM` naming 256 colors or colors.
pub fn detect_color_profile(env: &Environment) -> (p: ColorProfileKind)
    ensures
        p == spec_detect_color_profile(env.no_color, env.colorterm@, env.term@),
{
    if env.no_color {
        return ColorProfileKind::NoColor;
    }
    let ct = lower_chars(env.colorterm.as_str());
    let tm = lower_chars(env.term.as_str());
    let truecolor = ['t', 'r', 'u', 'e', 'c', 'o', 'l', 'o', 'r'];
    let bits = ['2', '4', 'b', 'i', 't'];
    let c256 = ['2', '5', '6', 'c', 'o', 'l', 'o', 'r'];
    let color = ['c', 'o', 'l', 'o', 'r'];
    assert(truecolor@ =~= seq!['t', 'r', 'u', 'e', 'c', 'o', 'l', 'o', 'r']);
    assert(bits@ =~= seq!['2', '4', 'b', 'i', 't']);
    assert(c256@ =~= seq!['2', '5', '6', 'c', 'o', 'l', 'o', 'r']);
    assert(color@ =~= seq!['c', 'o', 'l', 'o', 'r']);
    if contains_chars(ct.as_slice(), truecolor.as_slice()) || contains_chars(ct.as_slice(), bits.as_slice()) {
        ColorProfileKind::TrueColor
    } else if contains_chars(tm.as_slice(), c256.as_slice()) {
        ColorProfileKind::ANSI256
    } else if contains_chars(tm.as_slice(), color.as_slice()) {
        ColorProfileKind::ANSI
    } else {
        ColorProfileKind::NoColor
    }
}

/// Whether the environment describes a dark background (`COLORFGBG`).
pub fn detect_dark_background(env: &Environment) -> (d: bool)
    ensures
        d == spec_detect_dark_background(
            match env.colorfgbg {
                Some(v) => Some(v@),
                None => None,
            },
        ),
{
    match &env.colorfgbg {
        None => true,
        Some(v) => {
            let cs = chars_of(v.as_str());
            let mut start: usize = cs.len();
            assert(cs@.take(start as int) =~= cs@);
            assert(cs@.subrange(start as int, cs@.len() as int) =~= Seq::<char>::empty());
            while start > 0 && cs[start - 1] != ';'
                invariant
                    start <= cs.len(),
                    last_field(cs@) == last_field(cs@.take(start as int)) + cs@.subrange(
                        start as int,
                        cs@.len() as int,
                    ),
                decreases start,
            {
                let ghost t = cs@.take(start as int);
                assert(t.drop_last() =~= cs@.take(start - 1));
                assert(last_field(t) =~= last_field(t.drop_last()).push(t.last()));
                assert(cs@.subrange(start - 1, cs@.len() as int) =~= seq![t.last()]
                    + cs@.subrange(start as int, cs@.len() as int));
                start = start - 1;
            }
            proof {
                if start > 0 {
                    assert(cs@.take(start as int).last() == ';');
                }
                assert(last_field(cs@.take(start as int)) =~= Seq::<char>::empty());
            }
            let mut field: Vec<char> = Vec::new();
            let mut i = start;
            while i < cs.len()
                invariant
                    start <= i <= cs.len(),
                    field@ == cs@.subrange(start as int, i as int),
                decreases cs.len() - i,
            {
                field.push(cs[i]);
                i = i + 1;
                assert(field@ =~= cs@.subrange(start as int, i as int));
            }
            assert(field@ =~= last_field(v@));
            match parse_u32(field.as_slice()) {
                Some(n) => if n <= 255 { n <= 6 } else { true },
                None => true,
            }
        },
    }
}

impl Renderer {
    /// The current color profile.
    pub closed spec fn spec_color_profile(&self) -> ColorProfileKind {
        self.color_profile
    }

    /// Whether the background is taken as dark.
    pub closed spec fn spec_dark_background(&self) -> bool {
        self.has_dark_background
    }

    /// What is known of the output.
    pub closed spec fn spec_output(&self) -> Option<Output> {
        self.output
    }

    /// Whether the profile was set explicitly.
    pub closed spec fn spec_explicit_profile(&self) -> bool {
        self.explicit_color_profile
    }

    /// Whether the background was set explicitly.
    pub closed spec fn spec_explicit_background(&self) -> bool {
        self.explicit_background
    }

    /// Whether the profile has been taken from the environment.
    pub closed spec fn spec_profile_detected(&self) -> bool {
        self.color_profile_detected
    }

    /// Whether the background has been taken from the environment.
    pub closed spec fn spec_background_detected(&self) -> bool {
        self.background_detected
    }

    /// A renderer before any detection: the basic 16-color profile and a dark
    /// background stand in until the environment is consulted.
    pub fn new() -> (r: Self)
        ensures
            r.spec_color_profile() == ColorProfileKind::ANSI,
            r.spec_dark_background(),
            r.spec_output() is None,
            !r.spec_explicit_profile(),
            !r.spec_explicit_background(),
            !r.spec_profile_detected(),
            !r.spec_background_detected(),
    {
        Renderer {
            output: None,
            color_profile: ColorProfileKind::ANSI,
            explicit_color_profile: false,
            color_profile_detected: false,
            has_dark_background: true,
            explicit_background: false,
            background_detected: false,
        }
    }

    /// Whether two renderers hold the same settings.
    pub fn same_as(&self, other: &Renderer) -> (b: bool)
        ensures
            b == (*self == *other),
    {
        let same_output = match (self.output, other.output) {
            (Some(x), Some(y)) => x.supports_ansi == y.supports_ansi && x.is_tty_like == y.is_tty_like,
            (None, None) => true,
            _ => false,
        };
        same_output && self.color_profile == other.color_profile
            && self.explicit_color_profile == other.explicit_color_profile
            && self.color_profile_detected == other.color_profile_detected
            && self.has_dark_background == other.has_dark_background
            && self.explicit_background == other.explicit_background
            && self.background_detected == other.background_detected
    }

    /// A renderer for the given output.
    pub fn new_with_output(o: Output) -> (r: Self)
        ensures
            r.spec_color_profile() == ColorProfileKind::ANSI,
            r.spec_dark_background(),
            r.spec_output() == Some(o),
            !r.spec_explicit_profile(),
            !r.spec_explicit_background(),
            !r.spec_profile_detected(),
            !r.spec_background_detected(),
    {
        let mut r = Self::new();
        r.output = Some(o);
        r
    }

    /// The color profile in use.
    pub fn color_profile(&self) -> (p: ColorProfileKind)
        ensures
            p == self.spec_color_profile(),
    {
        self.color_profile
    }

    /// Sets the color profile of this renderer (not of copies made from it);
    /// it is no longer taken from the environment.
    pub fn set_color_profile(&mut self, p: ColorProfileKind)
        ensures
            final(self).spec_color_profile() == p,
            final(self).spec_explicit_profile(),
            final(self).spec_dark_background() == old(self).spec_dark_background(),
            final(self).spec_output() == old(self).spec_output(),
            final(self).spec_explicit_background() == old(self).spec_explicit_background(),
            final(self).spec_profile_detected() == old(self).spec_profile_detected(),
            final(self).spec_background_detected() == old(self).spec_background_detected(),
    {
        self.color_profile = p;
        self.explicit_color_profile = true;
    }

    /// Whether the background is taken as dark.
    pub fn has_dark_background(&self) -> (b: bool)
        ensures
            b == self.spec_dark_background(),
    {
        self.has_dark_background
    }

    /// Sets the background brightness of this renderer (not of copies made
    /// from it); it is no longer taken from the environment.
    pub fn set_has_dark_background(&mut self, b: bool)
        ensures
            final(self).spec_dark_background() == b,
            final(self).spec_explicit_background(),
            final(self).spec_color_profile() == old(self).spec_color_profile(),
            final(self).spec_output() == old(self).spec_output(),
            final(self).spec_explicit_profile() == old(self).spec_explicit_profile(),
            final(self).spec_profile_detected() == old(self).spec_profile_detected(),
            final(self).spec_background_detected() == old(self).spec_background_detected(),
    {
        self.has_dark_background = b;
        self.explicit_background = true;
    }

    /// What is known of the output.
    pub fn output(&self) -> (o: Option<Output>)
        ensures
            o == self.spec_output(),
    {
        self.output
    }

    /// Records what is known of the output.
    pub fn set_output(&mut self, o: Output)
        ensures
            final(self).spec_output() == Some(o),
            final(self).spec_color_profile() == old(self).spec_color_profile(),
            final(self).spec_dark_background() == old(self).spec_dark_background(),
            final(self).spec_explicit_profile() == old(self).spec_explicit_profile(),
            final(self).spec_explicit_background() == old(self).spec_explicit_background(),
            final(self).spec_profile_detected() == old(self).spec_profile_detected(),
            final(self).spec_background_detected() == old(self).spec_background_detected(),
    {
        self.output = Some(o);
    }

    /// A copy of what is known of the output.
    pub fn take_output_clone(&self) -> (o: Option<Output>)
        ensures
            o == self.spec_output(),
    {
        self.output()
    }

    /// Takes whatever was not set explicitly, and not yet detected, from the
    /// environment; each setting is detected at most once.
    pub fn detect(&mut self, env: &Environment)
        ensures
            final(self).spec_color_profile() == (if !old(self).spec_explicit_profile()
                && !old(self).spec_profile_detected() {
                spec_detect_color_profile(env.no_color, env.colorterm@, env.term@)
            } else {
                old(self).spec_color_profile()
            }),
            final(self).spec_dark_background() == (if !old(self).spec_explicit_background()
                && !old(self).spec_background_detected() {
                spec_detect_dark_background(
                    match env.colorfgbg {
                        Some(v) => Some(v@),
                        None => None,
                    },
                )
            } else {
                old(self).spec_dark_background()
            }),
            final(self).spec_profile_detected() == (old(self).spec_profile_detected()
                || !old(self).spec_explicit_profile()),
            final(self).spec_background_detected() == (old(self).spec_background_detected()
                || !old(self).spec_explicit_background()),
            final(self).spec_explicit_profile() == old(self).spec_explicit_profile(),
            final(self).spec_explicit_background() == old(self).spec_explicit_background(),
            final(self).spec_output() == old(self).spec_output(),
    {
        if !self.explicit_color_profile && !self.color_profile_detected {
            self.color_profile = detect_color_profile(env);
            self.color_profile_detected = true;
        }
        if !self.explicit_background && !self.background_detected {
            self.has_dark_background = detect_dark_background(env);
            self.background_detected = true;
        }
    }
}

} // verus!
