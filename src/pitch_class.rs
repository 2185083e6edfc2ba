//! Pitch classes: a letter with at most one sharp or flat.
use crate::interval::Interval;
use crate::note::NoteError;
use crate::text::{chars_of, letter_of, slice_of};
use vstd::prelude::*;

verus! {

/// A note letter.
#[derive(Debug, Clone, Copy, PartialEq, Eq, Structural)]
pub enum PitchSymbol {
    C,
    D,
    E,
    F,
    G,
    A,
    B,
}

/// A pitch class: a letter and an accidental.
#[derive(Debug, Clone, Copy, PartialEq, Eq, Structural)]
pub struct PitchClass {
    pub symbol: PitchSymbol,
    pub accidental: i8,
}

/// Semitones above C of a letter.
pub open spec fn symbol_base(s: PitchSymbol) -> int {
    match s {
        PitchSymbol::C => 0,
        PitchSymbol::D => 2,
        PitchSymbol::E => 4,
        PitchSymbol::F => 5,
        PitchSymbol::G => 7,
        PitchSymbol::A => 9,
        PitchSymbol::B => 11,
    }
}

/// The pitch class number (0 for C up to 11 for B) of a pitch class.
pub open spec fn class_number(p: PitchClass) -> int {
    (symbol_base(p.symbol) + p.accidental as int) % 12
}

/// The pitch class of number `n`, spelled with sharps.
pub open spec fn sharp_class(n: int) -> PitchClass {
    let (symbol, accidental) = if n == 0 {
        (PitchSymbol::C, 0i8)
    } else if n == 1 {
        (PitchSymbol::C, 1i8)
    } else if n == 2 {
        (PitchSymbol::D, 0i8)
    } else if n == 3 {
        (PitchSymbol::D, 1i8)
    } else if n == 4 {
        (PitchSymbol::E, 0i8)
    } else if n == 5 {
        (PitchSymbol::F, 0i8)
    } else if n == 6 {
        (PitchSymbol::F, 1i8)
    } else if n == 7 {
        (PitchSymbol::G, 0i8)
    } else if n == 8 {
        (PitchSymbol::G, 1i8)
    } else if n == 9 {
        (PitchSymbol::A, 0i8)
    } else if n == 10 {
        (PitchSymbol::A, 1i8)
    } else {
        (PitchSymbol::B, 0i8)
    };
    PitchClass { symbol, accidental }
}

/// The letter that a character names, in either case.
pub open spec fn symbol_of(c: char) -> Option<PitchSymbol> {
    match letter_of(c) {
        Some(crate::note::NoteLetter::C) => Some(PitchSymbol::C),
        Some(crate::note::NoteLetter::D) => Some(PitchSymbol::D),
        Some(crate::note::NoteLetter::E) => Some(PitchSymbol::E),
        Some(crate::note::NoteLetter::F) => Some(PitchSymbol::F),
        Some(crate::note::NoteLetter::G) => Some(PitchSymbol::G),
        Some(crate::note::NoteLetter::A) => Some(PitchSymbol::A),
        Some(crate::note::NoteLetter::B) => Some(PitchSymbol::B),
        None => None,
    }
}

/// The pitch class a text names: a letter, then optionally one sharp (`#`, `s`, `S`, `♯`)
/// or one flat (`b`, `♭`); anything after that is not read.
pub open spec fn class_of_text(s: Seq<char>) -> Option<PitchClass> {
    if s.len() == 0 {
        None
    } else {
        match symbol_of(s[0]) {
            None => None,
            Some(symbol) => if s.len() == 1 {
                Some(PitchClass { symbol, accidental: 0i8 })
            } else if s[1] == '#' || s[1] == 's' || s[1] == 'S' || s[1] == '\u{266F}' {
                Some(PitchClass { symbol, accidental: 1i8 })
            } else if s[1] == 'b' || s[1] == '\u{266D}' {
                Some(PitchClass { symbol, accidental: -1i8 })
            } else {
                None
            },
        }
    }
}

/// Create a pitch class.
pub fn pclass(symbol: PitchSymbol, accidental: i8) -> (r: PitchClass)
    ensures
        r == (PitchClass { symbol, accidental }),
{
    PitchClass { symbol, accidental }
}

impl PitchClass {
    /// The pitch class of a number, where 0 is C, looping around every 12; sharps for
    /// the black keys.
    pub fn from_u8(val: u8) -> (r: Self)
        ensures
            r == sharp_class(val as int % 12),
            class_number(r) == val as int % 12,
    {
        let n = val % 12;
        if n == 0 {
            pclass(PitchSymbol::C, 0)
        } else if n == 1 {
            pclass(PitchSymbol::C, 1)
        } else if n == 2 {
            pclass(PitchSymbol::D, 0)
        } else if n == 3 {
            pclass(PitchSymbol::D, 1)
        } else if n == 4 {
            pclass(PitchSymbol::E, 0)
        } else if n == 5 {
            pclass(PitchSymbol::F, 0)
        } else if n == 6 {
            pclass(PitchSymbol::F, 1)
        } else if n == 7 {
            pclass(PitchSymbol::G, 0)
        } else if n == 8 {
            pclass(PitchSymbol::G, 1)
        } else if n == 9 {
            pclass(PitchSymbol::A, 0)
        } else if n == 10 {
            pclass(PitchSymbol::A, 1)
        } else {
            pclass(PitchSymbol::B, 0)
        }
    }

    /// Parse a pitch class: a letter in either case, then optionally one sharp or flat.
    pub fn from_str(string: &str) -> (r: Option<Self>)
        ensures
            r == class_of_text(string@),
    {
        class_of_chars(&chars_of(string))
    }

    /// Parse the pitch class at the start of a text: a letter and at most one glyph
    /// after it, with the number of characters it takes.
    pub fn from_regex(string: &str) -> (r: Result<(Self, usize), NoteError>)
        ensures
            match leading_class(string@) {
                Some(pe) => r == Ok::<(PitchClass, usize), NoteError>((pe.0, pe.1 as usize)),
                None => r == Err::<(PitchClass, usize), NoteError>(NoteError::InvalidPitch),
            },
    {
        let t = chars_of(string);
        let n = t.len();
        if n == 0 || !(t[0] == 'C' || t[0] == 'c' || t[0] == 'D' || t[0] == 'd' || t[0] == 'E' || t[0] == 'e'
            || t[0] == 'F' || t[0] == 'f' || t[0] == 'G' || t[0] == 'g' || t[0] == 'A' || t[0] == 'a'
            || t[0] == 'B' || t[0] == 'b') {
            return Err(NoteError::InvalidPitch);
        }
        let span: usize = if n > 1 && (t[1] == 'b' || t[1] == '\u{266D}' || t[1] == '\u{266F}' || t[1] == '#'
            || t[1] == 's') {
            2
        } else {
            1
        };
        let token = slice_of(&t, 0, span);
        match class_of_chars(&token) {
            Some(p) => Ok((p, span)),
            None => Err(NoteError::InvalidPitch),
        }
    }

    /// The pitch class number, where 0 is C and 11 is B.
    pub fn into_u8(self) -> (r: u8)
        ensures
            r as int == class_number(self),
            r < 12,
    {
        let base: i16 = match self.symbol {
            PitchSymbol::C => 0,
            PitchSymbol::D => 2,
            PitchSymbol::E => 4,
            PitchSymbol::F => 5,
            PitchSymbol::G => 7,
            PitchSymbol::A => 9,
            PitchSymbol::B => 11,
        };
        let shifted: i16 = base + self.accidental as i16 + 132;
        assert(shifted as int % 12 == (symbol_base(self.symbol) + self.accidental as int) % 12);
        (shifted as u16 % 12) as u8
    }

    /// The pitch class an interval above this one, spelled with sharps.
    pub fn from_interval(pitch: Self, interval: Interval) -> (r: Self)
        ensures
            r == sharp_class((class_number(pitch) + interval.semitone_count) % 12),
    {
        let n: u16 = pitch.into_u8() as u16 + interval.semitone_count as u16;
        Self::from_u8((n % 12) as u8)
    }
}

/// The pitch class that a text names, read from its characters.
fn class_of_chars(t: &Vec<char>) -> (r: Option<PitchClass>)
    ensures
        r == class_of_text(t@),
{
    if t.len() == 0 {
        return None;
    }
    let c = t[0];
    let symbol = if c == 'C' || c == 'c' {
        PitchSymbol::C
    } else if c == 'D' || c == 'd' {
        PitchSymbol::D
    } else if c == 'E' || c == 'e' {
        PitchSymbol::E
    } else if c == 'F' || c == 'f' {
        PitchSymbol::F
    } else if c == 'G' || c == 'g' {
        PitchSymbol::G
    } else if c == 'A' || c == 'a' {
        PitchSymbol::A
    } else if c == 'B' || c == 'b' {
        PitchSymbol::B
    } else {
        return None;
    };
    if t.len() == 1 {
        return Some(PitchClass { symbol, accidental: 0 });
    }
    let d = t[1];
    if d == '#' || d == 's' || d == 'S' || d == '\u{266F}' {
        Some(PitchClass { symbol, accidental: 1 })
    } else if d == 'b' || d == '\u{266D}' {
        Some(PitchClass { symbol, accidental: -1 })
    } else {
        None
    }
}

/// Whether a character may follow the letter of a pitch class in running text.
pub open spec fn class_glyph(c: char) -> bool {
    c == 'b' || c == '\u{266D}' || c == '\u{266F}' || c == '#' || c == 's'
}

/// The pitch class at the start of a text, with the number of characters it takes: a
/// letter, and the glyph after it if there is one.
pub open spec fn leading_class(t: Seq<char>) -> Option<(PitchClass, int)> {
    if t.len() == 0 || symbol_of(t[0]) is None {
        None
    } else {
        let span = if t.len() > 1 && class_glyph(t[1]) { 2int } else { 1int };
        match class_of_text(t.subrange(0, span)) {
            Some(p) => Some((p, span)),
            None => None,
        }
    }
}

impl std::str::FromStr for PitchClass {
    type Err = NoteError;

    fn from_str(s: &str) -> Result<Self, Self::Err> {
        match PitchClass::from_str(s) {
            Some(p) => Ok(p),
            None => Err(NoteError::InvalidPitch),
        }
    }
}

} // verus!
