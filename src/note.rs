//! Pitches, pitch spellings and notes.
use crate::scale::{Direction, Mode};
use vstd::prelude::*;
use crate::text::{chars_of, leading_pitch, leading_pitch_of, parse_pitch, pitch_of_text};
use vstd::string::StringExecFns;

pub use crate::key_signature::KeySignature;



verus! {

/// A note letter without an accidental.
#[derive(Debug, Clone, Copy, PartialEq, Eq, Hash, Structural)]
pub enum NoteLetter {
    C,
    D,
    E,
    F,
    G,
    A,
    B,
}

/// Semitones above C of a natural note letter.
pub open spec fn letter_base(l: NoteLetter) -> int {
    match l {
        NoteLetter::C => 0,
        NoteLetter::D => 2,
        NoteLetter::E => 4,
        NoteLetter::F => 5,
        NoteLetter::G => 7,
        NoteLetter::A => 9,
        NoteLetter::B => 11,
    }
}

/// A pitch: a letter with a signed number of sharps (positive) or flats (negative).
#[derive(Debug, Clone, Copy, PartialEq, Eq, Hash, Structural)]
pub struct Pitch {
    pub letter: NoteLetter,
    pub accidental: i8,
}

/// The pitch class (0 for C up to 11 for B) that a pitch sounds as.
pub open spec fn semitone(p: Pitch) -> int {
    (letter_base(p.letter) + p.accidental as int) % 12
}

/// The spelling of a pitch class that uses sharps for the black keys.
pub open spec fn sharp_pitch(n: int) -> Pitch {
    let (letter, accidental) = if n == 0 {
        (NoteLetter::C, 0i8)
    } else if n == 1 {
        (NoteLetter::C, 1i8)
    } else if n == 2 {
        (NoteLetter::D, 0i8)
    } else if n == 3 {
        (NoteLetter::D, 1i8)
    } else if n == 4 {
        (NoteLetter::E, 0i8)
    } else if n == 5 {
        (NoteLetter::F, 0i8)
    } else if n == 6 {
        (NoteLetter::F, 1i8)
    } else if n == 7 {
        (NoteLetter::G, 0i8)
    } else if n == 8 {
        (NoteLetter::G, 1i8)
    } else if n == 9 {
        (NoteLetter::A, 0i8)
    } else if n == 10 {
        (NoteLetter::A, 1i8)
    } else {
        (NoteLetter::B, 0i8)
    };
    Pitch { letter, accidental }
}

/// The spelling of a pitch class that uses flats for the black keys.
pub open spec fn flat_pitch(n: int) -> Pitch {
    let (letter, accidental) = if n == 0 {
        (NoteLetter::C, 0i8)
    } else if n == 1 {
        (NoteLetter::D, -1i8)
    } else if n == 2 {
        (NoteLetter::D, 0i8)
    } else if n == 3 {
        (NoteLetter::E, -1i8)
    } else if n == 4 {
        (NoteLetter::E, 0i8)
    } else if n == 5 {
        (NoteLetter::F, 0i8)
    } else if n == 6 {
        (NoteLetter::G, -1i8)
    } else if n == 7 {
        (NoteLetter::G, 0i8)
    } else if n == 8 {
        (NoteLetter::A, -1i8)
    } else if n == 9 {
        (NoteLetter::A, 0i8)
    } else if n == 10 {
        (NoteLetter::B, -1i8)
    } else {
        (NoteLetter::B, 0i8)
    };
    Pitch { letter, accidental }
}

/// Whether a pitch class is spelled with flats in the given mode and direction.
pub open spec fn prefers_flats(mode: Option<Mode>, n: int, direction: Direction) -> bool {
    match mode {
        Some(Mode::Dorian) => n == 3 || n == 10,
        Some(Mode::Phrygian) => n == 1 || n == 3 || n == 8 || n == 10,
        Some(Mode::Lydian) => false,
        Some(Mode::Mixolydian) => n == 10,
        Some(Mode::Aeolian) => n == 3 || n == 8 || n == 10,
        Some(Mode::Locrian) => n == 1 || n == 3 || n == 6 || n == 8 || n == 10,
        None => direction == Direction::Descending,
        _ => false,
    }
}

/// The characters that display a pitch: its letter, then one `#` per sharp or one `b` per flat.
pub open spec fn pitch_text(p: Pitch) -> Seq<char> {
    let letter = match p.letter {
        NoteLetter::C => 'C',
        NoteLetter::D => 'D',
        NoteLetter::E => 'E',
        NoteLetter::F => 'F',
        NoteLetter::G => 'G',
        NoteLetter::A => 'A',
        NoteLetter::B => 'B',
    };
    let mark = if p.accidental < 0 { 'b' } else { '#' };
    let count = if p.accidental < 0 { -(p.accidental as int) } else { p.accidental as int };
    seq![letter] + Seq::new(count as nat, |i: int| mark)
}

pub proof fn lemma_sharp_pitch_semitone(n: int)
    requires
        0 <= n < 12,
    ensures
        semitone(sharp_pitch(n)) == n,
{
}

pub proof fn lemma_flat_pitch_semitone(n: int)
    requires
        0 <= n < 12,
    ensures
        semitone(flat_pitch(n)) == n,
{
}

impl Pitch {
    /// Create a pitch with a given note letter and accidental.
    pub fn new(letter: NoteLetter, accidental: i8) -> (r: Self)
        ensures
            r.letter == letter,
            r.accidental == accidental,
    {
        Pitch { letter, accidental }
    }

    /// Create a pitch from an integer, where 0 is C and everything climbs up from there,
    /// looping back around once it reaches 12. Black keys are spelled with sharps.
    pub fn from_u8(val: u8) -> (r: Self)
        ensures
            r == sharp_pitch(val as int % 12),
            semitone(r) == val as int % 12,
    {
        let n = val % 12;
        let r = if n == 0 {
            Pitch::new(NoteLetter::C, 0)
        } else if n == 1 {
            Pitch::new(NoteLetter::C, 1)
        } else if n == 2 {
            Pitch::new(NoteLetter::D, 0)
        } else if n == 3 {
            Pitch::new(NoteLetter::D, 1)
        } else if n == 4 {
            Pitch::new(NoteLetter::E, 0)
        } else if n == 5 {
            Pitch::new(NoteLetter::F, 0)
        } else if n == 6 {
            Pitch::new(NoteLetter::F, 1)
        } else if n == 7 {
            Pitch::new(NoteLetter::G, 0)
        } else if n == 8 {
            Pitch::new(NoteLetter::G, 1)
        } else if n == 9 {
            Pitch::new(NoteLetter::A, 0)
        } else if n == 10 {
            Pitch::new(NoteLetter::A, 1)
        } else {
            Pitch::new(NoteLetter::B, 0)
        };
        proof {
            lemma_sharp_pitch_semitone(n as int);
        }
        r
    }

    /// Create a pitch from an integer with the flat spelling of the black keys.
    fn from_u8_flat(val: u8) -> (r: Self)
        ensures
            r == flat_pitch(val as int % 12),
            semitone(r) == val as int % 12,
    {
        let n = val % 12;
        let r = if n == 0 {
            Pitch::new(NoteLetter::C, 0)
        } else if n == 1 {
            Pitch::new(NoteLetter::D, -1)
        } else if n == 2 {
            Pitch::new(NoteLetter::D, 0)
        } else if n == 3 {
            Pitch::new(NoteLetter::E, -1)
        } else if n == 4 {
            Pitch::new(NoteLetter::E, 0)
        } else if n == 5 {
            Pitch::new(NoteLetter::F, 0)
        } else if n == 6 {
            Pitch::new(NoteLetter::G, -1)
        } else if n == 7 {
            Pitch::new(NoteLetter::G, 0)
        } else if n == 8 {
            Pitch::new(NoteLetter::A, -1)
        } else if n == 9 {
            Pitch::new(NoteLetter::A, 0)
        } else if n == 10 {
            Pitch::new(NoteLetter::B, -1)
        } else {
            Pitch::new(NoteLetter::B, 0)
        };
        proof {
            lemma_flat_pitch_semitone(n as int);
        }
        r
    }

    /// Create a pitch from an integer with a spelling chosen by mode and direction.
    pub fn from_u8_with_scale_context(val: u8, mode: Option<Mode>, direction: Direction) -> (r:
        Self)
        ensures
            r == (if prefers_flats(mode, val as int % 12, direction) {
                flat_pitch(val as int % 12)
            } else {
                sharp_pitch(val as int % 12)
            }),
            semitone(r) == val as int % 12,
    {
        let n = val % 12;
        let use_flats = match mode {
            Some(Mode::Dorian) => n == 3 || n == 10,
            Some(Mode::Phrygian) => n == 1 || n == 3 || n == 8 || n == 10,
            Some(Mode::Lydian) => false,
            Some(Mode::Mixolydian) => n == 10,
            Some(Mode::Aeolian) => n == 3 || n == 8 || n == 10,
            Some(Mode::Locrian) => n == 1 || n == 3 || n == 6 || n == 8 || n == 10,
            None => direction == Direction::Descending,
            _ => false,
        };
        if use_flats {
            Self::from_u8_flat(val)
        } else {
            Self::from_u8(val)
        }
    }

    /// Create a pitch from an integer: sharps ascending, flats descending.
    pub fn from_u8_with_direction(val: u8, direction: Direction) -> (r: Self)
        ensures
            r == (if direction == Direction::Descending {
                flat_pitch(val as int % 12)
            } else {
                sharp_pitch(val as int % 12)
            }),
    {
        Self::from_u8_with_scale_context(val, None, direction)
    }

    /// The pitch class of the pitch, where 0 is C and 11 is B.
    pub fn into_u8(self) -> (r: u8)
        ensures
            r as int == semitone(self),
            r < 12,
    {
        let base: i16 = match self.letter {
            NoteLetter::C => 0,
            NoteLetter::D => 2,
            NoteLetter::E => 4,
            NoteLetter::F => 5,
            NoteLetter::G => 7,
            NoteLetter::A => 9,
            NoteLetter::B => 11,
        };
        let shifted: i16 = base + self.accidental as i16 + 132;
        let r = (shifted as u16 % 12) as u8;
        assert(shifted as int % 12 == (letter_base(self.letter) + self.accidental as int) % 12);
        r
    }

    /// The pitch an interval of `semitones` above this one, spelled with sharps.
    pub fn from_interval(pitch: Self, interval: crate::interval::Interval) -> (r: Self)
        ensures
            r == sharp_pitch((semitone(pitch) + interval.semitone_count) % 12),
    {
        let current = pitch.into_u8();
        let n: u16 = current as u16 + interval.semitone_count as u16;
        Self::from_u8((n % 12) as u8)
    }

    /// The pitch an interval below this one, spelled with sharps.
    pub fn from_interval_down(pitch: Self, interval: crate::interval::Interval) -> (r: Self)
        ensures
            r == sharp_pitch((semitone(pitch) - interval.semitone_count) % 12),
    {
        let current = pitch.into_u8();
        let n: u16 = current as u16 + 264 - interval.semitone_count as u16;
        assert((n as int) % 12 == (semitone(pitch) - interval.semitone_count) % 12);
        Self::from_u8((n % 12) as u8)
    }

    /// The pitch an interval above this one, spelled by mode and direction.
    pub fn from_interval_with_context(
        pitch: Self,
        interval: crate::interval::Interval,
        mode: Option<Mode>,
        direction: Direction,
    ) -> (r: Self)
        ensures
            semitone(r) == (semitone(pitch) + interval.semitone_count) % 12,
            r == (if prefers_flats(mode, semitone(r), direction) {
                flat_pitch(semitone(r))
            } else {
                sharp_pitch(semitone(r))
            }),
    {
        let current = pitch.into_u8();
        let n: u16 = current as u16 + interval.semitone_count as u16;
        Self::from_u8_with_scale_context((n % 12) as u8, mode, direction)
    }

    /// The pitch an interval below this one, spelled by mode and direction.
    pub fn from_interval_down_with_context(
        pitch: Self,
        interval: crate::interval::Interval,
        mode: Option<Mode>,
        direction: Direction,
    ) -> (r: Self)
        ensures
            semitone(r) == (semitone(pitch) - interval.semitone_count) % 12,
            r == (if prefers_flats(mode, semitone(r), direction) {
                flat_pitch(semitone(r))
            } else {
                sharp_pitch(semitone(r))
            }),
    {
        let current = pitch.into_u8();
        let n: u16 = current as u16 + 264 - interval.semitone_count as u16;
        assert((n as int) % 12 == (semitone(pitch) - interval.semitone_count) % 12);
        Self::from_u8_with_scale_context((n % 12) as u8, mode, direction)
    }

    /// Parse a pitch from a whole token: a letter in either case, then only sharp glyphs
    /// (`#`, `s`, `S`, `♯` raise one; `𝄪`, `x` raise two) or only flat glyphs (`b`, `♭`).
    pub fn from_str(string: &str) -> (r: Option<Self>)
        ensures
            r == pitch_of_text(string@),
    {
        parse_pitch(&chars_of(string))
    }

    /// Parse the pitch at the start of a text, with the number of characters it takes.
    pub fn from_regex(string: &str) -> (r: Result<(Self, usize), NoteError>)
        ensures
            match leading_pitch(string@) {
                Some(pe) => r == Ok::<(Pitch, usize), NoteError>((pe.0, pe.1 as usize)),
                None => r == Err::<(Pitch, usize), NoteError>(NoteError::InvalidPitch),
            },
    {
        match leading_pitch_of(&chars_of(string)) {
            Some(pe) => Ok(pe),
            None => Err(NoteError::InvalidPitch),
        }
    }

    /// The text of the pitch: its letter, then `#` for each sharp or `b` for each flat.
    pub fn to_string(&self) -> (r: String)
        ensures
            r@ == pitch_text(*self),
    {
        let mut s = match self.letter {
            NoteLetter::C => String::from_str("C"),
            NoteLetter::D => String::from_str("D"),
            NoteLetter::E => String::from_str("E"),
            NoteLetter::F => String::from_str("F"),
            NoteLetter::G => String::from_str("G"),
            NoteLetter::A => String::from_str("A"),
            NoteLetter::B => String::from_str("B"),
        };
        proof {
            reveal_strlit("C");
            reveal_strlit("D");
            reveal_strlit("E");
            reveal_strlit("F");
            reveal_strlit("G");
            reveal_strlit("A");
            reveal_strlit("B");
            reveal_strlit("#");
            reveal_strlit("b");
        }
        let count: i16 = if self.accidental < 0 {
            -(self.accidental as i16)
        } else {
            self.accidental as i16
        };
        let ghost mark = if self.accidental < 0 { 'b' } else { '#' };
        let ghost first = s@;
        let mut i: i16 = 0;
        while i < count
            invariant
                0 <= i <= count,
                count == (if self.accidental < 0 { -(self.accidental as int) } else { self.accidental as int }),
                mark == (if self.accidental < 0 { 'b' } else { '#' }),
                s@ == first + Seq::new(i as nat, |j: int| mark),
                "#"@ == seq!['#'],
                "b"@ == seq!['b'],
            decreases count - i,
        {
            if self.accidental < 0 {
                s.append("b");
            } else {
                s.append("#");
            }
            i = i + 1;
            assert(s@ =~= first + Seq::new(i as nat, |j: int| mark));
        }
        assert(first == seq![pitch_text(*self)[0]]);
        assert(s@ =~= pitch_text(*self));
        s
    }
}

/// All spellings that a key signature can choose from.
#[derive(Debug, Clone, Copy, PartialEq, Eq, Structural)]
pub enum PitchSymbol {
    Bs,
    C,
    Cs,
    Db,
    D,
    Ds,
    Eb,
    E,
    Es,
    F,
    Fs,
    Gb,
    G,
    Gs,
    Ab,
    A,
    As,
    Bb,
    B,
    Cb,
}

/// The pitch that a spelling names.
pub open spec fn symbol_pitch(s: PitchSymbol) -> Pitch {
    let (letter, accidental) = match s {
        PitchSymbol::Bs => (NoteLetter::B, 1i8),
        PitchSymbol::C => (NoteLetter::C, 0i8),
        PitchSymbol::Cs => (NoteLetter::C, 1i8),
        PitchSymbol::Db => (NoteLetter::D, -1i8),
        PitchSymbol::D => (NoteLetter::D, 0i8),
        PitchSymbol::Ds => (NoteLetter::D, 1i8),
        PitchSymbol::Eb => (NoteLetter::E, -1i8),
        PitchSymbol::E => (NoteLetter::E, 0i8),
        PitchSymbol::Es => (NoteLetter::E, 1i8),
        PitchSymbol::F => (NoteLetter::F, 0i8),
        PitchSymbol::Fs => (NoteLetter::F, 1i8),
        PitchSymbol::Gb => (NoteLetter::G, -1i8),
        PitchSymbol::G => (NoteLetter::G, 0i8),
        PitchSymbol::Gs => (NoteLetter::G, 1i8),
        PitchSymbol::Ab => (NoteLetter::A, -1i8),
        PitchSymbol::A => (NoteLetter::A, 0i8),
        PitchSymbol::As => (NoteLetter::A, 1i8),
        PitchSymbol::Bb => (NoteLetter::B, -1i8),
        PitchSymbol::B => (NoteLetter::B, 0i8),
        PitchSymbol::Cb => (NoteLetter::C, -1i8),
    };
    Pitch { letter, accidental }
}

impl PitchSymbol {
    /// The pitch that this spelling names.
    pub fn to_pitch(self) -> (r: Pitch)
        ensures
            r == symbol_pitch(self),
    {
        match self {
            PitchSymbol::Bs => Pitch::new(NoteLetter::B, 1),
            PitchSymbol::C => Pitch::new(NoteLetter::C, 0),
            PitchSymbol::Cs => Pitch::new(NoteLetter::C, 1),
            PitchSymbol::Db => Pitch::new(NoteLetter::D, -1),
            PitchSymbol::D => Pitch::new(NoteLetter::D, 0),
            PitchSymbol::Ds => Pitch::new(NoteLetter::D, 1),
            PitchSymbol::Eb => Pitch::new(NoteLetter::E, -1),
            PitchSymbol::E => Pitch::new(NoteLetter::E, 0),
            PitchSymbol::Es => Pitch::new(NoteLetter::E, 1),
            PitchSymbol::F => Pitch::new(NoteLetter::F, 0),
            PitchSymbol::Fs => Pitch::new(NoteLetter::F, 1),
            PitchSymbol::Gb => Pitch::new(NoteLetter::G, -1),
            PitchSymbol::G => Pitch::new(NoteLetter::G, 0),
            PitchSymbol::Gs => Pitch::new(NoteLetter::G, 1),
            PitchSymbol::Ab => Pitch::new(NoteLetter::A, -1),
            PitchSymbol::A => Pitch::new(NoteLetter::A, 0),
            PitchSymbol::As => Pitch::new(NoteLetter::A, 1),
            PitchSymbol::Bb => Pitch::new(NoteLetter::B, -1),
            PitchSymbol::B => Pitch::new(NoteLetter::B, 0),
            PitchSymbol::Cb => Pitch::new(NoteLetter::C, -1),
        }
    }
}

/// The text of a spelling: its letter, then `♯` or `♭`.
pub open spec fn symbol_text(s: PitchSymbol) -> Seq<char> {
    match s {
        PitchSymbol::Bs => seq!['B', '\u{266F}'],
        PitchSymbol::C => seq!['C'],
        PitchSymbol::Cs => seq!['C', '\u{266F}'],
        PitchSymbol::Db => seq!['D', '\u{266D}'],
        PitchSymbol::D => seq!['D'],
        PitchSymbol::Ds => seq!['D', '\u{266F}'],
        PitchSymbol::Eb => seq!['E', '\u{266D}'],
        PitchSymbol::E => seq!['E'],
        PitchSymbol::Es => seq!['E', '\u{266F}'],
        PitchSymbol::F => seq!['F'],
        PitchSymbol::Fs => seq!['F', '\u{266F}'],
        PitchSymbol::Gb => seq!['G', '\u{266D}'],
        PitchSymbol::G => seq!['G'],
        PitchSymbol::Gs => seq!['G', '\u{266F}'],
        PitchSymbol::Ab => seq!['A', '\u{266D}'],
        PitchSymbol::A => seq!['A'],
        PitchSymbol::As => seq!['A', '\u{266F}'],
        PitchSymbol::Bb => seq!['B', '\u{266D}'],
        PitchSymbol::B => seq!['B'],
        PitchSymbol::Cb => seq!['C', '\u{266D}'],
    }
}

impl PitchSymbol {
    /// The text of the spelling, such as "C♯".
    pub fn to_string(&self) -> (r: String)
        ensures
            r@ == symbol_text(*self),
    {
        proof {
            reveal_strlit("B\u{266F}");
            reveal_strlit("C");
            reveal_strlit("C\u{266F}");
            reveal_strlit("D\u{266D}");
            reveal_strlit("D");
            reveal_strlit("D\u{266F}");
            reveal_strlit("E\u{266D}");
            reveal_strlit("E");
            reveal_strlit("E\u{266F}");
            reveal_strlit("F");
            reveal_strlit("F\u{266F}");
            reveal_strlit("G\u{266D}");
            reveal_strlit("G");
            reveal_strlit("G\u{266F}");
            reveal_strlit("A\u{266D}");
            reveal_strlit("A");
            reveal_strlit("A\u{266F}");
            reveal_strlit("B\u{266D}");
            reveal_strlit("B");
            reveal_strlit("C\u{266D}");
        }
        let t = match self {
            PitchSymbol::Bs => "B\u{266F}",
            PitchSymbol::C => "C",
            PitchSymbol::Cs => "C\u{266F}",
            PitchSymbol::Db => "D\u{266D}",
            PitchSymbol::D => "D",
            PitchSymbol::Ds => "D\u{266F}",
            PitchSymbol::Eb => "E\u{266D}",
            PitchSymbol::E => "E",
            PitchSymbol::Es => "E\u{266F}",
            PitchSymbol::F => "F",
            PitchSymbol::Fs => "F\u{266F}",
            PitchSymbol::Gb => "G\u{266D}",
            PitchSymbol::G => "G",
            PitchSymbol::Gs => "G\u{266F}",
            PitchSymbol::Ab => "A\u{266D}",
            PitchSymbol::A => "A",
            PitchSymbol::As => "A\u{266F}",
            PitchSymbol::Bb => "B\u{266D}",
            PitchSymbol::B => "B",
            PitchSymbol::Cb => "C\u{266D}",
        };
        String::from_str(t)
    }
}

impl From<PitchSymbol> for Pitch {
    fn from(symbol: PitchSymbol) -> (r: Pitch)
        ensures
            r == symbol_pitch(symbol),
    {
        symbol.to_pitch()
    }
}

impl vstd::std_specs::convert::FromSpecImpl<PitchSymbol> for Pitch {
    open spec fn obeys_from_spec() -> bool {
        true
    }

    open spec fn from_spec(symbol: PitchSymbol) -> Pitch {
        symbol_pitch(symbol)
    }
}

/// A note: a pitch in a given octave.
#[derive(Debug, Clone, Copy, PartialEq, Eq, Structural)]
pub struct Note {
    /// The pitch of the note (A, B, C#, etc).
    pub pitch: Pitch,
    /// The octave of the note in standard notation.
    pub octave: u8,
}

impl Note {
    /// Create a new note.
    pub fn new(pitch: Pitch, octave: u8) -> (r: Self)
        ensures
            r.pitch == pitch,
            r.octave == octave,
    {
        Note { pitch, octave }
    }

    /// The text of the note, which is the text of its pitch.
    pub fn to_string(&self) -> (r: String)
        ensures
            r@ == pitch_text(self.pitch),
    {
        self.pitch.to_string()
    }
}

/// A value that produces a sequence of notes.
pub trait Notes {
    /// Whether the notes can be produced.
    spec fn notes_ready(&self) -> bool;

    /// The notes that are produced.
    spec fn notes_view(&self) -> Seq<Note>;

    /// Get the sequence of notes.
    fn notes(&self) -> (r: Vec<Note>)
        requires
            self.notes_ready(),
        ensures
            r@ == self.notes_view(),
    ;
}

/// An error caused when parsing a note.
#[derive(Debug, Clone, Copy, PartialEq, Eq, Structural)]
pub enum NoteError {
    /// The note's pitch was invalid.
    InvalidPitch,
}

impl std::str::FromStr for Pitch {
    type Err = NoteError;

    fn from_str(s: &str) -> Result<Self, Self::Err> {
        match Pitch::from_str(s) {
            Some(p) => Ok(p),
            None => Err(NoteError::InvalidPitch),
        }
    }
}

} // verus!
