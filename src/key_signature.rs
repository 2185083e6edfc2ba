//! Key signatures and the spelling of pitch classes within them.
use crate::note::{semitone, symbol_pitch, NoteLetter, Pitch, PitchSymbol};
use crate::scale::Mode;
use crate::note::PitchSymbol::{A, Ab, As, B, Bb, Bs, C, Cb, Cs, D, Db, Ds, E, Eb, Es, F, Fs, G, Gb, Gs};
use vstd::prelude::*;

verus! {

/// A key signature: a tonic and an optional mode.
#[derive(Debug, Clone, Copy, PartialEq, Eq, Structural)]
pub struct KeySignature {
    /// The tonic of the key signature.
    pub tonic: Pitch,
    /// The mode of the key signature.
    pub mode: Option<Mode>,
}

/// The seven spellings of the major key on a tonic, for the tonics that have a table.
#[verifier::opaque]
pub open spec fn key_table(letter: NoteLetter, accidental: i8) -> Option<Seq<PitchSymbol>> {
    match (letter, accidental) {
        (NoteLetter::C, 0) => Some(seq![C, D, E, F, G, A, B]),
        (NoteLetter::G, 0) => Some(seq![G, A, B, C, D, E, Fs]),
        (NoteLetter::D, 0) => Some(seq![D, E, Fs, G, A, B, Cs]),
        (NoteLetter::A, 0) => Some(seq![A, B, Cs, D, E, Fs, Gs]),
        (NoteLetter::E, 0) => Some(seq![E, Fs, Gs, A, B, Cs, Ds]),
        (NoteLetter::B, 0) => Some(seq![B, Cs, Ds, E, Fs, Gs, As]),
        (NoteLetter::F, 0) => Some(seq![F, G, A, Bb, C, D, E]),
        (NoteLetter::B, -1) => Some(seq![Bb, C, D, Eb, F, G, A]),
        (NoteLetter::E, -1) => Some(seq![Eb, F, G, Ab, Bb, C, D]),
        (NoteLetter::A, -1) => Some(seq![Ab, Bb, C, Db, Eb, F, G]),
        (NoteLetter::D, -1) => Some(seq![Db, Eb, F, Gb, Ab, Bb, C]),
        (NoteLetter::G, -1) => Some(seq![Gb, Ab, Bb, Cb, Db, Eb, F]),
        (NoteLetter::F, 1) => Some(seq![Fs, Gs, As, B, Cs, Ds, Es]),
        (NoteLetter::C, 1) => Some(seq![Cs, Ds, Es, Fs, Gs, As, Bs]),
        _ => None,
    }
}

/// The major key whose tonic has pitch class `n`.
pub open spec fn major_key_of(n: int) -> (NoteLetter, i8) {
    if n == 0 {
        (NoteLetter::C, 0i8)
    } else if n == 1 {
        (NoteLetter::D, -1i8)
    } else if n == 2 {
        (NoteLetter::D, 0i8)
    } else if n == 3 {
        (NoteLetter::E, -1i8)
    } else if n == 4 {
        (NoteLetter::E, 0i8)
    } else if n == 5 {
        (NoteLetter::F, 0i8)
    } else if n == 6 {
        (NoteLetter::F, 1i8)
    } else if n == 7 {
        (NoteLetter::G, 0i8)
    } else if n == 8 {
        (NoteLetter::A, -1i8)
    } else if n == 9 {
        (NoteLetter::A, 0i8)
    } else if n == 10 {
        (NoteLetter::B, -1i8)
    } else {
        (NoteLetter::B, 0i8)
    }
}

/// How many semitones a mode's tonic lies above the tonic of its relative major.
pub open spec fn mode_offset(mode: Option<Mode>) -> Option<int> {
    match mode {
        Some(Mode::Dorian) => Some(2),
        Some(Mode::Phrygian) => Some(4),
        Some(Mode::Lydian) => Some(5),
        Some(Mode::Mixolydian) => Some(7),
        Some(Mode::Aeolian) => Some(9),
        Some(Mode::Locrian) => Some(11),
        _ => None,
    }
}

/// The major key whose table spells a key signature: the relative major for the modes
/// that have one, else the tonic itself.
pub open spec fn spelling_key(ks: KeySignature) -> (NoteLetter, i8) {
    match mode_offset(ks.mode) {
        Some(off) => major_key_of((semitone(ks.tonic) + 12 - off) % 12),
        None => (ks.tonic.letter, ks.tonic.accidental),
    }
}

/// The first spelling in a table that has pitch class `n`.
pub open spec fn table_hit(t: Seq<PitchSymbol>, n: int) -> Option<PitchSymbol>
    decreases t.len(),
{
    if t.len() == 0 {
        None
    } else if semitone(symbol_pitch(t[0])) == n {
        Some(t[0])
    } else {
        table_hit(t.drop_first(), n)
    }
}

/// The spelling of a pitch class with sharps for the black keys.
pub open spec fn sharp_symbol(n: int) -> PitchSymbol {
    if n == 0 { C } else if n == 1 { Cs } else if n == 2 { D } else if n == 3 { Ds }
    else if n == 4 { E } else if n == 5 { F } else if n == 6 { Fs } else if n == 7 { G }
    else if n == 8 { Gs } else if n == 9 { A } else if n == 10 { As } else { B }
}

/// The spelling of a pitch class with flats for the black keys.
pub open spec fn flat_symbol(n: int) -> PitchSymbol {
    if n == 0 { C } else if n == 1 { Db } else if n == 2 { D } else if n == 3 { Eb }
    else if n == 4 { E } else if n == 5 { F } else if n == 6 { Gb } else if n == 7 { G }
    else if n == 8 { Ab } else if n == 9 { A } else if n == 10 { Bb } else { B }
}

/// Whether the major key on a tonic writes sharps in its signature (C major counts as
/// a sharp key). For the keys of the table this gives sharps for C, G, D, A, E, B, F# and
/// C#, and flats for F, Bb, Eb, Ab, Db and Gb. A key without a table follows its tonic:
/// sharps for a sharpened tonic, flats for a flattened one, and for a natural tonic
/// sharps unless the tonic is F.
pub open spec fn sharp_key(letter: NoteLetter, accidental: i8) -> bool {
    accidental > 0 || (accidental == 0 && letter != NoteLetter::F)
}

/// The spelling that a key signature gives to pitch class `n`: the spelling of the key's
/// table when the table has one of that class; otherwise sharps in a sharp key and flats
/// in a flat key. Modes with a relative major are spelled in that major key.
pub open spec fn spelling_of(ks: KeySignature, n: int) -> PitchSymbol {
    let key = spelling_key(ks);
    let hit = match key_table(key.0, key.1) {
        Some(t) => table_hit(t, n),
        None => None,
    };
    match hit {
        Some(s) => s,
        None => if sharp_key(key.0, key.1) {
            sharp_symbol(n)
        } else {
            flat_symbol(n)
        },
    }
}

pub proof fn lemma_table_hit_class(t: Seq<PitchSymbol>, n: int)
    ensures
        table_hit(t, n) matches Some(s) ==> semitone(symbol_pitch(s)) == n,
    decreases t.len(),
{
    if t.len() > 0 && semitone(symbol_pitch(t[0])) != n {
        lemma_table_hit_class(t.drop_first(), n);
    }
}

/// A spelling keeps the pitch class it spells.
pub proof fn lemma_spelling_keeps_class(ks: KeySignature, n: int)
    requires
        0 <= n < 12,
    ensures
        semitone(symbol_pitch(spelling_of(ks, n))) == n,
{
    let key = spelling_key(ks);
    if let Some(t) = key_table(key.0, key.1) {
        lemma_table_hit_class(t, n);
    }
}

/// The table of a major key as a vector, for the tonics that have one.
fn table_vec(letter: NoteLetter, accidental: i8) -> (r: Option<Vec<PitchSymbol>>)
    ensures
        match r {
            Some(v) => key_table(letter, accidental) == Some(v@),
            None => key_table(letter, accidental) is None,
        },
{
    let r = match (letter, accidental) {
        (NoteLetter::C, 0) => Some(vec![C, D, E, F, G, A, B]),
        (NoteLetter::G, 0) => Some(vec![G, A, B, C, D, E, Fs]),
        (NoteLetter::D, 0) => Some(vec![D, E, Fs, G, A, B, Cs]),
        (NoteLetter::A, 0) => Some(vec![A, B, Cs, D, E, Fs, Gs]),
        (NoteLetter::E, 0) => Some(vec![E, Fs, Gs, A, B, Cs, Ds]),
        (NoteLetter::B, 0) => Some(vec![B, Cs, Ds, E, Fs, Gs, As]),
        (NoteLetter::F, 0) => Some(vec![F, G, A, Bb, C, D, E]),
        (NoteLetter::B, -1) => Some(vec![Bb, C, D, Eb, F, G, A]),
        (NoteLetter::E, -1) => Some(vec![Eb, F, G, Ab, Bb, C, D]),
        (NoteLetter::A, -1) => Some(vec![Ab, Bb, C, Db, Eb, F, G]),
        (NoteLetter::D, -1) => Some(vec![Db, Eb, F, Gb, Ab, Bb, C]),
        (NoteLetter::G, -1) => Some(vec![Gb, Ab, Bb, Cb, Db, Eb, F]),
        (NoteLetter::F, 1) => Some(vec![Fs, Gs, As, B, Cs, Ds, Es]),
        (NoteLetter::C, 1) => Some(vec![Cs, Ds, Es, Fs, Gs, As, Bs]),
        _ => None,
    };
    proof {
        reveal(key_table);
        if r is Some {
            assert(key_table(letter, accidental) =~= Some(r->Some_0@));
        }
    }
    r
}

/// The first spelling in `t` of pitch class `n`, if any.
fn find_in_table(t: &Vec<PitchSymbol>, n: u8) -> (r: Option<PitchSymbol>)
    ensures
        r == table_hit(t@, n as int),
{
    let mut i: usize = 0;
    assert(t@.subrange(0, t@.len() as int) =~= t@);
    while i < t.len()
        invariant
            i <= t@.len(),
            table_hit(t@, n as int) == table_hit(t@.subrange(i as int, t@.len() as int), n as int),
        decreases t@.len() - i,
    {
        let ghost rest = t@.subrange(i as int, t@.len() as int);
        assert(rest.drop_first() =~= t@.subrange(i + 1, t@.len() as int));
        assert(rest[0] == t@[i as int]);
        if t[i].to_pitch().into_u8() == n {
            return Some(t[i]);
        }
        i = i + 1;
    }
    assert(t@.subrange(i as int, t@.len() as int).len() == 0);
    None
}

/// The spelling of pitch class `n` with sharps.
fn sharp_symbol_of(n: u8) -> (r: PitchSymbol)
    requires
        n < 12,
    ensures
        r == sharp_symbol(n as int),
{
    if n == 0 { C } else if n == 1 { Cs } else if n == 2 { D } else if n == 3 { Ds }
    else if n == 4 { E } else if n == 5 { F } else if n == 6 { Fs } else if n == 7 { G }
    else if n == 8 { Gs } else if n == 9 { A } else if n == 10 { As } else { B }
}

/// The spelling of pitch class `n` with flats.
fn flat_symbol_of(n: u8) -> (r: PitchSymbol)
    requires
        n < 12,
    ensures
        r == flat_symbol(n as int),
{
    if n == 0 { C } else if n == 1 { Db } else if n == 2 { D } else if n == 3 { Eb }
    else if n == 4 { E } else if n == 5 { F } else if n == 6 { Gb } else if n == 7 { G }
    else if n == 8 { Ab } else if n == 9 { A } else if n == 10 { Bb } else { B }
}

impl KeySignature {
    /// Create a new key signature.
    pub fn new(tonic: Pitch) -> (r: Self)
        ensures
            r == (KeySignature { tonic, mode: None }),
    {
        KeySignature { tonic, mode: None }
    }

    /// Create a new key signature with a mode.
    pub fn new_with_mode(tonic: Pitch, mode: Option<Mode>) -> (r: Self)
        ensures
            r == (KeySignature { tonic, mode }),
    {
        KeySignature { tonic, mode }
    }

    /// The major key whose tonic has the given pitch class.
    fn get_relative_major_key(&self, semitones: u8) -> (r: (NoteLetter, i8))
        requires
            semitones < 12,
        ensures
            r == major_key_of(semitones as int),
    {
        if semitones == 0 {
            (NoteLetter::C, 0)
        } else if semitones == 1 {
            (NoteLetter::D, -1)
        } else if semitones == 2 {
            (NoteLetter::D, 0)
        } else if semitones == 3 {
            (NoteLetter::E, -1)
        } else if semitones == 4 {
            (NoteLetter::E, 0)
        } else if semitones == 5 {
            (NoteLetter::F, 0)
        } else if semitones == 6 {
            (NoteLetter::F, 1)
        } else if semitones == 7 {
            (NoteLetter::G, 0)
        } else if semitones == 8 {
            (NoteLetter::A, -1)
        } else if semitones == 9 {
            (NoteLetter::A, 0)
        } else if semitones == 10 {
            (NoteLetter::B, -1)
        } else {
            (NoteLetter::B, 0)
        }
    }

    /// The spelling this key signature prefers for the pitch class of `pitch`.
    pub fn get_preferred_spelling(&self, pitch: Pitch) -> (r: PitchSymbol)
        ensures
            r == spelling_of(*self, semitone(pitch)),
            semitone(symbol_pitch(r)) == semitone(pitch),
    {
        let offset: Option<u8> = match self.mode {
            Some(Mode::Dorian) => Some(2),
            Some(Mode::Phrygian) => Some(4),
            Some(Mode::Lydian) => Some(5),
            Some(Mode::Mixolydian) => Some(7),
            Some(Mode::Aeolian) => Some(9),
            Some(Mode::Locrian) => Some(11),
            _ => None,
        };
        let key = match offset {
            Some(off) => self.get_relative_major_key((self.tonic.into_u8() + 12 - off) % 12),
            None => (self.tonic.letter, self.tonic.accidental),
        };
        let n = pitch.into_u8();
        proof {
            lemma_spelling_keeps_class(*self, n as int);
        }
        if let Some(table) = table_vec(key.0, key.1) {
            if let Some(s) = find_in_table(&table, n) {
                return s;
            }
        }
        if key.1 > 0 || (key.1 == 0 && key.0 != NoteLetter::F) {
            sharp_symbol_of(n)
        } else {
            flat_symbol_of(n)
        }
    }
}

} // verus!
