//! Reading pitch symbols, scale types, modes, chord qualities and chord numbers from
//! their names, in any letter case: the name is first brought to one case with std's
//! case mapping, then matched exactly.
use crate::chord::{Number as ChordNumber, Quality as ChordQuality};
use crate::note::PitchSymbol;
use crate::scale::{Mode, ScaleType};
use crate::text::chars_of;
use vstd::prelude::*;
use vstd::string::StrSliceExecFns;

verus! {

/// What `str::to_uppercase` makes of a text.
pub uninterp spec fn upper_of(s: Seq<char>) -> Seq<char>;

/// What `str::to_lowercase` makes of a text.
pub uninterp spec fn lower_of(s: Seq<char>) -> Seq<char>;

/// Relies on `str::to_uppercase`: Unicode upper case, a function of the characters alone.
#[verifier::external_body]
fn to_upper(s: &str) -> (r: String)
    ensures
        r@ == upper_of(s@),
{
    s.to_uppercase()
}

/// Relies on `str::to_lowercase`: Unicode lower case, a function of the characters alone.
#[verifier::external_body]
fn to_lower(s: &str) -> (r: String)
    ensures
        r@ == lower_of(s@),
{
    s.to_lowercase()
}

/// Whether the text is exactly `w`.
fn is_named(t: &Vec<char>, w: &str) -> (r: bool)
    ensures
        r == (t@ == w@),
{
    let n = w.unicode_len();
    if t.len() != n {
        return false;
    }
    let mut k: usize = 0;
    while k < n
        invariant
            n == w@.len(),
            t@.len() == n,
            k <= n,
            forall|j: int| 0 <= j < k ==> #[trigger] t@[j] == w@[j],
        decreases n - k,
    {
        if t[k] != w.get_char(k) {
            return false;
        }
        k = k + 1;
    }
    assert(t@ =~= w@);
    true
}

/// The pitch symbol a name gives; C for a name it does not know.
pub open spec fn symbol_named(t: Seq<char>) -> PitchSymbol {
    if t == "C"@ {
        PitchSymbol::C
    } else if t == "C#"@ || t == "CS"@ {
        PitchSymbol::Cs
    } else if t == "DB"@ {
        PitchSymbol::Db
    } else if t == "D"@ {
        PitchSymbol::D
    } else if t == "D#"@ || t == "DS"@ {
        PitchSymbol::Ds
    } else if t == "EB"@ {
        PitchSymbol::Eb
    } else if t == "E"@ {
        PitchSymbol::E
    } else if t == "F"@ {
        PitchSymbol::F
    } else if t == "F#"@ || t == "FS"@ {
        PitchSymbol::Fs
    } else if t == "GB"@ {
        PitchSymbol::Gb
    } else if t == "G"@ {
        PitchSymbol::G
    } else if t == "G#"@ || t == "GS"@ {
        PitchSymbol::Gs
    } else if t == "AB"@ {
        PitchSymbol::Ab
    } else if t == "A"@ {
        PitchSymbol::A
    } else if t == "A#"@ || t == "AS"@ {
        PitchSymbol::As
    } else if t == "BB"@ {
        PitchSymbol::Bb
    } else if t == "B"@ {
        PitchSymbol::B
    } else {
        PitchSymbol::C
    }
}

/// Match a name already brought to upper-case against the known names.
pub fn pitch_symbol_from_upper(name: &str) -> (r: PitchSymbol)
    ensures
        r == symbol_named(name@),
{
    let t = chars_of(name);
    if is_named(&t, "C") {
        PitchSymbol::C
    } else if is_named(&t, "C#") || is_named(&t, "CS") {
        PitchSymbol::Cs
    } else if is_named(&t, "DB") {
        PitchSymbol::Db
    } else if is_named(&t, "D") {
        PitchSymbol::D
    } else if is_named(&t, "D#") || is_named(&t, "DS") {
        PitchSymbol::Ds
    } else if is_named(&t, "EB") {
        PitchSymbol::Eb
    } else if is_named(&t, "E") {
        PitchSymbol::E
    } else if is_named(&t, "F") {
        PitchSymbol::F
    } else if is_named(&t, "F#") || is_named(&t, "FS") {
        PitchSymbol::Fs
    } else if is_named(&t, "GB") {
        PitchSymbol::Gb
    } else if is_named(&t, "G") {
        PitchSymbol::G
    } else if is_named(&t, "G#") || is_named(&t, "GS") {
        PitchSymbol::Gs
    } else if is_named(&t, "AB") {
        PitchSymbol::Ab
    } else if is_named(&t, "A") {
        PitchSymbol::A
    } else if is_named(&t, "A#") || is_named(&t, "AS") {
        PitchSymbol::As
    } else if is_named(&t, "BB") {
        PitchSymbol::Bb
    } else if is_named(&t, "B") {
        PitchSymbol::B
    } else {
        PitchSymbol::C
    }
}

/// Parse the name, in any case, of a pitch symbol; C for a name it does not know.
pub fn parse_pitch_symbol(input: &str) -> (r: PitchSymbol)
    ensures
        r == symbol_named(upper_of(input@)),
{
    let folded = to_upper(input);
    pitch_symbol_from_upper(folded.as_str())
}

/// The scale type a name gives; diatonic for a name it does not know.
pub open spec fn scale_type_named(t: Seq<char>) -> ScaleType {
    if t == "diatonic"@ {
        ScaleType::Diatonic
    } else if t == "pentatonic_major"@ {
        ScaleType::PentatonicMajor
    } else if t == "pentatonic_minor"@ {
        ScaleType::PentatonicMinor
    } else if t == "blues"@ {
        ScaleType::Blues
    } else if t == "chromatic"@ {
        ScaleType::Chromatic
    } else if t == "whole_tone"@ {
        ScaleType::WholeTone
    } else if t == "harmonic_minor"@ {
        ScaleType::HarmonicMinor
    } else if t == "melodic_minor"@ {
        ScaleType::MelodicMinor
    } else {
        ScaleType::Diatonic
    }
}

/// Match a name already brought to lower-case against the known names.
pub fn scale_type_from_lower(name: &str) -> (r: ScaleType)
    ensures
        r == scale_type_named(name@),
{
    let t = chars_of(name);
    if is_named(&t, "diatonic") {
        ScaleType::Diatonic
    } else if is_named(&t, "pentatonic_major") {
        ScaleType::PentatonicMajor
    } else if is_named(&t, "pentatonic_minor") {
        ScaleType::PentatonicMinor
    } else if is_named(&t, "blues") {
        ScaleType::Blues
    } else if is_named(&t, "chromatic") {
        ScaleType::Chromatic
    } else if is_named(&t, "whole_tone") {
        ScaleType::WholeTone
    } else if is_named(&t, "harmonic_minor") {
        ScaleType::HarmonicMinor
    } else if is_named(&t, "melodic_minor") {
        ScaleType::MelodicMinor
    } else {
        ScaleType::Diatonic
    }
}

/// Parse the name, in any case, of a scale type; diatonic for a name it does not know.
pub fn parse_scale_type(input: &str) -> (r: ScaleType)
    ensures
        r == scale_type_named(lower_of(input@)),
{
    let folded = to_lower(input);
    scale_type_from_lower(folded.as_str())
}

/// The diatonic mode a name gives, if any.
pub open spec fn mode_named(t: Seq<char>) -> Option<Mode> {
    if t == "ionian"@ {
        Some(Mode::Ionian)
    } else if t == "dorian"@ {
        Some(Mode::Dorian)
    } else if t == "phrygian"@ {
        Some(Mode::Phrygian)
    } else if t == "lydian"@ {
        Some(Mode::Lydian)
    } else if t == "mixolydian"@ {
        Some(Mode::Mixolydian)
    } else if t == "aeolian"@ {
        Some(Mode::Aeolian)
    } else if t == "locrian"@ {
        Some(Mode::Locrian)
    } else {
        None
    }
}

/// Match a name already brought to lower-case against the known names.
pub fn mode_from_lower(name: &str) -> (r: Option<Mode>)
    ensures
        r == mode_named(name@),
{
    let t = chars_of(name);
    if is_named(&t, "ionian") {
        Some(Mode::Ionian)
    } else if is_named(&t, "dorian") {
        Some(Mode::Dorian)
    } else if is_named(&t, "phrygian") {
        Some(Mode::Phrygian)
    } else if is_named(&t, "lydian") {
        Some(Mode::Lydian)
    } else if is_named(&t, "mixolydian") {
        Some(Mode::Mixolydian)
    } else if is_named(&t, "aeolian") {
        Some(Mode::Aeolian)
    } else if is_named(&t, "locrian") {
        Some(Mode::Locrian)
    } else {
        None
    }
}

/// Parse the name, in any case, of a diatonic mode.
pub fn parse_mode(input: &str) -> (r: Option<Mode>)
    ensures
        r == mode_named(lower_of(input@)),
{
    let folded = to_lower(input);
    mode_from_lower(folded.as_str())
}

/// The chord quality a name gives; major for a name it does not know.
pub open spec fn quality_named(t: Seq<char>) -> ChordQuality {
    if t == "major"@ {
        ChordQuality::Major
    } else if t == "minor"@ {
        ChordQuality::Minor
    } else if t == "diminished"@ {
        ChordQuality::Diminished
    } else if t == "augmented"@ {
        ChordQuality::Augmented
    } else if t == "dominant"@ {
        ChordQuality::Dominant
    } else if t == "half_diminished"@ {
        ChordQuality::HalfDiminished
    } else if t == "sus2"@ || t == "suspended2"@ {
        ChordQuality::Suspended2
    } else if t == "sus4"@ || t == "suspended4"@ {
        ChordQuality::Suspended4
    } else {
        ChordQuality::Major
    }
}

/// Match a name already brought to lower-case against the known names.
pub fn chord_quality_from_lower(name: &str) -> (r: ChordQuality)
    ensures
        r == quality_named(name@),
{
    let t = chars_of(name);
    if is_named(&t, "major") {
        ChordQuality::Major
    } else if is_named(&t, "minor") {
        ChordQuality::Minor
    } else if is_named(&t, "diminished") {
        ChordQuality::Diminished
    } else if is_named(&t, "augmented") {
        ChordQuality::Augmented
    } else if is_named(&t, "dominant") {
        ChordQuality::Dominant
    } else if is_named(&t, "half_diminished") {
        ChordQuality::HalfDiminished
    } else if is_named(&t, "sus2") || is_named(&t, "suspended2") {
        ChordQuality::Suspended2
    } else if is_named(&t, "sus4") || is_named(&t, "suspended4") {
        ChordQuality::Suspended4
    } else {
        ChordQuality::Major
    }
}

/// Parse the name, in any case, of a chord quality; major for a name it does not know.
pub fn parse_chord_quality(input: &str) -> (r: ChordQuality)
    ensures
        r == quality_named(lower_of(input@)),
{
    let folded = to_lower(input);
    chord_quality_from_lower(folded.as_str())
}

/// The chord number a name gives; a triad for a name it does not know.
pub open spec fn number_named(t: Seq<char>) -> ChordNumber {
    if t == "triad"@ {
        ChordNumber::Triad
    } else if t == "seventh"@ {
        ChordNumber::Seventh
    } else if t == "ninth"@ {
        ChordNumber::Ninth
    } else if t == "eleventh"@ {
        ChordNumber::Eleventh
    } else if t == "thirteenth"@ {
        ChordNumber::Thirteenth
    } else {
        ChordNumber::Triad
    }
}

/// Match a name already brought to lower-case against the known names.
pub fn chord_number_from_lower(name: &str) -> (r: ChordNumber)
    ensures
        r == number_named(name@),
{
    let t = chars_of(name);
    if is_named(&t, "triad") {
        ChordNumber::Triad
    } else if is_named(&t, "seventh") {
        ChordNumber::Seventh
    } else if is_named(&t, "ninth") {
        ChordNumber::Ninth
    } else if is_named(&t, "eleventh") {
        ChordNumber::Eleventh
    } else if is_named(&t, "thirteenth") {
        ChordNumber::Thirteenth
    } else {
        ChordNumber::Triad
    }
}

/// Parse the name, in any case, of a chord number; a triad for a name it does not know.
pub fn parse_chord_number(input: &str) -> (r: ChordNumber)
    ensures
        r == number_named(lower_of(input@)),
{
    let folded = to_lower(input);
    chord_number_from_lower(folded.as_str())
}

} // verus!
