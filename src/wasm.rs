//! Plain records of notes, scales and chords, as handed to a host runtime.
use crate::chord::{chord_interval_seq, chord_notes, Chord};
use crate::names::{
    lower_of, mode_named, number_named, parse_chord_number, parse_chord_quality, parse_mode,
    parse_pitch_symbol, parse_scale_type, quality_named, scale_type_named, symbol_named, upper_of,
};
use crate::note::{pitch_text, symbol_pitch, Note};
use crate::scale::{scale_interval_seq, scale_notes, Direction, Scale};
use vstd::prelude::*;
use vstd::string::StringExecFns;

verus! {

/// A note as text: its pitch, its octave, and how it is displayed.
#[derive(Debug, Clone)]
pub struct WasmNote {
    pub pitch: String,
    pub octave: u8,
    pub display: String,
}

/// A scale as text.
#[derive(Debug, Clone)]
pub struct WasmScale {
    pub notes: Vec<WasmNote>,
    pub scale_type: String,
    pub tonic: String,
    pub mode: Option<String>,
    pub direction: String,
}

/// A chord as text.
#[derive(Debug, Clone)]
pub struct WasmChord {
    pub notes: Vec<WasmNote>,
    pub root: String,
    pub quality: String,
    pub number: String,
}

impl WasmNote {
    /// The record of a note.
    pub fn from_note(note: Note) -> (r: Self)
        ensures
            r.pitch@ == pitch_text(note.pitch),
            r.octave == note.octave,
            r.display@ == pitch_text(note.pitch),
    {
        WasmNote { pitch: note.pitch.to_string(), octave: note.octave, display: note.to_string() }
    }
}

/// Whether a record stands for a note.
pub open spec fn records(w: WasmNote, n: Note) -> bool {
    w.pitch@ == pitch_text(n.pitch) && w.octave == n.octave && w.display@ == pitch_text(n.pitch)
}

/// The records of a list of notes, in order.
fn note_records(notes: &Vec<Note>) -> (r: Vec<WasmNote>)
    ensures
        r@.len() == notes@.len(),
        forall|k: int| 0 <= k < notes@.len() ==> records(#[trigger] r@[k], notes@[k]),
{
    let mut r: Vec<WasmNote> = Vec::new();
    let mut k: usize = 0;
    while k < notes.len()
        invariant
            k <= notes@.len(),
            r@.len() == k,
            forall|j: int| 0 <= j < k ==> records(#[trigger] r@[j], notes@[j]),
        decreases notes@.len() - k,
    {
        r.push(WasmNote::from_note(notes[k]));
        k = k + 1;
    }
    r
}

/// The record of the chord that names of its root, quality and number give: the root
/// in root position, octave 4, with the names kept as given.
pub fn chord_record(root: &str, quality: &str, number: &str) -> (r: WasmChord)
    ensures
        r.root@ == root@,
        r.quality@ == quality@,
        r.number@ == number@,
        exists|c: Chord|
            c.root == symbol_pitch(symbol_named(upper_of(root@))) && c.octave == 4 && c.inversion == 0
                && c.intervals@ == chord_interval_seq(quality_named(lower_of(quality@)), number_named(lower_of(number@)))
                && r.notes@.len() == chord_notes(c).len()
                && forall|k: int| 0 <= k < r.notes@.len() ==> records(#[trigger] r.notes@[k], chord_notes(c)[k]),
{
    let symbol = parse_pitch_symbol(root);
    let chord = Chord::new(symbol.to_pitch(), parse_chord_quality(quality), parse_chord_number(number));
    let notes = note_records(&chord.notes());
    WasmChord {
        notes,
        root: String::from_str(root),
        quality: String::from_str(quality),
        number: String::from_str(number),
    }
}

/// The text of a direction.
pub open spec fn direction_text(ascending: bool) -> Seq<char> {
    if ascending {
        seq!['a', 's', 'c', 'e', 'n', 'd', 'i', 'n', 'g']
    } else {
        seq!['d', 'e', 's', 'c', 'e', 'n', 'd', 'i', 'n', 'g']
    }
}

/// The mode that an optional mode name gives.
pub open spec fn mode_of_name(mode: Option<String>) -> Option<crate::scale::Mode> {
    match mode {
        Some(m) => mode_named(lower_of(m@)),
        None => None,
    }
}

/// The record of the scale that names of its tonic, type and mode give, in the given
/// octave and direction, with the names kept as given; `None` when its notes would leave
/// the octave range (octave 255 ascending, octave 0 descending).
pub fn scale_record(tonic: &str, scale_type: &str, octave: u8, mode: Option<String>, ascending: bool) -> (r: Option<WasmScale>)
    ensures
        (if ascending { octave < 255 } else { octave > 0 }) <==> r is Some,
        r matches Some(w) ==> w.tonic@ == tonic@ && w.scale_type@ == scale_type@
            && w.direction@ == direction_text(ascending)
            && (match (w.mode, mode) {
                (Some(a), Some(b)) => a@ == b@,
                (None, None) => true,
                _ => false,
            })
            && exists|sc: Scale|
                sc.tonic == symbol_pitch(symbol_named(upper_of(tonic@))) && sc.octave == octave
                    && sc.mode == mode_of_name(mode)
                    && sc.direction == (if ascending { Direction::Ascending } else { Direction::Descending })
                    && sc.intervals@ == scale_interval_seq(scale_type_named(lower_of(scale_type@)), mode_of_name(mode))
                    && w.notes@.len() == scale_notes(sc).len()
                    && forall|k: int| 0 <= k < w.notes@.len() ==> records(#[trigger] w.notes@[k], scale_notes(sc)[k]),
{
    if (ascending && octave == 255) || (!ascending && octave == 0) {
        return None;
    }
    let symbol = parse_pitch_symbol(tonic);
    let kind = parse_scale_type(scale_type);
    let mode_value = match &mode {
        Some(m) => parse_mode(m.as_str()),
        None => None,
    };
    let direction = if ascending { Direction::Ascending } else { Direction::Descending };
    let scale = match Scale::new(kind, symbol.to_pitch(), octave, mode_value, direction) {
        Ok(sc) => sc,
        Err(_) => {
            return None;
        },
    };
    proof {
        crate::scale::lemma_scale_spans_octave(kind, mode_value);
        crate::interval::lemma_prefix_monotone(scale.intervals@, 0, scale.intervals@.len() as int);
        crate::interval::lemma_prefix_suffix_split(scale.intervals@, scale.intervals@.len() as int);
    }
    let notes = note_records(&scale.notes());
    proof {
        reveal_strlit("ascending");
        reveal_strlit("descending");
    }
    let direction_name = if ascending { String::from_str("ascending") } else { String::from_str("descending") };
    let mode_name = match &mode {
        Some(m) => Some(m.clone()),
        None => None,
    };
    Some(WasmScale {
        notes,
        scale_type: String::from_str(scale_type),
        tonic: String::from_str(tonic),
        mode: mode_name,
        direction: direction_name,
    })
}

} // verus!
