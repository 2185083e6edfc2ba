//! Chords: construction from quality and number, note generation with inversions,
//! and identification of a chord from its notes.
use crate::interval::{interval_of, prefix_total, Interval};
use crate::key_signature::{spelling_of, KeySignature};
use crate::note::{semitone, symbol_pitch, NoteLetter, Note, Pitch};
use crate::text::{
    is_space, parse_pitch, pitch_of_text, chars_of, find_char, index_of, leading_pitch, leading_pitch_of, number_rule, parse_small_number,
    quality_rule, recognize_number, recognize_quality, slice_of, small_number, trim, trimmed,
};
use crate::note::pitch_text;
use vstd::prelude::*;
use vstd::string::StringExecFns;

verus! {

/// The quality of a chord.
#[derive(Debug, Clone, Copy, PartialEq, Eq, Structural)]
pub enum Quality {
    Major,
    Minor,
    Diminished,
    Augmented,
    HalfDiminished,
    Dominant,
    Suspended2,
    Suspended4,
}

/// The superscript number after a chord.
#[derive(Debug, Clone, Copy, PartialEq, Eq, Structural)]
pub enum Number {
    Triad,
    Seventh,
    MajorSeventh,
    Ninth,
    Eleventh,
    Thirteenth,
}

/// An error while parsing or identifying a chord.
#[derive(Debug, Clone, PartialEq, Eq)]
pub enum ChordError {
    /// The text does not describe a chord.
    InvalidRegex,
    /// The steps between the notes match no known chord in root position.
    UnknownIntervalPattern(Vec<u8>),
    /// The steps between the notes match no known chord in any position that is read
    /// unambiguously.
    InvalidUnknownChord,
}

/// The chords that have their own row in the table, in the order they are looked up.
pub open spec fn known_chords() -> Seq<(Quality, Number)> {
    seq![
        (Quality::Major, Number::Triad),
        (Quality::Minor, Number::Triad),
        (Quality::Suspended2, Number::Triad),
        (Quality::Suspended4, Number::Triad),
        (Quality::Augmented, Number::Triad),
        (Quality::Diminished, Number::Triad),
        (Quality::Major, Number::Seventh),
        (Quality::Minor, Number::Seventh),
        (Quality::Augmented, Number::Seventh),
        (Quality::Augmented, Number::MajorSeventh),
        (Quality::Diminished, Number::Seventh),
        (Quality::HalfDiminished, Number::Seventh),
        (Quality::Minor, Number::MajorSeventh),
        (Quality::Dominant, Number::Seventh),
        (Quality::Dominant, Number::Ninth),
        (Quality::Major, Number::Ninth),
        (Quality::Dominant, Number::Eleventh),
        (Quality::Major, Number::Eleventh),
        (Quality::Minor, Number::Eleventh),
        (Quality::Dominant, Number::Thirteenth),
        (Quality::Major, Number::Thirteenth),
        (Quality::Minor, Number::Thirteenth),
        (Quality::Major, Number::MajorSeventh),
    ]
}

/// The steps, in semitones, between consecutive notes of a chord in the table.
pub open spec fn table_steps(q: Quality, n: Number) -> Option<Seq<u8>> {
    match (q, n) {
        (Quality::Major, Number::Triad) => Some(seq![4u8, 3]),
        (Quality::Minor, Number::Triad) => Some(seq![3u8, 4]),
        (Quality::Suspended2, Number::Triad) => Some(seq![2u8, 5]),
        (Quality::Suspended4, Number::Triad) => Some(seq![5u8, 2]),
        (Quality::Augmented, Number::Triad) => Some(seq![4u8, 4]),
        (Quality::Diminished, Number::Triad) => Some(seq![3u8, 3]),
        (Quality::Major, Number::Seventh) => Some(seq![4u8, 3, 4]),
        (Quality::Minor, Number::Seventh) => Some(seq![3u8, 4, 3]),
        (Quality::Augmented, Number::Seventh) => Some(seq![4u8, 4, 2]),
        (Quality::Augmented, Number::MajorSeventh) => Some(seq![4u8, 4, 3]),
        (Quality::Diminished, Number::Seventh) => Some(seq![3u8, 3, 3]),
        (Quality::HalfDiminished, Number::Seventh) => Some(seq![3u8, 3, 4]),
        (Quality::Minor, Number::MajorSeventh) => Some(seq![3u8, 4, 4]),
        (Quality::Dominant, Number::Seventh) => Some(seq![4u8, 3, 3]),
        (Quality::Dominant, Number::Ninth) => Some(seq![4u8, 3, 3, 4]),
        (Quality::Major, Number::Ninth) => Some(seq![4u8, 3, 4, 3]),
        (Quality::Dominant, Number::Eleventh) => Some(seq![4u8, 3, 3, 4, 4]),
        (Quality::Major, Number::Eleventh) => Some(seq![4u8, 3, 4, 3, 3]),
        (Quality::Minor, Number::Eleventh) => Some(seq![3u8, 4, 3, 4, 3]),
        (Quality::Dominant, Number::Thirteenth) => Some(seq![4u8, 3, 3, 4, 3, 4]),
        (Quality::Major, Number::Thirteenth) => Some(seq![4u8, 3, 4, 3, 3, 4]),
        (Quality::Minor, Number::Thirteenth) => Some(seq![3u8, 4, 3, 4, 3, 4]),
        (Quality::Major, Number::MajorSeventh) => Some(seq![4u8, 3, 4]),
        _ => None,
    }
}

/// The steps of a chord: its row of the table, or a major triad for a pair without one.
pub open spec fn chord_steps(q: Quality, n: Number) -> Seq<u8> {
    match table_steps(q, n) {
        Some(s) => s,
        None => seq![4u8, 3],
    }
}

/// The intervals of a chord.
pub open spec fn chord_interval_seq(q: Quality, n: Number) -> Seq<Interval> {
    chord_steps(q, n).map_values(|x: u8| interval_of(x as int))
}

/// The number of notes a chord of this number has in the textbook.
pub open spec fn textbook_size(n: Number) -> int {
    match n {
        Number::Triad => 3,
        Number::Seventh | Number::MajorSeventh => 4,
        Number::Ninth => 5,
        Number::Eleventh => 6,
        Number::Thirteenth => 7,
    }
}

/// The first chord of the table, looked up in order, whose steps are `s`.
pub open spec fn lookup_from(s: Seq<u8>, i: int) -> Option<(Quality, Number)>
    decreases known_chords().len() - i,
{
    if i < 0 || i >= known_chords().len() {
        None
    } else if table_steps(known_chords()[i].0, known_chords()[i].1) == Some(s) {
        Some(known_chords()[i])
    } else {
        lookup_from(s, i + 1)
    }
}

/// The chord in root position whose steps are `s`, if the table has one.
pub open spec fn root_position(s: Seq<u8>) -> Option<(Quality, Number)> {
    lookup_from(s, 0)
}

/// The reading of steps `s` as a chord in some position: quality, number, the index of
/// the root among the notes, and the inversion. Patterns that several chords share in
/// different positions (`[5, 5]`, and the symmetric augmented and diminished triads) are
/// read only in root position, or not at all.
pub open spec fn any_position(s: Seq<u8>) -> Option<(Quality, Number, int, int)> {
    match root_position(s) {
        Some(qn) => Some((qn.0, qn.1, 0, 0)),
        None => if s == seq![3u8, 5] {
            Some((Quality::Major, Number::Triad, 2, 1))
        } else if s == seq![5u8, 4] {
            Some((Quality::Major, Number::Triad, 1, 2))
        } else if s == seq![4u8, 5] {
            Some((Quality::Minor, Number::Triad, 2, 1))
        } else if s == seq![5u8, 3] {
            Some((Quality::Minor, Number::Triad, 1, 2))
        } else {
            None
        },
    }
}

/// A chord.
#[derive(Debug, Clone)]
pub struct Chord {
    /// The root note of the chord.
    pub root: Pitch,
    /// The octave of the root note of the chord.
    pub octave: u8,
    /// The intervals within the chord.
    pub intervals: Vec<Interval>,
    /// The quality of the chord: major, minor, diminished, etc.
    pub quality: Quality,
    /// The superscript number of the chord: 3, 7, maj7, etc.
    pub number: Number,
    /// The inversion of the chord: 0=root position, 1=first inversion, etc.
    pub inversion: u8,
}

/// The note of a chord's root position at index `k`, spelled in the key of the root.
pub open spec fn base_note(c: Chord, k: int) -> Note {
    let t = semitone(c.root) + prefix_total(c.intervals@, k);
    Note {
        pitch: symbol_pitch(spelling_of(KeySignature { tonic: c.root, mode: None }, t % 12)),
        octave: (c.octave + t / 12) as u8,
    }
}

/// The octave of `base_note(c, k)` as an integer.
pub open spec fn base_octave(c: Chord, k: int) -> int {
    c.octave + (semitone(c.root) + prefix_total(c.intervals@, k)) / 12
}

/// The number of notes of a chord.
pub open spec fn size(c: Chord) -> int {
    c.intervals@.len() as int + 1
}

/// The note of the rotated chord at index `k`: the root position rotated left by the
/// inversion.
pub open spec fn rotated_note(c: Chord, k: int) -> Note {
    base_note(c, (k + c.inversion) % size(c))
}

/// How far the rotated chord is lowered so that its first note sits in the chord's octave.
pub open spec fn lowering(c: Chord) -> int {
    if rotated_note(c, 0).octave > c.octave {
        rotated_note(c, 0).octave - c.octave
    } else {
        0
    }
}

/// The rotated note at index `k` after lowering (never below octave 0).
pub open spec fn lowered_note(c: Chord, k: int) -> Note {
    let n = rotated_note(c, k);
    Note { pitch: n.pitch, octave: if n.octave >= lowering(c) { (n.octave - lowering(c)) as u8 } else { 0 } }
}

/// The note at index `k` of a chord: each note after the first sits one octave above
/// the previous one when its pitch class does not rise, and never below the previous one.
pub open spec fn chord_note(c: Chord, k: int) -> Note
    decreases k,
{
    if k <= 0 {
        lowered_note(c, 0)
    } else {
        let prev = chord_note(c, k - 1);
        let cur = lowered_note(c, k);
        Note {
            pitch: cur.pitch,
            octave: if semitone(cur.pitch) <= semitone(prev.pitch) {
                (prev.octave + 1) as u8
            } else if cur.octave < prev.octave {
                prev.octave
            } else {
                cur.octave
            },
        }
    }
}

/// The notes of a chord.
pub open spec fn chord_notes(c: Chord) -> Seq<Note> {
    Seq::new(size(c) as nat, |k: int| chord_note(c, k))
}

impl Chord {
    /// A chord whose notes can be generated: intervals of at most an octave, an inversion
    /// that indexes a note, and room above its octave for every note.
    pub open spec fn wf(&self) -> bool {
        &&& self.inversion < size(*self)
        &&& forall|i: int|
            0 <= i < self.intervals@.len() ==> #[trigger] self.intervals@[i].semitone_count <= 12
        &&& self.octave + 2 * self.intervals@.len() + 2 <= 255
    }
}

pub proof fn lemma_chord_steps_bounds(q: Quality, n: Number)
    ensures
        2 <= chord_steps(q, n).len() <= 6,
        forall|i: int| 0 <= i < chord_steps(q, n).len() ==> #[trigger] chord_steps(q, n)[i] <= 5,
{
}

/// The known chords have the textbook number of notes.
pub proof fn lemma_chord_size(q: Quality, n: Number)
    requires
        table_steps(q, n) is Some,
    ensures
        chord_interval_seq(q, n).len() + 1 == textbook_size(n),
{
}

pub proof fn lemma_prefix_bound(ivs: Seq<Interval>, k: int)
    requires
        0 <= k <= ivs.len(),
        forall|i: int| 0 <= i < ivs.len() ==> #[trigger] ivs[i].semitone_count <= 12,
    ensures
        0 <= prefix_total(ivs, k) <= 12 * k,
    decreases k,
{
    if k > 0 {
        lemma_prefix_bound(ivs, k - 1);
    }
}

/// Every note of a chord's root position lies at most one octave per interval above the
/// chord's octave.
pub proof fn lemma_base_octave_bound(c: Chord, k: int)
    requires
        c.wf(),
        0 <= k < size(c),
    ensures
        c.octave <= base_octave(c, k) <= c.octave + c.intervals@.len(),
        base_note(c, k).octave == base_octave(c, k),
{
    let l = c.intervals@.len() as int;
    lemma_prefix_bound(c.intervals@, k);
    vstd::arithmetic::div_mod::lemma_div_is_ordered(
        semitone(c.root) + prefix_total(c.intervals@, k),
        11 + 12 * l,
        12,
    );
    vstd::arithmetic::div_mod::lemma_fundamental_div_mod_converse(11 + 12 * l, 12, l, 11);
    vstd::arithmetic::div_mod::lemma_div_is_ordered(0, semitone(c.root) + prefix_total(c.intervals@, k), 12);
}

/// The steps of the table as a vector.
fn steps_vec(quality: Quality, number: Number) -> (r: Vec<u8>)
    ensures
        r@ == chord_steps(quality, number),
{
    let r = match (quality, number) {
        (Quality::Major, Number::Triad) => vec![4u8, 3],
        (Quality::Minor, Number::Triad) => vec![3u8, 4],
        (Quality::Suspended2, Number::Triad) => vec![2u8, 5],
        (Quality::Suspended4, Number::Triad) => vec![5u8, 2],
        (Quality::Augmented, Number::Triad) => vec![4u8, 4],
        (Quality::Diminished, Number::Triad) => vec![3u8, 3],
        (Quality::Major, Number::Seventh) => vec![4u8, 3, 4],
        (Quality::Minor, Number::Seventh) => vec![3u8, 4, 3],
        (Quality::Augmented, Number::Seventh) => vec![4u8, 4, 2],
        (Quality::Augmented, Number::MajorSeventh) => vec![4u8, 4, 3],
        (Quality::Diminished, Number::Seventh) => vec![3u8, 3, 3],
        (Quality::HalfDiminished, Number::Seventh) => vec![3u8, 3, 4],
        (Quality::Minor, Number::MajorSeventh) => vec![3u8, 4, 4],
        (Quality::Dominant, Number::Seventh) => vec![4u8, 3, 3],
        (Quality::Dominant, Number::Ninth) => vec![4u8, 3, 3, 4],
        (Quality::Major, Number::Ninth) => vec![4u8, 3, 4, 3],
        (Quality::Dominant, Number::Eleventh) => vec![4u8, 3, 3, 4, 4],
        (Quality::Major, Number::Eleventh) => vec![4u8, 3, 4, 3, 3],
        (Quality::Minor, Number::Eleventh) => vec![3u8, 4, 3, 4, 3],
        (Quality::Dominant, Number::Thirteenth) => vec![4u8, 3, 3, 4, 3, 4],
        (Quality::Major, Number::Thirteenth) => vec![4u8, 3, 4, 3, 3, 4],
        (Quality::Minor, Number::Thirteenth) => vec![3u8, 4, 3, 4, 3, 4],
        (Quality::Major, Number::MajorSeventh) => vec![4u8, 3, 4],
        _ => vec![4u8, 3],
    };
    assert(r@ =~= chord_steps(quality, number));
    r
}

impl Chord {
    /// The intervals of the chord of this quality and number; a major triad for a pair
    /// that the table lacks.
    pub fn chord_intervals(quality: Quality, number: Number) -> (r: Vec<Interval>)
        ensures
            r@ == chord_interval_seq(quality, number),
    {
        let steps = steps_vec(quality, number);
        proof {
            lemma_chord_steps_bounds(quality, number);
        }
        let mut r: Vec<Interval> = Vec::new();
        let mut k: usize = 0;
        while k < steps.len()
            invariant
                k <= steps@.len(),
                steps@ == chord_steps(quality, number),
                forall|i: int| 0 <= i < steps@.len() ==> #[trigger] steps@[i] <= 5,
                r@.len() == k,
                forall|i: int| 0 <= i < k ==> r@[i] == interval_of(#[trigger] steps@[i] as int),
            decreases steps@.len() - k,
        {
            let s = steps[k];
            match Interval::from_semitone(s) {
                Ok(i) => r.push(i),
                Err(_) => {
                    assert(false);
                },
            }
            k = k + 1;
        }
        assert(r@ =~= chord_interval_seq(quality, number));
        r
    }

    /// Create a new chord with a given inversion, taken modulo the number of notes.
    pub fn with_inversion(root: Pitch, quality: Quality, number: Number, inversion: u8) -> (r:
        Self)
        ensures
            r.root == root,
            r.octave == 4,
            r.quality == quality,
            r.number == number,
            r.intervals@ == chord_interval_seq(quality, number),
            r.inversion as int == inversion as int % (chord_interval_seq(quality, number).len() as int
                + 1),
            r.wf(),
    {
        let intervals = Self::chord_intervals(quality, number);
        proof {
            lemma_chord_steps_bounds(quality, number);
        }
        let n = intervals.len() as u8 + 1;
        let inversion = inversion % n;
        Chord { root, octave: 4, intervals, quality, number, inversion }
    }

    /// Create a new chord in root position.
    pub fn new(root: Pitch, quality: Quality, number: Number) -> (r: Self)
        ensures
            r.root == root,
            r.octave == 4,
            r.quality == quality,
            r.number == number,
            r.intervals@ == chord_interval_seq(quality, number),
            r.inversion == 0,
            r.wf(),
    {
        Self::with_inversion(root, quality, number, 0)
    }

    /// The notes of the chord, lowest first.
    pub fn notes(&self) -> (r: Vec<Note>)
        requires
            self.wf(),
        ensures
            r@ == chord_notes(*self),
    {
        let len = self.intervals.len() + 1;
        let ks = KeySignature::new(self.root);
        proof {
            lemma_prefix_bound(self.intervals@, self.intervals@.len() as int);
            vstd::arithmetic::div_mod::lemma_div_is_ordered(
                semitone(self.root) + prefix_total(self.intervals@, self.intervals@.len() as int),
                11 + 12 * (self.intervals@.len() as int),
                12,
            );
            vstd::arithmetic::div_mod::lemma_fundamental_div_mod_converse(11 + 12 * (self.intervals@.len() as int), 12, self.intervals@.len() as int, 11);
        }
        let generated = Interval::to_notes(Note::new(self.root, self.octave), self.intervals.as_slice());
        // Spell every note in the key of the root.
        let mut base: Vec<Note> = Vec::new();
        let mut k: usize = 0;
        while k < len
            invariant
                len == size(*self),
                generated@.len() == len,
                ks == (KeySignature { tonic: self.root, mode: None }),
                forall|j: int|
                    0 <= j < len ==> semitone(#[trigger] generated@[j].pitch) == (semitone(self.root)
                        + prefix_total(self.intervals@, j)) % 12 && generated@[j].octave
                        == crate::interval::shifted_note(
                        Note { pitch: self.root, octave: self.octave },
                        prefix_total(self.intervals@, j),
                    ).octave,
                k <= len,
                base@.len() == k,
                forall|j: int| 0 <= j < k ==> #[trigger] base@[j] == base_note(*self, j),
            decreases len - k,
        {
            let g = generated[k];
            let sym = ks.get_preferred_spelling(g.pitch);
            base.push(Note { pitch: sym.to_pitch(), octave: g.octave });
            k = k + 1;
        }
        // Rotate left by the inversion.
        let inv = self.inversion as usize;
        let mut rotated: Vec<Note> = Vec::new();
        let mut k: usize = 0;
        while k < len
            invariant
                len == size(*self),
                inv == self.inversion,
                inv < len,
                len < 200,
                base@.len() == len,
                forall|j: int| 0 <= j < len ==> #[trigger] base@[j] == base_note(*self, j),
                k <= len,
                rotated@.len() == k,
                forall|j: int| 0 <= j < k ==> #[trigger] rotated@[j] == rotated_note(*self, j),
            decreases len - k,
        {
            rotated.push(base[(k + inv) % len]);
            k = k + 1;
        }
        // Lower the chord so that its first note sits in the chord's octave.
        let d: u8 = if rotated[0].octave > self.octave {
            rotated[0].octave - self.octave
        } else {
            0
        };
        let mut notes: Vec<Note> = Vec::new();
        let mut k: usize = 0;
        while k < len
            invariant
                len == size(*self),
                rotated@.len() == len,
                forall|j: int| 0 <= j < len ==> #[trigger] rotated@[j] == rotated_note(*self, j),
                d == lowering(*self),
                k <= len,
                notes@.len() == k,
                forall|j: int| 0 <= j < k ==> #[trigger] notes@[j] == lowered_note(*self, j),
            decreases len - k,
        {
            let n = rotated[k];
            let octave = if n.octave >= d { n.octave - d } else { 0 };
            notes.push(Note { pitch: n.pitch, octave });
            k = k + 1;
        }
        // Walk up: a note whose pitch class does not rise starts a new octave.
        let ghost top = self.octave + self.intervals@.len();
        proof {
            assert forall|j: int| 0 <= j < len implies #[trigger] lowered_note(*self, j).octave <= top by {
                lemma_base_octave_bound(*self, (j + self.inversion) % size(*self));
            }
        }
        let mut i: usize = 1;
        while i < len
            invariant
                len == size(*self),
                1 <= i <= len,
                top == self.octave + self.intervals@.len(),
                top + len + 1 <= 255,
                forall|j: int| 0 <= j < len ==> #[trigger] lowered_note(*self, j).octave <= top,
                notes@.len() == len,
                forall|j: int| 0 <= j < i ==> #[trigger] notes@[j] == chord_note(*self, j),
                forall|j: int| i <= j < len ==> #[trigger] notes@[j] == lowered_note(*self, j),
                chord_note(*self, i - 1).octave <= top + i - 1,
            decreases len - i,
        {
            let prev = notes[i - 1];
            let cur = notes[i];
            let octave = if cur.pitch.into_u8() <= prev.pitch.into_u8() {
                prev.octave + 1
            } else if cur.octave < prev.octave {
                prev.octave
            } else {
                cur.octave
            };
            notes.set(i, Note { pitch: cur.pitch, octave });
            i = i + 1;
        }
        proof {
            assert(notes@ =~= chord_notes(*self));
        }
        notes
    }
}

/// A reading of a chord whose position is not known.
struct UnknownPositionInterval {
    quality: Quality,
    number: Number,
    root_note_index: usize,
    inversion: u8,
}

impl UnknownPositionInterval {
    fn new(quality: Quality, number: Number, root_note_index: usize, inversion: u8) -> (r: Self)
        ensures
            r.quality == quality,
            r.number == number,
            r.root_note_index == root_note_index,
            r.inversion == inversion,
    {
        Self { quality, number, root_note_index, inversion }
    }
}

/// The table's rows, in lookup order.
fn known_chord_list() -> (r: Vec<(Quality, Number)>)
    ensures
        r@ == known_chords(),
{
    let r = vec![
        (Quality::Major, Number::Triad),
        (Quality::Minor, Number::Triad),
        (Quality::Suspended2, Number::Triad),
        (Quality::Suspended4, Number::Triad),
        (Quality::Augmented, Number::Triad),
        (Quality::Diminished, Number::Triad),
        (Quality::Major, Number::Seventh),
        (Quality::Minor, Number::Seventh),
        (Quality::Augmented, Number::Seventh),
        (Quality::Augmented, Number::MajorSeventh),
        (Quality::Diminished, Number::Seventh),
        (Quality::HalfDiminished, Number::Seventh),
        (Quality::Minor, Number::MajorSeventh),
        (Quality::Dominant, Number::Seventh),
        (Quality::Dominant, Number::Ninth),
        (Quality::Major, Number::Ninth),
        (Quality::Dominant, Number::Eleventh),
        (Quality::Major, Number::Eleventh),
        (Quality::Minor, Number::Eleventh),
        (Quality::Dominant, Number::Thirteenth),
        (Quality::Major, Number::Thirteenth),
        (Quality::Minor, Number::Thirteenth),
        (Quality::Major, Number::MajorSeventh),
    ];
    assert(r@ =~= known_chords());
    r
}

/// Whether two step lists are equal.
fn same_steps(a: &[u8], b: &[u8]) -> (r: bool)
    ensures
        r == (a@ == b@),
{
    if a.len() != b.len() {
        return false;
    }
    let mut i: usize = 0;
    while i < a.len()
        invariant
            a@.len() == b@.len(),
            i <= a@.len(),
            forall|j: int| 0 <= j < i ==> a@[j] == b@[j],
        decreases a@.len() - i,
    {
        if a[i] != b[i] {
            return false;
        }
        i = i + 1;
    }
    assert(a@ =~= b@);
    true
}

/// Determine the chord quality and number assuming that the chord is in root position
/// (the root is the lowest note).
fn assume_root_position_interval(interval: &[u8]) -> (r: Option<(Quality, Number)>)
    ensures
        r == root_position(interval@),
{
    let list = known_chord_list();
    let mut i: usize = 0;
    while i < list.len()
        invariant
            list@ == known_chords(),
            i <= list@.len(),
            root_position(interval@) == lookup_from(interval@, i as int),
        decreases list@.len() - i,
    {
        let (q, n) = list[i];
        let steps = steps_vec(q, n);
        proof {
            reveal_with_fuel(lookup_from, 2);
        }
        if same_steps(interval, steps.as_slice()) {
            return Some((q, n));
        }
        i = i + 1;
    }
    None
}

/// Read the steps between notes as a chord in some position.
fn unknown_position_interval(interval: &[u8]) -> (r: Option<UnknownPositionInterval>)
    ensures
        match any_position(interval@) {
            Some(t) => r matches Some(u) && u.quality == t.0 && u.number == t.1
                && u.root_note_index == t.2 && u.inversion == t.3,
            None => r is None,
        },
{
    match assume_root_position_interval(interval) {
        Some((quality, number)) => Some(UnknownPositionInterval::new(quality, number, 0, 0)),
        None => {
            proof {
                assert(seq![3u8, 5] =~= [3u8, 5]@);
                assert(seq![5u8, 4] =~= [5u8, 4]@);
                assert(seq![4u8, 5] =~= [4u8, 5]@);
                assert(seq![5u8, 3] =~= [5u8, 3]@);
            }
            if same_steps(interval, &[3u8, 5]) {
                Some(UnknownPositionInterval::new(Quality::Major, Number::Triad, 2, 1))
            } else if same_steps(interval, &[5u8, 4]) {
                Some(UnknownPositionInterval::new(Quality::Major, Number::Triad, 1, 2))
            } else if same_steps(interval, &[4u8, 5]) {
                Some(UnknownPositionInterval::new(Quality::Minor, Number::Triad, 2, 1))
            } else if same_steps(interval, &[5u8, 3]) {
                Some(UnknownPositionInterval::new(Quality::Minor, Number::Triad, 1, 2))
            } else {
                None
            }
        },
    }
}

impl Chord {
    /// The chord in root position on `root` whose steps between notes are `interval`.
    pub fn from_interval(root: Pitch, interval: &[u8]) -> (r: Result<Self, ChordError>)
        ensures
            match root_position(interval@) {
                Some(qn) => r matches Ok(c) && c.root == root && c.quality == qn.0 && c.number
                    == qn.1 && c.inversion == 0 && c.octave == 4 && c.intervals@
                    == chord_interval_seq(qn.0, qn.1) && c.wf(),
                None => r matches Err(ChordError::UnknownIntervalPattern(v)) && v@ == interval@,
            },
    {
        match assume_root_position_interval(interval) {
            Some((quality, number)) => Ok(Self::new(root, quality, number)),
            None => Err(ChordError::UnknownIntervalPattern(vstd::slice::slice_to_vec(interval))),
        }
    }
}

impl Quality {
    /// Read a quality from the start of a text; a text that names none reads as major.
    pub fn from_regex(string: &str) -> (r: Result<(Self, Option<usize>), ChordError>)
        ensures
            match quality_rule(trimmed(string@)) {
                Some(qe) => r == Ok::<(Quality, Option<usize>), ChordError>((qe.0, Some(qe.1 as usize))),
                None => r == Ok::<(Quality, Option<usize>), ChordError>((Quality::Major, None)),
            },
    {
        let t = trim(&chars_of(string));
        match recognize_quality(&t) {
            Some((q, e)) => Ok((q, Some(e))),
            None => Ok((Quality::Major, None)),
        }
    }
}

impl Number {
    /// Read the number named anywhere in a text, with the end of its match.
    pub fn from_regex(string: &str) -> (r: Result<(Self, usize), ChordError>)
        ensures
            match number_rule(string@) {
                Some(ne) => r == Ok::<(Number, usize), ChordError>((ne.0, ne.1 as usize)),
                None => r == Err::<(Number, usize), ChordError>(ChordError::InvalidRegex),
            },
    {
        match recognize_number(&chars_of(string)) {
            Some(ne) => Ok(ne),
            None => Err(ChordError::InvalidRegex),
        }
    }
}

/// The spelled pitch at index `k` of the root position of a chord.
pub open spec fn chord_pitch(root: Pitch, q: Quality, n: Number, k: int) -> Pitch {
    symbol_pitch(
        spelling_of(
            KeySignature { tonic: root, mode: None },
            (semitone(root) + prefix_total(chord_interval_seq(q, n), k)) % 12,
        ),
    )
}

/// The first index at or after `j` at which the chord with inversion `inv` has pitch `b`.
pub open spec fn bass_index(root: Pitch, q: Quality, n: Number, inv: int, b: Pitch, j: int) -> Option<int>
    decreases chord_interval_seq(q, n).len() + 1 - j,
{
    let size = chord_interval_seq(q, n).len() as int + 1;
    if j < 0 || j >= size {
        None
    } else if chord_pitch(root, q, n, (j + inv) % size) == b {
        Some(j)
    } else {
        bass_index(root, q, n, inv, b, j + 1)
    }
}

/// What a chord's text names: root, quality, number, the inversion written after a slash
/// (zero if none), and the bass pitch written after a slash, if any.
pub open spec fn chord_reading(t: Seq<char>) -> Option<(Pitch, Quality, Number, int, Option<Pitch>)> {
    let tt = trimmed(t);
    match leading_pitch(tt) {
        None => None,
        Some(pe) => {
            let sl = index_of(tt, '/', pe.1);
            let stop = match sl {
                Some(i) => i,
                None => tt.len() as int,
            };
            let qtext = trimmed(tt.subrange(pe.1, stop));
            let qn = match quality_rule(qtext) {
                Some(qe) => (
                    qe.0,
                    match number_rule(qtext.subrange(qe.1, qtext.len() as int)) {
                        Some(ne) => ne.0,
                        None => Number::Triad,
                    },
                ),
                None => (Quality::Major, Number::Triad),
            };
            let after = match sl {
                Some(i) => trimmed(tt.subrange(i + 1, tt.len() as int)),
                None => Seq::empty(),
            };
            let literal = match sl {
                Some(_) => match small_number(after) {
                    Some(v) => v,
                    None => 0,
                },
                None => 0,
            };
            let bass = match sl {
                Some(_) => match leading_pitch(after) {
                    Some(be) => Some(be.0),
                    None => None,
                },
                None => None,
            };
            Some((pe.0, qn.0, qn.1, literal, bass))
        },
    }
}

/// The inversion of the chord a text names: the index of the bass pitch among the notes
/// of the chord with the written inversion, when there is such an index other than 0;
/// else the written inversion.
pub open spec fn reading_inversion(x: (Pitch, Quality, Number, int, Option<Pitch>)) -> int {
    let size = chord_interval_seq(x.1, x.2).len() as int + 1;
    let inv = x.3 % size;
    match x.4 {
        Some(b) => match bass_index(x.0, x.1, x.2, inv, b, 0) {
            Some(j) => if j != 0 { j } else { inv },
            None => inv,
        },
        None => inv,
    }
}

/// The pitches of a chord's notes are those of its root position, rotated by the inversion.
pub proof fn lemma_chord_note_pitch(c: Chord, k: int)
    requires
        0 <= k,
    ensures
        chord_note(c, k).pitch == base_note(c, (k + c.inversion) % size(c)).pitch,
    decreases k,
{
    if k > 0 {
        lemma_chord_note_pitch(c, k - 1);
    }
}

impl Chord {
    /// Parse a chord from text: a root pitch, an optional quality (major if none), an
    /// optional number (a triad if none), and an optional `/` followed by a bass pitch
    /// or an inversion count.
    pub fn from_regex(string: &str) -> (r: Result<Self, ChordError>)
        ensures
            match chord_reading(string@) {
                None => r matches Err(ChordError::InvalidRegex),
                Some(x) => r matches Ok(c) && c.root == x.0 && c.quality == x.1 && c.number == x.2
                    && c.inversion == reading_inversion(x) && c.octave == 4
                    && c.intervals@ == chord_interval_seq(x.1, x.2) && c.wf(),
            },
    {
        let t = trim(&chars_of(string));
        let (pitch, end) = match leading_pitch_of(&t) {
            Some(pe) => pe,
            None => {
                return Err(ChordError::InvalidRegex);
            },
        };
        assert(leading_pitch(t@) == Some((pitch, end as int)));
        let tl = t.len();
        let slash = find_char(&t, '/', end);
        let stop = match slash {
            Some(i) => i,
            None => t.len(),
        };
        let qtext = trim(&slice_of(&t, end, stop));
        let (quality, number) = match recognize_quality(&qtext) {
            Some((q, qe)) => {
                let rest = slice_of(&qtext, qe, qtext.len());
                match recognize_number(&rest) {
                    Some((n, _)) => (q, n),
                    None => (q, Number::Triad),
                }
            },
            None => (Quality::Major, Number::Triad),
        };
        let (literal, bass) = match slash {
            Some(i) => {
                let after = trim(&slice_of(&t, i + 1, t.len()));
                let literal = match parse_small_number(&after) {
                    Some(v) => v,
                    None => 0,
                };
                let bass = match leading_pitch_of(&after) {
                    Some((b, _)) => Some(b),
                    None => None,
                };
                (literal, bass)
            },
            None => (0, None),
        };
        let ghost x = (pitch, quality, number, literal as int, bass);
        assert(chord_reading(string@) == Some(x));
        let chord = Chord::with_inversion(pitch, quality, number, literal);
        if let Some(b) = bass {
            let notes = chord.notes();
            let count = notes.len();
            let mut j: usize = 0;
            while j < count
                invariant
                    count == size(chord),
                    notes@ == chord_notes(chord),
                    chord.intervals@ == chord_interval_seq(quality, number),
                    chord.root == pitch,
                    chord.quality == quality,
                    chord.number == number,
                    chord.octave == 4,
                    chord.wf(),
                    chord.inversion as int == literal as int % (chord_interval_seq(quality, number).len() as int + 1),
                    x == (pitch, quality, number, literal as int, Some(b)),
                    chord_reading(string@) == Some(x),
                    j <= count,
                    bass_index(pitch, quality, number, chord.inversion as int, b, 0)
                        == bass_index(pitch, quality, number, chord.inversion as int, b, j as int),
                decreases count - j,
            {
                proof {
                    lemma_chord_note_pitch(chord, j as int);
                    assert(notes@[j as int] == chord_note(chord, j as int));
                    assert(base_note(chord, (j + chord.inversion) % size(chord)).pitch == chord_pitch(
                        pitch,
                        quality,
                        number,
                        (j + chord.inversion) % size(chord),
                    ));
                }
                if notes[j].pitch == b {
                    assert(bass_index(pitch, quality, number, chord.inversion as int, b, j as int) == Some(j as int));
                    assert(reading_inversion(x) == (if j != 0 { j as int } else { chord.inversion as int }));
                    if j != 0 {
                        assert(j as int % size(chord) == j as int) by {
                            vstd::arithmetic::div_mod::lemma_small_mod(j as nat, size(chord) as nat);
                        }
                        return Ok(Chord::with_inversion(pitch, quality, number, j as u8));
                    }
                    return Ok(chord);
                }
                j = j + 1;
            }
        }
        Ok(chord)
    }
}

/// The words of a text, where whitespace separates words and commas are dropped: `cur` is
/// the word being read and `acc` the words already read.
pub open spec fn words_from(rest: Seq<char>, cur: Seq<char>, acc: Seq<Seq<char>>) -> Seq<Seq<char>>
    decreases rest.len(),
{
    if rest.len() == 0 {
        if cur.len() > 0 { acc.push(cur) } else { acc }
    } else if rest[0] == ',' {
        words_from(rest.drop_first(), cur, acc)
    } else if is_space(rest[0]) {
        words_from(rest.drop_first(), Seq::empty(), if cur.len() > 0 { acc.push(cur) } else { acc })
    } else {
        words_from(rest.drop_first(), cur.push(rest[0]), acc)
    }
}

/// The words of a text.
pub open spec fn note_words(t: Seq<char>) -> Seq<Seq<char>> {
    words_from(t, Seq::empty(), Seq::empty())
}

/// The pitches that the words name, if every word names one.
pub open spec fn pitches_of(ws: Seq<Seq<char>>) -> Option<Seq<Pitch>> {
    if forall|i: int| 0 <= i < ws.len() ==> (#[trigger] pitch_of_text(ws[i])) is Some {
        Some(Seq::new(ws.len(), |i: int| pitch_of_text(ws[i])->Some_0))
    } else {
        None
    }
}

/// The semitones from pitch class `x` up to pitch class `y`; a full octave when they are equal.
pub open spec fn step_up(x: int, y: int) -> int {
    if x < y { y - x } else { y + 12 - x }
}

/// The steps between consecutive pitches.
pub open spec fn steps_of(ps: Seq<Pitch>) -> Seq<u8> {
    if ps.len() == 0 {
        Seq::empty()
    } else {
        Seq::new((ps.len() - 1) as nat, |i: int| step_up(semitone(ps[i]), semitone(ps[i + 1])) as u8)
    }
}

pub proof fn lemma_lookup_steps(s: Seq<u8>, i: int)
    ensures
        lookup_from(s, i) matches Some(qn) ==> table_steps(qn.0, qn.1) == Some(s),
    decreases known_chords().len() - i,
{
    if 0 <= i < known_chords().len() && table_steps(known_chords()[i].0, known_chords()[i].1) != Some(s) {
        lemma_lookup_steps(s, i + 1);
    }
}

/// A reading of steps as a chord names a root among the notes that the steps join.
pub proof fn lemma_any_position_index(s: Seq<u8>)
    ensures
        any_position(s) matches Some(t) ==> 0 <= t.2 <= s.len() && t.2 < 3 && s.len() >= 2,
{
    lemma_lookup_steps(s, 0);
    if let Some(qn) = root_position(s) {
        lemma_chord_steps_bounds(qn.0, qn.1);
    }
}

pub proof fn lemma_words_extend(rest: Seq<char>, cur: Seq<char>, acc: Seq<Seq<char>>)
    ensures
        words_from(rest, cur, acc).len() >= acc.len(),
        words_from(rest, cur, acc).subrange(0, acc.len() as int) == acc,
    decreases rest.len(),
{
    if rest.len() == 0 {
        if cur.len() > 0 {
            assert(acc.push(cur).subrange(0, acc.len() as int) =~= acc);
        } else {
            assert(acc.subrange(0, acc.len() as int) =~= acc);
        }
    } else if rest[0] == ',' {
        lemma_words_extend(rest.drop_first(), cur, acc);
    } else if is_space(rest[0]) {
        let next = if cur.len() > 0 { acc.push(cur) } else { acc };
        lemma_words_extend(rest.drop_first(), Seq::empty(), next);
        assert(next.subrange(0, acc.len() as int) =~= acc);
        assert(words_from(rest, cur, acc).subrange(0, acc.len() as int) =~= words_from(rest, cur, acc).subrange(0, next.len() as int).subrange(0, acc.len() as int));
    } else {
        lemma_words_extend(rest.drop_first(), cur.push(rest[0]), acc);
    }
}

impl Chord {
    /// Identify the chord whose notes a text lists, lowest first, separated by whitespace
    /// or commas. Fails when a word is not a pitch, or when the steps between the notes
    /// are not read as a known chord.
    pub fn from_string(string: &str) -> (r: Result<Self, ChordError>)
        ensures
            match pitches_of(note_words(string@)) {
                None => r matches Err(ChordError::InvalidRegex),
                Some(ps) => match any_position(steps_of(ps)) {
                    None => r matches Err(ChordError::InvalidUnknownChord),
                    Some(t) => r matches Ok(c) && 0 <= t.2 < ps.len() && c.root == ps[t.2]
                        && c.quality == t.0 && c.number == t.1
                        && c.inversion as int == t.3 % (chord_interval_seq(t.0, t.1).len() as int + 1)
                        && c.octave == 4 && c.intervals@ == chord_interval_seq(t.0, t.1) && c.wf(),
                },
            },
    {
        let t = chars_of(string);
        let n = t.len();
        let mut pitches: Vec<Pitch> = Vec::new();
        let mut cur: Vec<char> = Vec::new();
        let ghost mut acc: Seq<Seq<char>> = Seq::empty();
        let mut i: usize = 0;
        assert(t@.subrange(0, n as int) =~= t@);
        assert(cur@ =~= Seq::<char>::empty());
        while i < n
            invariant
                n == t@.len(),
                t@ == string@,
                i <= n,
                note_words(t@) == words_from(t@.subrange(i as int, n as int), cur@, acc),
                pitches@.len() == acc.len(),
                forall|j: int| 0 <= j < acc.len() ==> pitch_of_text(#[trigger] acc[j]) == Some(pitches@[j]),
            decreases n - i,
        {
            let ghost rest = t@.subrange(i as int, n as int);
            let c = t[i];
            assert(rest[0] == c);
            assert(rest.drop_first() =~= t@.subrange(i + 1, n as int));
            if space_char(c) {
                if cur.len() > 0 {
                    match parse_pitch(&cur) {
                        Some(p) => {
                            pitches.push(p);
                            proof {
                                acc = acc.push(cur@);
                            }
                        },
                        None => {
                            proof {
                                let words = note_words(t@);
                                let next = acc.push(cur@);
                                lemma_words_extend(t@.subrange(i + 1, n as int), Seq::empty(), next);
                                assert(words.subrange(0, next.len() as int)[acc.len() as int] == cur@);
                                assert(words[acc.len() as int] == cur@);
                            }
                            return Err(ChordError::InvalidRegex);
                        },
                    }
                }
                cur = Vec::new();
                assert(cur@ =~= Seq::<char>::empty());
            } else if c != ',' {
                cur.push(c);
            }
            i = i + 1;
        }
        assert(t@.subrange(n as int, n as int).len() == 0);
        if cur.len() > 0 {
            match parse_pitch(&cur) {
                Some(p) => {
                    pitches.push(p);
                    proof {
                        acc = acc.push(cur@);
                    }
                },
                None => {
                    proof {
                        assert(note_words(t@)[acc.len() as int] == cur@);
                    }
                    return Err(ChordError::InvalidRegex);
                },
            }
        }
        let ghost ps = pitches@;
        assert(note_words(t@) == acc);
        assert(pitches_of(note_words(t@)) == Some(ps)) by {
            assert(Seq::new(acc.len(), |j: int| pitch_of_text(acc[j])->Some_0) =~= ps);
        }
        // The steps between consecutive notes.
        let mut steps: Vec<u8> = Vec::new();
        let mut k: usize = 1;
        while k < pitches.len()
            invariant
                pitches@ == ps,
                1 <= k,
                k <= ps.len() || k == 1,
                steps@.len() == k - 1,
                forall|j: int| 0 <= j < k - 1 ==> #[trigger] steps@[j] == step_up(semitone(ps[j]), semitone(ps[j + 1])) as u8,
            decreases pitches@.len() - k,
        {
            let x = pitches[k - 1].into_u8();
            let y = pitches[k].into_u8();
            let step = if x < y { y - x } else { y + 12 - x };
            steps.push(step);
            k = k + 1;
        }
        proof {
            if ps.len() == 0 {
                assert(steps@ =~= steps_of(ps));
            } else {
                assert(k == ps.len());
                assert(steps@.len() == steps_of(ps).len());
                assert forall|j: int| 0 <= j < steps@.len() implies steps@[j] == steps_of(ps)[j] by {
                    assert(steps@[j] == step_up(semitone(ps[j]), semitone(ps[j + 1])) as u8);
                }
                assert(steps@ =~= steps_of(ps));
            }
        }
        match unknown_position_interval(steps.as_slice()) {
            Some(u) => {
                proof {
                    lemma_any_position_index(steps@);
                }
                Ok(Chord::with_inversion(pitches[u.root_note_index], u.quality, u.number, u.inversion))
            },
            None => Err(ChordError::InvalidUnknownChord),
        }
    }
}

fn space_char(c: char) -> (r: bool)
    ensures
        r == is_space(c),
{
    c == ' ' || c == '\t' || c == '\n' || c == '\r' || c == '\x0B' || c == '\x0C'
}

/// The name of a chord quality.
pub open spec fn quality_name(q: Quality) -> Seq<char> {
    match q {
        Quality::Major => seq!['M', 'a', 'j', 'o', 'r'],
        Quality::Minor => seq!['M', 'i', 'n', 'o', 'r'],
        Quality::Diminished => seq!['D', 'i', 'm', 'i', 'n', 'i', 's', 'h', 'e', 'd'],
        Quality::Augmented => seq!['A', 'u', 'g', 'm', 'e', 'n', 't', 'e', 'd'],
        Quality::HalfDiminished => seq!['H', 'a', 'l', 'f', 'D', 'i', 'm', 'i', 'n', 'i', 's', 'h', 'e', 'd'],
        Quality::Dominant => seq!['D', 'o', 'm', 'i', 'n', 'a', 'n', 't'],
        Quality::Suspended2 => seq!['S', 'u', 's', 'p', 'e', 'n', 'd', 'e', 'd', '2'],
        Quality::Suspended4 => seq!['S', 'u', 's', 'p', 'e', 'n', 'd', 'e', 'd', '4'],
    }
}

/// The name of a chord number.
pub open spec fn number_name(n: Number) -> Seq<char> {
    match n {
        Number::Triad => seq!['T', 'r', 'i', 'a', 'd'],
        Number::Seventh => seq!['S', 'e', 'v', 'e', 'n', 't', 'h'],
        Number::MajorSeventh => seq!['M', 'a', 'j', 'o', 'r', 'S', 'e', 'v', 'e', 'n', 't', 'h'],
        Number::Ninth => seq!['N', 'i', 'n', 't', 'h'],
        Number::Eleventh => seq!['E', 'l', 'e', 'v', 'e', 'n', 't', 'h'],
        Number::Thirteenth => seq!['T', 'h', 'i', 'r', 't', 'e', 'e', 'n', 't', 'h'],
    }
}

/// The decimal digits of a number below 1000.
pub open spec fn decimal_text(n: int) -> Seq<char> {
    let d = |k: int| ('0' as u32 + k) as char;
    if n < 10 {
        seq![d(n)]
    } else if n < 100 {
        seq![d(n / 10), d(n % 10)]
    } else {
        seq![d(n / 100), d((n / 10) % 10), d(n % 10)]
    }
}

/// How an inversion is written after a chord's name.
pub open spec fn inversion_text(i: int) -> Seq<char> {
    if i == 0 {
        Seq::empty()
    } else if i == 1 {
        seq![',', ' ', '1', 's', 't', ' '] + inversion_word()
    } else if i == 2 {
        seq![',', ' ', '2', 'n', 'd', ' '] + inversion_word()
    } else if i == 3 {
        seq![',', ' ', '3', 'r', 'd', ' '] + inversion_word()
    } else {
        seq![',', ' '] + decimal_text(i) + seq!['t', 'h', ' '] + inversion_word()
    }
}

pub open spec fn inversion_word() -> Seq<char> {
    seq!['I', 'n', 'v', 'e', 'r', 's', 'i', 'o', 'n']
}

/// The text of a chord: root, quality and number, then its inversion if any.
pub open spec fn chord_text(c: Chord) -> Seq<char> {
    pitch_text(c.root) + seq![' '] + quality_name(c.quality) + seq![' '] + number_name(c.number)
        + inversion_text(c.inversion as int)
}

impl Quality {
    /// The name of the quality.
    pub fn name(self) -> (r: &'static str)
        ensures
            r@ == quality_name(self),
    {
        proof {
            reveal_strlit("Major");
            reveal_strlit("Minor");
            reveal_strlit("Diminished");
            reveal_strlit("Augmented");
            reveal_strlit("HalfDiminished");
            reveal_strlit("Dominant");
            reveal_strlit("Suspended2");
            reveal_strlit("Suspended4");
        }
        match self {
            Quality::Major => "Major",
            Quality::Minor => "Minor",
            Quality::Diminished => "Diminished",
            Quality::Augmented => "Augmented",
            Quality::HalfDiminished => "HalfDiminished",
            Quality::Dominant => "Dominant",
            Quality::Suspended2 => "Suspended2",
            Quality::Suspended4 => "Suspended4",
        }
    }
}

impl Number {
    /// The name of the number.
    pub fn name(self) -> (r: &'static str)
        ensures
            r@ == number_name(self),
    {
        proof {
            reveal_strlit("Triad");
            reveal_strlit("Seventh");
            reveal_strlit("MajorSeventh");
            reveal_strlit("Ninth");
            reveal_strlit("Eleventh");
            reveal_strlit("Thirteenth");
        }
        match self {
            Number::Triad => "Triad",
            Number::Seventh => "Seventh",
            Number::MajorSeventh => "MajorSeventh",
            Number::Ninth => "Ninth",
            Number::Eleventh => "Eleventh",
            Number::Thirteenth => "Thirteenth",
        }
    }
}

fn digit_text(k: u8) -> (r: &'static str)
    requires
        k < 10,
    ensures
        r@ == seq![('0' as u32 + k) as char],
{
    proof {
        reveal_strlit("0");
        reveal_strlit("1");
        reveal_strlit("2");
        reveal_strlit("3");
        reveal_strlit("4");
        reveal_strlit("5");
        reveal_strlit("6");
        reveal_strlit("7");
        reveal_strlit("8");
        reveal_strlit("9");
    }
    if k == 0 { "0" } else if k == 1 { "1" } else if k == 2 { "2" } else if k == 3 { "3" }
    else if k == 4 { "4" } else if k == 5 { "5" } else if k == 6 { "6" } else if k == 7 { "7" }
    else if k == 8 { "8" } else { "9" }
}

fn decimal_string(i: u8) -> (r: String)
    ensures
        r@ == decimal_text(i as int),
{
    proof {
        reveal_strlit("");
    }
    let mut s = String::from_str("");
    if i >= 100 {
        s.append(digit_text(i / 100));
        s.append(digit_text((i / 10) % 10));
    } else if i >= 10 {
        s.append(digit_text(i / 10));
    }
    s.append(digit_text(i % 10));
    assert(s@ =~= decimal_text(i as int));
    s
}

fn inversion_string(i: u8) -> (r: String)
    ensures
        r@ == inversion_text(i as int),
{
    proof {
        reveal_strlit("");
        reveal_strlit(", 1st Inversion");
        reveal_strlit(", 2nd Inversion");
        reveal_strlit(", 3rd Inversion");
        reveal_strlit(", ");
        reveal_strlit("th Inversion");
    }
    if i == 0 {
        let s = String::from_str("");
        assert(s@ =~= inversion_text(i as int));
        s
    } else if i == 1 {
        let s = String::from_str(", 1st Inversion");
        assert(s@ =~= inversion_text(i as int));
        s
    } else if i == 2 {
        let s = String::from_str(", 2nd Inversion");
        assert(s@ =~= inversion_text(i as int));
        s
    } else if i == 3 {
        let s = String::from_str(", 3rd Inversion");
        assert(s@ =~= inversion_text(i as int));
        s
    } else {
        let mut s = String::from_str(", ");
        let d = decimal_string(i);
        s.append(d.as_str());
        s.append("th Inversion");
        assert(s@ =~= inversion_text(i as int));
        s
    }
}

impl Chord {
    /// The text of the chord, such as "C Major Seventh, 1st Inversion".
    pub fn to_string(&self) -> (r: String)
        ensures
            r@ == chord_text(*self),
    {
        proof {
            reveal_strlit(" ");
        }
        let mut s = self.root.to_string();
        s.append(" ");
        s.append(self.quality.name());
        s.append(" ");
        s.append(self.number.name());
        let suffix = inversion_string(self.inversion);
        s.append(suffix.as_str());
        assert(s@ =~= chord_text(*self));
        s
    }
}

impl Default for Chord {
    fn default() -> (r: Self)
        ensures
            r.root == (Pitch { letter: NoteLetter::C, accidental: 0 }),
            r.octave == 4,
            r.intervals@.len() == 0,
            r.quality == Quality::Major,
            r.number == Number::Triad,
            r.inversion == 0,
    {
        Chord {
            root: Pitch { letter: NoteLetter::C, accidental: 0 },
            octave: 4,
            intervals: Vec::new(),
            quality: Quality::Major,
            number: Number::Triad,
            inversion: 0,
        }
    }
}

impl crate::note::Notes for Chord {
    open spec fn notes_ready(&self) -> bool {
        self.wf()
    }

    open spec fn notes_view(&self) -> Seq<Note> {
        chord_notes(*self)
    }

    fn notes(&self) -> (r: Vec<Note>) {
        Chord::notes(self)
    }
}

} // verus!
