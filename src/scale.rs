//! Scales: scale types, modes and directions.
use crate::interval::{interval_of, prefix_total, suffix_total, shifted_note, shifted_octave, Interval};
use crate::key_signature::{spelling_of, KeySignature};
use crate::note::{semitone, symbol_pitch, NoteLetter, Note, Pitch};
use crate::text::{chars_of, leading_pitch, leading_pitch_of, mode_rule, recognize_mode, slice_of, trim, trimmed};
use vstd::prelude::*;

verus! {

/// The direction of a scale; up or down.
#[derive(Debug, Clone, Copy, PartialEq, Eq, Structural)]
pub enum Direction {
    Ascending,
    Descending,
}

/// The mode of a scale.
#[derive(Debug, Clone, Copy, PartialEq, Eq, Structural)]
pub enum Mode {
    /// Also known as a major scale.
    Ionian,
    Dorian,
    Phrygian,
    Lydian,
    Mixolydian,
    /// Also known as a natural minor scale.
    Aeolian,
    Locrian,
    HarmonicMinor,
    MelodicMinor,
    PentatonicMajor,
    PentatonicMinor,
    Blues,
    Chromatic,
    WholeTone,
}

/// An accidental that raises or lowers a scale degree by a semitone.
#[derive(Debug, Clone, Copy, PartialEq, Eq, Structural)]
pub enum Accidental {
    Sharp,
    Flat,
}

/// The type of a scale.
#[derive(Debug, Clone, Copy, PartialEq, Eq, Structural)]
pub enum ScaleType {
    Diatonic,
    MelodicMinor,
    HarmonicMinor,
    PentatonicMajor,
    PentatonicMinor,
    Blues,
    Chromatic,
    WholeTone,
}

/// An error while building or parsing a scale.
#[derive(Debug, Clone, Copy, PartialEq, Eq, Structural)]
pub enum ScaleError {
    InvalidInterval,
    ModeFromRegex,
    InvalidRegex,
}

/// The scale type that a mode implies.
pub open spec fn type_of_mode(mode: Mode) -> ScaleType {
    match mode {
        Mode::HarmonicMinor => ScaleType::HarmonicMinor,
        Mode::MelodicMinor => ScaleType::MelodicMinor,
        Mode::PentatonicMajor => ScaleType::PentatonicMajor,
        Mode::PentatonicMinor => ScaleType::PentatonicMinor,
        Mode::Blues => ScaleType::Blues,
        Mode::Chromatic => ScaleType::Chromatic,
        Mode::WholeTone => ScaleType::WholeTone,
        _ => ScaleType::Diatonic,
    }
}

/// The steps, in semitones, of a scale type before any mode is applied.
pub open spec fn scale_steps(t: ScaleType) -> Seq<u8> {
    match t {
        ScaleType::Diatonic => seq![2u8, 2, 1, 2, 2, 2, 1],
        ScaleType::HarmonicMinor => seq![2u8, 1, 2, 2, 1, 3, 1],
        ScaleType::MelodicMinor => seq![2u8, 1, 2, 2, 2, 2, 1],
        ScaleType::PentatonicMajor => seq![2u8, 2, 3, 2, 3],
        ScaleType::PentatonicMinor => seq![3u8, 2, 2, 3, 2],
        ScaleType::Blues => seq![3u8, 2, 1, 1, 3, 2],
        ScaleType::Chromatic => seq![1u8, 1, 1, 1, 1, 1, 1, 1, 1, 1, 1, 1],
        ScaleType::WholeTone => seq![2u8, 2, 2, 2, 2, 2],
    }
}

/// How far left a mode rotates the steps of a scale of `len` steps.
pub open spec fn mode_shift(mode: Option<Mode>, len: int) -> int {
    match mode {
        Some(Mode::Dorian) => 1,
        Some(Mode::Phrygian) => 2,
        Some(Mode::Lydian) => 3,
        Some(Mode::Mixolydian) => 4,
        Some(Mode::Aeolian) => len - 2,
        Some(Mode::Locrian) => len - 1,
        _ => 0,
    }
}

/// The steps rotated left by `k`.
pub open spec fn rotate_steps(s: Seq<u8>, k: int) -> Seq<u8> {
    s.subrange(k, s.len() as int) + s.subrange(0, k)
}

/// The intervals of a scale of this type in this mode.
pub open spec fn scale_interval_seq(t: ScaleType, mode: Option<Mode>) -> Seq<Interval> {
    let s = scale_steps(t);
    rotate_steps(s, mode_shift(mode, s.len() as int)).map_values(|x: u8| interval_of(x as int))
}

/// The sum of a list of steps.
pub open spec fn step_sum(s: Seq<u8>) -> int
    decreases s.len(),
{
    if s.len() == 0 {
        0
    } else {
        step_sum(s.drop_last()) + s.last()
    }
}

pub proof fn lemma_step_sum_append(a: Seq<u8>, b: Seq<u8>)
    ensures
        step_sum(a + b) == step_sum(a) + step_sum(b),
    decreases b.len(),
{
    if b.len() > 0 {
        assert((a + b).drop_last() =~= a + b.drop_last());
        lemma_step_sum_append(a, b.drop_last());
    } else {
        assert(a + b =~= a);
    }
}

pub proof fn lemma_prefix_total_steps(s: Seq<u8>, k: int)
    requires
        0 <= k <= s.len(),
    ensures
        prefix_total(s.map_values(|x: u8| interval_of(x as int)), k) == step_sum(s.subrange(0, k)),
    decreases k,
{
    if k > 0 {
        lemma_prefix_total_steps(s, k - 1);
        assert(s.subrange(0, k).drop_last() =~= s.subrange(0, k - 1));
        assert(interval_of(s[k - 1] as int).semitone_count == s[k - 1]) by {
            assert(s[k - 1] <= 255);
        }
    }
}

#[verifier::spinoff_prover]
pub proof fn lemma_scale_steps_facts(t: ScaleType)
    ensures
        step_sum(scale_steps(t)) == 12,
        5 <= scale_steps(t).len() <= 12,
        forall|j: int| 0 <= j < scale_steps(t).len() ==> 1 <= #[trigger] scale_steps(t)[j] <= 3,
{
    reveal_with_fuel(step_sum, 13);
    match t {
        ScaleType::Diatonic => assert(step_sum(scale_steps(t)) == 12),
        ScaleType::HarmonicMinor => assert(step_sum(scale_steps(t)) == 12),
        ScaleType::MelodicMinor => assert(step_sum(scale_steps(t)) == 12),
        ScaleType::PentatonicMajor => assert(step_sum(scale_steps(t)) == 12),
        ScaleType::PentatonicMinor => assert(step_sum(scale_steps(t)) == 12),
        ScaleType::Blues => assert(step_sum(scale_steps(t)) == 12),
        ScaleType::Chromatic => assert(step_sum(scale_steps(t)) == 12),
        ScaleType::WholeTone => assert(step_sum(scale_steps(t)) == 12),
    }
}

/// Every scale spans exactly one octave.
pub proof fn lemma_scale_spans_octave(t: ScaleType, mode: Option<Mode>)
    ensures
        prefix_total(scale_interval_seq(t, mode), scale_interval_seq(t, mode).len() as int) == 12,
        forall|i: int| 0 <= i < scale_interval_seq(t, mode).len() ==> #[trigger] scale_interval_seq(t, mode)[i].semitone_count <= 3,
{
    let s = scale_steps(t);
    let k = mode_shift(mode, s.len() as int);
    let r = rotate_steps(s, k);
    lemma_scale_steps_facts(t);
    lemma_step_sum_append(s.subrange(k, s.len() as int), s.subrange(0, k));
    lemma_step_sum_append(s.subrange(0, k), s.subrange(k, s.len() as int));
    assert(s.subrange(0, k) + s.subrange(k, s.len() as int) =~= s);
    lemma_prefix_total_steps(r, r.len() as int);
    assert(r.subrange(0, r.len() as int) =~= r);
    assert forall|i: int| 0 <= i < r.len() implies #[trigger] r[i] <= 3 by {
        if i < s.len() - k {
            assert(r[i] == s[i + k]);
        } else {
            assert(r[i] == s[i - (s.len() - k)]);
        }
    }
}

/// A scale.
#[derive(Debug, Clone)]
pub struct Scale {
    /// The root note of the scale.
    pub tonic: Pitch,
    /// The octave of the root note of the scale.
    pub octave: u8,
    /// The type of scale.
    pub scale_type: ScaleType,
    /// The mode of the scale.
    pub mode: Option<Mode>,
    /// The list of intervals in the scale.
    pub intervals: Vec<Interval>,
    /// The direction of the scale, ascending or descending.
    pub direction: Direction,
}

/// The note `t` semitones from the tonic, spelled in the scale's key.
pub open spec fn scale_note(sc: Scale, t: int) -> Note {
    let n = shifted_note(Note { pitch: sc.tonic, octave: sc.octave }, t);
    Note {
        pitch: symbol_pitch(spelling_of(KeySignature { tonic: sc.tonic, mode: sc.mode }, semitone(n.pitch))),
        octave: n.octave,
    }
}

/// The notes of a scale: up from the tonic by each interval in order, or down from it by
/// each interval in reverse order.
pub open spec fn scale_notes(sc: Scale) -> Seq<Note> {
    Seq::new(
        sc.intervals@.len() + 1,
        |k: int|
            if sc.direction == Direction::Ascending {
                scale_note(sc, prefix_total(sc.intervals@, k))
            } else {
                scale_note(sc, -suffix_total(sc.intervals@, k))
            },
    )
}

impl Scale {
    /// A scale whose notes fit the octave range: every note stays within octaves 0 to 255.
    pub open spec fn wf(&self) -> bool {
        let root = Note { pitch: self.tonic, octave: self.octave };
        let n = self.intervals@.len() as int;
        if self.direction == Direction::Ascending {
            shifted_octave(root, prefix_total(self.intervals@, n)) <= 255
        } else {
            shifted_octave(root, -suffix_total(self.intervals@, n)) >= 0
        }
    }
}

impl Mode {
    /// Whether the mode is diatonic: every mode but harmonic and melodic minor.
    pub fn is_diatonic(self) -> (r: bool)
        ensures
            r == !(self == Mode::HarmonicMinor || self == Mode::MelodicMinor),
    {
        !matches!(self, Mode::HarmonicMinor | Mode::MelodicMinor)
    }

    /// Parse a mode from text, trying the recognizers in order.
    pub fn from_regex(string: &str) -> (r: Result<Self, ScaleError>)
        ensures
            match mode_rule(trimmed(string@)) {
                Some(m) => r == Ok::<Mode, ScaleError>(m),
                None => r == Err::<Mode, ScaleError>(ScaleError::ModeFromRegex),
            },
    {
        let t = trim(&chars_of(string));
        match recognize_mode(&t) {
            Some(m) => Ok(m),
            None => Err(ScaleError::ModeFromRegex),
        }
    }
}

impl ScaleType {
    /// The scale type that a mode implies.
    pub fn from_mode(mode: Mode) -> (r: Self)
        ensures
            r == type_of_mode(mode),
    {
        match mode {
            Mode::HarmonicMinor => ScaleType::HarmonicMinor,
            Mode::MelodicMinor => ScaleType::MelodicMinor,
            Mode::PentatonicMajor => ScaleType::PentatonicMajor,
            Mode::PentatonicMinor => ScaleType::PentatonicMinor,
            Mode::Blues => ScaleType::Blues,
            Mode::Chromatic => ScaleType::Chromatic,
            Mode::WholeTone => ScaleType::WholeTone,
            _ => ScaleType::Diatonic,
        }
    }
}

impl From<Mode> for ScaleType {
    fn from(mode: Mode) -> (r: Self)
        ensures
            r == type_of_mode(mode),
    {
        Self::from_mode(mode)
    }
}

impl vstd::std_specs::convert::FromSpecImpl<Mode> for ScaleType {
    open spec fn obeys_from_spec() -> bool {
        true
    }

    open spec fn from_spec(mode: Mode) -> ScaleType {
        type_of_mode(mode)
    }
}

fn scale_steps_vec(t: ScaleType) -> (r: Vec<u8>)
    ensures
        r@ == scale_steps(t),
{
    let r = match t {
        ScaleType::Diatonic => vec![2u8, 2, 1, 2, 2, 2, 1],
        ScaleType::HarmonicMinor => vec![2u8, 1, 2, 2, 1, 3, 1],
        ScaleType::MelodicMinor => vec![2u8, 1, 2, 2, 2, 2, 1],
        ScaleType::PentatonicMajor => vec![2u8, 2, 3, 2, 3],
        ScaleType::PentatonicMinor => vec![3u8, 2, 2, 3, 2],
        ScaleType::Blues => vec![3u8, 2, 1, 1, 3, 2],
        ScaleType::Chromatic => vec![1u8, 1, 1, 1, 1, 1, 1, 1, 1, 1, 1, 1],
        ScaleType::WholeTone => vec![2u8, 2, 2, 2, 2, 2],
    };
    assert(r@ =~= scale_steps(t));
    r
}

impl Scale {
    /// Create a new scale: the steps of its type, rotated by its mode.
    pub fn new(scale_type: ScaleType, tonic: Pitch, octave: u8, mode: Option<Mode>, direction: Direction) -> (r: Result<Self, ScaleError>)
        ensures
            r matches Ok(sc) && sc.tonic == tonic && sc.octave == octave && sc.scale_type == scale_type
                && sc.mode == mode && sc.direction == direction
                && sc.intervals@ == scale_interval_seq(scale_type, mode)
                && prefix_total(sc.intervals@, sc.intervals@.len() as int) == 12,
    {
        let steps = scale_steps_vec(scale_type);
        let len = steps.len();
        proof {
            lemma_scale_steps_facts(scale_type);
            lemma_scale_spans_octave(scale_type, mode);
        }
        let shift: usize = match mode {
            Some(Mode::Dorian) => 1,
            Some(Mode::Phrygian) => 2,
            Some(Mode::Lydian) => 3,
            Some(Mode::Mixolydian) => 4,
            Some(Mode::Aeolian) => len - 2,
            Some(Mode::Locrian) => len - 1,
            _ => 0,
        };
        let ghost rot = rotate_steps(steps@, shift as int);
        let mut intervals: Vec<Interval> = Vec::new();
        let mut k: usize = 0;
        while k < len
            invariant
                len == steps@.len(),
                steps@ == scale_steps(scale_type),
                5 <= len <= 12,
                shift < len,
                shift == mode_shift(mode, len as int),
                forall|j: int| 0 <= j < len ==> 1 <= #[trigger] steps@[j] <= 3,
                rot == rotate_steps(steps@, shift as int),
                k <= len,
                intervals@.len() == k,
                forall|j: int| 0 <= j < k ==> #[trigger] intervals@[j] == interval_of(rot[j] as int),
            decreases len - k,
        {
            let idx = (k + shift) % len;
            proof {
                if k < len - shift {
                    assert(rot[k as int] == steps@[k + shift]);
                    vstd::arithmetic::div_mod::lemma_small_mod((k + shift) as nat, len as nat);
                    assert(idx == k + shift);
                } else {
                    assert(rot[k as int] == steps@[k + shift - len]);
                    vstd::arithmetic::div_mod::lemma_fundamental_div_mod_converse((k + shift) as int, len as int, 1, (k + shift - len) as int);
                    assert(idx == k + shift - len);
                }
            }
            match Interval::from_semitone(steps[idx]) {
                Ok(i) => intervals.push(i),
                Err(_) => {
                    return Err(ScaleError::InvalidInterval);
                },
            }
            k = k + 1;
        }
        assert(intervals@ =~= scale_interval_seq(scale_type, mode));
        Ok(Scale { tonic, octave, scale_type, mode, intervals, direction })
    }

    /// The intervals from the tonic to each note of the scale below its octave.
    pub fn absolute_intervals(&self) -> (r: Vec<Interval>)
        requires
            forall|k: int| 0 <= k < self.intervals@.len() ==> #[trigger] prefix_total(self.intervals@, k) <= 12,
        ensures
            r@.len() == self.intervals@.len(),
            forall|k: int| 0 <= k < r@.len() ==> #[trigger] r@[k] == interval_of(prefix_total(self.intervals@, k)),
    {
        let mut r: Vec<Interval> = Vec::new();
        let mut sum: u16 = 0;
        let mut k: usize = 0;
        while k < self.intervals.len()
            invariant
                k <= self.intervals@.len(),
                sum as int == prefix_total(self.intervals@, k as int),
                forall|j: int| 0 <= j < self.intervals@.len() ==> #[trigger] prefix_total(self.intervals@, j) <= 12,
                r@.len() == k,
                forall|j: int| 0 <= j < k ==> #[trigger] r@[j] == interval_of(prefix_total(self.intervals@, j)),
            decreases self.intervals@.len() - k,
        {
            assert(prefix_total(self.intervals@, k as int) <= 12);
            match Interval::from_semitone(sum as u8) {
                Ok(i) => r.push(i),
                Err(_) => {
                    assert(false);
                },
            }
            sum = sum + self.intervals[k].semitone_count as u16;
            k = k + 1;
        }
        r
    }

    /// The notes of the scale, each spelled in the scale's key.
    pub fn notes(&self) -> (r: Vec<Note>)
        requires
            self.wf(),
        ensures
            r@ == scale_notes(*self),
    {
        let root = Note { pitch: self.tonic, octave: self.octave };
        let generated = match self.direction {
            Direction::Ascending => crate::interval::Interval::to_notes(root, self.intervals.as_slice()),
            Direction::Descending => crate::interval::Interval::to_notes_reverse(root, self.intervals.as_slice()),
        };
        let ks = KeySignature::new_with_mode(self.tonic, self.mode);
        let len = generated.len();
        proof {
            assert forall|j: int| 0 <= j < len implies #[trigger] semitone(generated@[j].pitch) == semitone(
                (if self.direction == Direction::Ascending {
                    shifted_note(root, prefix_total(self.intervals@, j))
                } else {
                    shifted_note(root, -suffix_total(self.intervals@, j))
                }).pitch,
            ) by {
                let t = if self.direction == Direction::Ascending {
                    prefix_total(self.intervals@, j)
                } else {
                    -suffix_total(self.intervals@, j)
                };
                crate::note::lemma_sharp_pitch_semitone((semitone(self.tonic) + t) % 12);
            }
            assert forall|j: int| 0 <= j < len implies #[trigger] generated@[j].octave == (if self.direction
                == Direction::Ascending {
                shifted_note(root, prefix_total(self.intervals@, j))
            } else {
                shifted_note(root, -suffix_total(self.intervals@, j))
            }).octave by {
                if self.direction == Direction::Ascending {
                    assert(semitone(generated@[j].pitch) == (semitone(root.pitch) + prefix_total(
                        self.intervals@,
                        j,
                    )) % 12);
                } else {
                    assert(semitone(generated@[j].pitch) == (semitone(root.pitch) - suffix_total(
                        self.intervals@,
                        j,
                    )) % 12);
                }
            }
        }
        let mut notes: Vec<Note> = Vec::new();
        let mut k: usize = 0;
        while k < len
            invariant
                len == generated@.len(),
                len == self.intervals@.len() + 1,
                ks == (KeySignature { tonic: self.tonic, mode: self.mode }),
                root == (Note { pitch: self.tonic, octave: self.octave }),
                forall|j: int|
                    0 <= j < len ==> #[trigger] semitone(generated@[j].pitch) == semitone(
                        (if self.direction == Direction::Ascending {
                            shifted_note(root, prefix_total(self.intervals@, j))
                        } else {
                            shifted_note(root, -suffix_total(self.intervals@, j))
                        }).pitch,
                    ),
                forall|j: int|
                    0 <= j < len ==> #[trigger] generated@[j].octave == (if self.direction
                        == Direction::Ascending {
                        shifted_note(root, prefix_total(self.intervals@, j))
                    } else {
                        shifted_note(root, -suffix_total(self.intervals@, j))
                    }).octave,
                k <= len,
                notes@.len() == k,
                forall|j: int| 0 <= j < k ==> #[trigger] notes@[j] == scale_notes(*self)[j],
            decreases len - k,
        {
            let g = generated[k];
            let sym = ks.get_preferred_spelling(g.pitch);
            notes.push(Note { pitch: sym.to_pitch(), octave: g.octave });
            k = k + 1;
        }
        assert(notes@ =~= scale_notes(*self));
        notes
    }
}

/// The tonic and mode that a scale's text names: a pitch, then a mode.
pub open spec fn scale_reading(t: Seq<char>) -> Result<(Pitch, Mode), ScaleError> {
    let tt = trimmed(t);
    match leading_pitch(tt) {
        None => Err(ScaleError::InvalidRegex),
        Some(pe) => match mode_rule(trimmed(tt.subrange(pe.1, tt.len() as int))) {
            Some(m) => Ok((pe.0, m)),
            None => Err(ScaleError::ModeFromRegex),
        },
    }
}

impl Scale {
    /// Parse a scale from text, in the given direction, in octave 4.
    pub fn from_regex_in_direction(string: &str, direction: Direction) -> (r: Result<Self, ScaleError>)
        ensures
            match scale_reading(string@) {
                Ok(pm) => r matches Ok(sc) && sc.tonic == pm.0 && sc.mode == Some(pm.1)
                    && sc.scale_type == type_of_mode(pm.1) && sc.octave == 4 && sc.direction == direction
                    && sc.intervals@ == scale_interval_seq(type_of_mode(pm.1), Some(pm.1))
                    && prefix_total(sc.intervals@, sc.intervals@.len() as int) == 12,
                Err(e) => r == Err::<Scale, ScaleError>(e),
            },
    {
        let t = trim(&chars_of(string));
        let (tonic, end) = match leading_pitch_of(&t) {
            Some(pe) => pe,
            None => {
                return Err(ScaleError::InvalidRegex);
            },
        };
        assert(leading_pitch(t@) == Some((tonic, end as int)));
        let rest = trim(&slice_of(&t, end, t.len()));
        let mode = match recognize_mode(&rest) {
            Some(m) => m,
            None => {
                return Err(ScaleError::ModeFromRegex);
            },
        };
        let scale_type = ScaleType::from_mode(mode);
        Scale::new(scale_type, tonic, 4, Some(mode), direction)
    }

    /// Parse an ascending scale from text.
    pub fn from_regex(string: &str) -> (r: Result<Self, ScaleError>)
        ensures
            match scale_reading(string@) {
                Ok(pm) => r matches Ok(sc) && sc.tonic == pm.0 && sc.mode == Some(pm.1)
                    && sc.scale_type == type_of_mode(pm.1) && sc.octave == 4
                    && sc.direction == Direction::Ascending
                    && sc.intervals@ == scale_interval_seq(type_of_mode(pm.1), Some(pm.1))
                    && prefix_total(sc.intervals@, sc.intervals@.len() as int) == 12,
                Err(e) => r == Err::<Scale, ScaleError>(e),
            },
    {
        Self::from_regex_in_direction(string, Direction::Ascending)
    }
}

impl Default for Scale {
    fn default() -> (r: Self)
        ensures
            r.tonic == (Pitch { letter: NoteLetter::C, accidental: 0 }),
            r.octave == 0,
            r.scale_type == ScaleType::Diatonic,
            r.mode == Some(Mode::Ionian),
            r.intervals@.len() == 0,
            r.direction == Direction::Ascending,
    {
        Scale {
            tonic: Pitch { letter: NoteLetter::C, accidental: 0 },
            octave: 0,
            scale_type: ScaleType::Diatonic,
            mode: Some(Mode::Ionian),
            intervals: Vec::new(),
            direction: Direction::Ascending,
        }
    }
}

/// The semitone count of interval `i` after degree `degree` (1 for the tonic) is raised
/// or lowered: the interval that leads to the degree grows or shrinks by one, and the
/// one that leaves it does the opposite.
pub open spec fn altered_count(ivs: Seq<Interval>, accidental: Accidental, degree: int, i: int) -> int {
    let up = if accidental == Accidental::Sharp { 1int } else { -1int };
    if i == degree - 2 {
        ivs[i].semitone_count + up
    } else if i == degree - 1 {
        ivs[i].semitone_count - up
    } else {
        ivs[i].semitone_count as int
    }
}

/// Whether a degree can be altered: it has an interval on each side, and both stay
/// within an octave.
pub open spec fn alteration_fits(ivs: Seq<Interval>, accidental: Accidental, degree: int) -> bool {
    &&& 2 <= degree <= ivs.len()
    &&& 0 <= altered_count(ivs, accidental, degree, degree - 2) <= 12
    &&& 0 <= altered_count(ivs, accidental, degree, degree - 1) <= 12
}

/// The intervals after one degree is raised or lowered.
pub open spec fn altered_intervals(ivs: Seq<Interval>, accidental: Accidental, degree: int) -> Seq<Interval> {
    Seq::new(
        ivs.len(),
        |i: int|
            if i == degree - 2 || i == degree - 1 {
                interval_of(altered_count(ivs, accidental, degree, i))
            } else {
                ivs[i]
            },
    )
}

/// The intervals after each alteration of the list in turn, if every one fits.
pub open spec fn apply_alterations(ivs: Seq<Interval>, alts: Seq<(Accidental, u8)>) -> Option<Seq<Interval>>
    decreases alts.len(),
{
    if alts.len() == 0 {
        Some(ivs)
    } else {
        match apply_alterations(ivs, alts.drop_last()) {
            None => None,
            Some(cur) => if alteration_fits(cur, alts.last().0, alts.last().1 as int) {
                Some(altered_intervals(cur, alts.last().0, alts.last().1 as int))
            } else {
                None
            },
        }
    }
}

impl Scale {
    /// The scale with one degree (1 for the tonic) raised or lowered by a semitone. Fails
    /// when the degree has no interval on one side or an altered interval leaves 0 to 12
    /// semitones.
    pub fn alter_degree(&self, accidental: Accidental, degree: u8) -> (r: Result<Scale, ScaleError>)
        ensures
            alteration_fits(self.intervals@, accidental, degree as int) ==> (r matches Ok(sc)
                && sc.tonic == self.tonic && sc.octave == self.octave && sc.scale_type == self.scale_type
                && sc.mode == self.mode && sc.direction == self.direction
                && sc.intervals@ == altered_intervals(self.intervals@, accidental, degree as int)),
            !alteration_fits(self.intervals@, accidental, degree as int) ==> r == Err::<Scale, ScaleError>(ScaleError::InvalidInterval),
    {
        let n = self.intervals.len();
        if degree < 2 || degree as usize > n {
            return Err(ScaleError::InvalidInterval);
        }
        let before = (degree - 2) as usize;
        let after = (degree - 1) as usize;
        let b = self.intervals[before].semitone_count as i16;
        let a = self.intervals[after].semitone_count as i16;
        let (nb, na): (i16, i16) = match accidental {
            Accidental::Sharp => (b + 1, a - 1),
            Accidental::Flat => (b - 1, a + 1),
        };
        if nb < 0 || nb > 12 || na < 0 || na > 12 {
            return Err(ScaleError::InvalidInterval);
        }
        let ib = match Interval::from_semitone(nb as u8) {
            Ok(i) => i,
            Err(_) => {
                return Err(ScaleError::InvalidInterval);
            },
        };
        let ia = match Interval::from_semitone(na as u8) {
            Ok(i) => i,
            Err(_) => {
                return Err(ScaleError::InvalidInterval);
            },
        };
        let mut intervals: Vec<Interval> = Vec::new();
        let mut k: usize = 0;
        while k < n
            invariant
                n == self.intervals@.len(),
                before + 1 == after,
                after < n,
                after as int == degree - 1,
                ib == interval_of(altered_count(self.intervals@, accidental, degree as int, before as int)),
                ia == interval_of(altered_count(self.intervals@, accidental, degree as int, after as int)),
                k <= n,
                intervals@.len() == k,
                forall|i: int| 0 <= i < k ==> #[trigger] intervals@[i] == (
                    if i == degree - 2 || i == degree - 1 {
                        interval_of(altered_count(self.intervals@, accidental, degree as int, i))
                    } else {
                        self.intervals@[i]
                    }),
            decreases n - k,
        {
            if k == before {
                intervals.push(ib);
            } else if k == after {
                intervals.push(ia);
            } else {
                intervals.push(self.intervals[k]);
            }
            k = k + 1;
        }
        assert(intervals@ =~= altered_intervals(self.intervals@, accidental, degree as int));
        Ok(Scale {
            tonic: self.tonic,
            octave: self.octave,
            scale_type: self.scale_type,
            mode: self.mode,
            intervals,
            direction: self.direction,
        })
    }

    /// The scale with each degree of the list raised or lowered in turn.
    pub fn with_accidentals(&self, alterations: &[(Accidental, u8)]) -> (r: Result<Scale, ScaleError>)
        ensures
            match apply_alterations(self.intervals@, alterations@) {
                Some(ivs) => r matches Ok(sc) && sc.tonic == self.tonic && sc.octave == self.octave
                    && sc.mode == self.mode && sc.scale_type == self.scale_type
                    && sc.direction == self.direction && sc.intervals@ == ivs,
                None => r == Err::<Scale, ScaleError>(ScaleError::InvalidInterval),
            },
    {
        let mut current = Scale {
            tonic: self.tonic,
            octave: self.octave,
            scale_type: self.scale_type,
            mode: self.mode,
            intervals: crate::scale::copy_intervals(&self.intervals),
            direction: self.direction,
        };
        let mut k: usize = 0;
        assert(alterations@.subrange(0, 0) =~= Seq::<(Accidental, u8)>::empty());
        while k < alterations.len()
            invariant
                k <= alterations@.len(),
                current.tonic == self.tonic,
                current.octave == self.octave,
                current.mode == self.mode,
                current.scale_type == self.scale_type,
                current.direction == self.direction,
                apply_alterations(self.intervals@, alterations@.subrange(0, k as int)) == Some(current.intervals@),
            decreases alterations@.len() - k,
        {
            let (accidental, degree) = alterations[k];
            assert(alterations@.subrange(0, k + 1).drop_last() =~= alterations@.subrange(0, k as int));
            match current.alter_degree(accidental, degree) {
                Ok(next) => {
                    current = next;
                },
                Err(e) => {
                    proof {
                        lemma_alterations_fail(self.intervals@, alterations@, k as int + 1);
                    }
                    return Err(e);
                },
            }
            k = k + 1;
        }
        assert(alterations@.subrange(0, alterations@.len() as int) =~= alterations@);
        Ok(current)
    }
}

/// Once an alteration does not fit, the whole list fails.
pub proof fn lemma_alterations_fail(ivs: Seq<Interval>, alts: Seq<(Accidental, u8)>, k: int)
    requires
        0 <= k <= alts.len(),
        apply_alterations(ivs, alts.subrange(0, k)) is None,
    ensures
        apply_alterations(ivs, alts) is None,
    decreases alts.len() - k,
{
    if k < alts.len() {
        assert(alts.subrange(0, k + 1).drop_last() =~= alts.subrange(0, k));
        lemma_alterations_fail(ivs, alts, k + 1);
    } else {
        assert(alts.subrange(0, k) =~= alts);
    }
}

/// A copy of a list of intervals.
fn copy_intervals(v: &Vec<Interval>) -> (r: Vec<Interval>)
    ensures
        r@ == v@,
{
    let mut r: Vec<Interval> = Vec::new();
    let mut k: usize = 0;
    while k < v.len()
        invariant
            k <= v@.len(),
            r@ == v@.subrange(0, k as int),
        decreases v@.len() - k,
    {
        r.push(v[k]);
        k = k + 1;
        assert(r@ =~= v@.subrange(0, k as int));
    }
    assert(r@ =~= v@);
    r
}

impl crate::note::Notes for Scale {
    open spec fn notes_ready(&self) -> bool {
        self.wf()
    }

    open spec fn notes_view(&self) -> Seq<Note> {
        scale_notes(*self)
    }

    fn notes(&self) -> (r: Vec<Note>) {
        Scale::notes(self)
    }
}

} // verus!
