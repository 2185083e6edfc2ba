//! Intervals between notes.
use crate::note::{semitone, sharp_pitch, Note, Pitch};
use vstd::arithmetic::div_mod::lemma_fundamental_div_mod;
use vstd::arithmetic::div_mod::lemma_fundamental_div_mod_converse;
use vstd::prelude::*;
use vstd::string::StringExecFns;

verus! {

/// The quality of an interval; major, minor, etc.
#[derive(Debug, Clone, Copy, PartialEq, Eq, Structural)]
pub enum Quality {
    /// A perfect interval; unisons, fourths, fifths, and octaves.
    Perfect,
    Major,
    Minor,
    Augmented,
    Diminished,
}

/// The number of an interval.
#[derive(Debug, Clone, Copy, PartialEq, Eq, Structural)]
pub enum Number {
    Unison,
    Second,
    Third,
    Fourth,
    Fifth,
    Sixth,
    Seventh,
    Octave,
}

/// A step between notes.
#[derive(Debug, Clone, Copy, PartialEq, Eq, Structural)]
pub enum Step {
    /// A semitone step.
    Half,
    /// A tone step.
    Whole,
    /// A tritone step.
    Tritone,
}

/// An interval between two notes.
#[derive(Debug, Clone, Copy, PartialEq, Eq, Structural)]
pub struct Interval {
    /// The number of semitones between the notes.
    pub semitone_count: u8,
    /// The quality of the interval.
    pub quality: Quality,
    /// The number of the interval.
    pub number: Number,
    /// The step of the interval.
    pub step: Option<Step>,
}

/// An error caused while creating an interval.
#[derive(Debug, Clone, Copy, PartialEq, Eq, Structural)]
pub enum IntervalError {
    /// The interval is invalid.
    InvalidInterval,
}

/// The interval of `n` semitones, for `0 <= n <= 12`.
pub open spec fn interval_of(n: int) -> Interval {
    let (number, quality, step) = if n == 0 {
        (Number::Unison, Quality::Perfect, None)
    } else if n == 1 {
        (Number::Second, Quality::Minor, Some(Step::Half))
    } else if n == 2 {
        (Number::Second, Quality::Major, Some(Step::Whole))
    } else if n == 3 {
        (Number::Third, Quality::Minor, None)
    } else if n == 4 {
        (Number::Third, Quality::Major, None)
    } else if n == 5 {
        (Number::Fourth, Quality::Perfect, None)
    } else if n == 6 {
        (Number::Fifth, Quality::Diminished, Some(Step::Tritone))
    } else if n == 7 {
        (Number::Fifth, Quality::Perfect, None)
    } else if n == 8 {
        (Number::Sixth, Quality::Minor, None)
    } else if n == 9 {
        (Number::Sixth, Quality::Major, None)
    } else if n == 10 {
        (Number::Seventh, Quality::Minor, None)
    } else if n == 11 {
        (Number::Seventh, Quality::Major, None)
    } else {
        (Number::Octave, Quality::Perfect, None)
    };
    Interval { semitone_count: n as u8, quality, number, step }
}

/// The semitone count of the interval that inverts one of `n` semitones.
pub open spec fn inverted_count(n: int) -> int {
    if n == 12 {
        12
    } else {
        (12 - n) % 12
    }
}

/// The text of an interval: `1` for unisons and octaves, `T` for tritones, else quality and number.
pub open spec fn interval_text(i: Interval) -> Seq<char> {
    if (i.quality == Quality::Diminished && i.number == Number::Fifth) || (i.quality
        == Quality::Augmented && i.number == Number::Fourth) {
        seq!['T']
    } else if i.number == Number::Unison || i.number == Number::Octave {
        seq!['1']
    } else {
        let q = match i.quality {
            Quality::Perfect => 'P',
            Quality::Major => 'M',
            Quality::Minor => 'm',
            Quality::Augmented => 'A',
            Quality::Diminished => 'd',
        };
        let d = match i.number {
            Number::Unison => '1',
            Number::Second => '2',
            Number::Third => '3',
            Number::Fourth => '4',
            Number::Fifth => '5',
            Number::Sixth => '6',
            Number::Seventh => '7',
            Number::Octave => '8',
        };
        seq![q, d]
    }
}

/// The sum of the semitone counts of the first `k` intervals.
pub open spec fn prefix_total(ivs: Seq<Interval>, k: int) -> int
    decreases k,
{
    if k <= 0 {
        0
    } else {
        prefix_total(ivs, k - 1) + ivs[k - 1].semitone_count
    }
}

/// The sum of the semitone counts of the last `k` intervals.
pub open spec fn suffix_total(ivs: Seq<Interval>, k: int) -> int
    decreases k,
{
    if k <= 0 {
        0
    } else {
        suffix_total(ivs, k - 1) + ivs[ivs.len() - k].semitone_count
    }
}

/// The note `t` semitones from `root` (above for positive `t`, below for negative),
/// spelled with sharps; its octave counts the wraps past B to C.
pub open spec fn shifted_note(root: Note, t: int) -> Note {
    Note {
        pitch: sharp_pitch((semitone(root.pitch) + t) % 12),
        octave: (root.octave + (semitone(root.pitch) + t) / 12) as u8,
    }
}

/// The note one step of `t` semitones from `prev`: a step that returns to the same pitch
/// class (a unison or an octave) keeps the spelling of `prev`; any other step lands on
/// the sharp spelling of the new pitch class. The octave counts the wraps past B to C.
#[verifier::opaque]
pub open spec fn stepped_note(prev: Note, t: int) -> Note {
    if t % 12 == 0 {
        Note { pitch: prev.pitch, octave: shifted_note(prev, t).octave }
    } else {
        shifted_note(prev, t)
    }
}

/// A whole number of octaves leaves a pitch class where it is.
pub proof fn lemma_octaves_keep_class(a: int, c: int)
    requires
        c % 12 == 0,
    ensures
        (a + c) % 12 == a % 12,
{
    lemma_fundamental_div_mod(c, 12);
    vstd::arithmetic::div_mod::lemma_mod_multiples_vanish(c / 12, a, 12);
}

/// The semitones above C that a pitch's letter and accidental add up to, before wrapping.
pub open spec fn letter_base_total(p: Pitch) -> int {
    crate::note::letter_base(p.letter) + p.accidental as int
}

/// One step from a note at offset `p` from `root` lands at offset `p + c`: on its pitch
/// class and in its octave.
pub proof fn lemma_step(root: Note, prev: Note, p: int, c: int)
    requires
        semitone(prev.pitch) == (semitone(root.pitch) + p) % 12,
        prev.octave == shifted_octave(root, p),
        0 <= shifted_octave(root, p + c) <= 255,
    ensures
        semitone(stepped_note(prev, c).pitch) == (semitone(root.pitch) + p + c) % 12,
        stepped_note(prev, c).octave == shifted_note(root, p + c).octave,
        stepped_note(prev, c).octave as int == shifted_octave(root, p + c),
{
    reveal(stepped_note);
    let a = semitone(root.pitch) + p;
    lemma_shift(a, c);
    crate::note::lemma_sharp_pitch_semitone((a + c) % 12);
    if c % 12 == 0 {
        lemma_octaves_keep_class(a, c);
        vstd::arithmetic::div_mod::lemma_mod_twice(a, 12);
    }
}

/// The octave that `shifted_note` lands in, as an integer.
pub open spec fn shifted_octave(root: Note, t: int) -> int {
    root.octave + (semitone(root.pitch) + t) / 12
}

/// Moving on from a pitch class by `c` semitones accumulates wraps as moving by the total does.
pub proof fn lemma_shift(a: int, c: int)
    ensures
        ((a % 12) + c) % 12 == (a + c) % 12,
        a / 12 + ((a % 12) + c) / 12 == (a + c) / 12,
{
    lemma_fundamental_div_mod(a, 12);
    lemma_fundamental_div_mod((a % 12) + c, 12);
    let q = a / 12 + ((a % 12) + c) / 12;
    let r = ((a % 12) + c) % 12;
    assert(a + c == q * 12 + r) by (nonlinear_arith)
        requires
            a == 12 * (a / 12) + a % 12,
            (a % 12) + c == 12 * (((a % 12) + c) / 12) + ((a % 12) + c) % 12,
            q == a / 12 + ((a % 12) + c) / 12,
            r == ((a % 12) + c) % 12,
    ;
    lemma_fundamental_div_mod_converse(a + c, 12, q, r);
}

pub proof fn lemma_prefix_monotone(ivs: Seq<Interval>, j: int, k: int)
    requires
        0 <= j <= k,
    ensures
        prefix_total(ivs, j) <= prefix_total(ivs, k),
    decreases k - j,
{
    if j < k {
        lemma_prefix_monotone(ivs, j, k - 1);
    }
}

/// The first `n - k` intervals and the last `k` together make up all `n`.
pub proof fn lemma_prefix_suffix_split(ivs: Seq<Interval>, k: int)
    requires
        0 <= k <= ivs.len(),
    ensures
        prefix_total(ivs, ivs.len() - k) + suffix_total(ivs, k) == prefix_total(ivs, ivs.len() as int),
    decreases k,
{
    if k > 0 {
        lemma_prefix_suffix_split(ivs, k - 1);
    }
}

pub proof fn lemma_suffix_monotone(ivs: Seq<Interval>, j: int, k: int)
    requires
        0 <= j <= k,
    ensures
        suffix_total(ivs, j) <= suffix_total(ivs, k),
    decreases k - j,
{
    if j < k {
        lemma_suffix_monotone(ivs, j, k - 1);
    }
}

impl Interval {
    /// Create a new interval.
    pub fn new(semitone_count: u8, quality: Quality, number: Number, step: Option<Step>) -> (r:
        Self)
        ensures
            r == (Interval { semitone_count, quality, number, step }),
    {
        Interval { semitone_count, quality, number, step }
    }

    /// Create an interval based on the number of semitones from the root.
    pub fn from_semitone(sc: u8) -> (r: Result<Self, IntervalError>)
        ensures
            sc <= 12 ==> r == Ok::<Interval, IntervalError>(interval_of(sc as int)),
            sc > 12 ==> r == Err::<Interval, IntervalError>(IntervalError::InvalidInterval),
    {
        let (number, quality, step) = if sc == 0 {
            (Number::Unison, Quality::Perfect, None)
        } else if sc == 1 {
            (Number::Second, Quality::Minor, Some(Step::Half))
        } else if sc == 2 {
            (Number::Second, Quality::Major, Some(Step::Whole))
        } else if sc == 3 {
            (Number::Third, Quality::Minor, None)
        } else if sc == 4 {
            (Number::Third, Quality::Major, None)
        } else if sc == 5 {
            (Number::Fourth, Quality::Perfect, None)
        } else if sc == 6 {
            (Number::Fifth, Quality::Diminished, Some(Step::Tritone))
        } else if sc == 7 {
            (Number::Fifth, Quality::Perfect, None)
        } else if sc == 8 {
            (Number::Sixth, Quality::Minor, None)
        } else if sc == 9 {
            (Number::Sixth, Quality::Major, None)
        } else if sc == 10 {
            (Number::Seventh, Quality::Minor, None)
        } else if sc == 11 {
            (Number::Seventh, Quality::Major, None)
        } else if sc == 12 {
            (Number::Octave, Quality::Perfect, None)
        } else {
            return Err(IntervalError::InvalidInterval);
        };
        Ok(Interval { semitone_count: sc, quality, number, step })
    }

    /// Creates one interval for each semitone count, in order.
    /// Fails on an empty list or on a count greater than 12.
    pub fn from_semitones(semi_tones: &[u8]) -> (r: Result<Vec<Self>, IntervalError>)
        ensures
            (semi_tones@.len() > 0 && forall|i: int|
                0 <= i < semi_tones@.len() ==> #[trigger] semi_tones@[i] <= 12) ==> r is Ok,
            r is Ok ==> r->Ok_0@.len() == semi_tones@.len() && forall|i: int|
                0 <= i < semi_tones@.len() ==> r->Ok_0@[i] == interval_of(
                    #[trigger] semi_tones@[i] as int,
                ),
            r is Err ==> r == Err::<Vec<Interval>, IntervalError>(IntervalError::InvalidInterval),
            r is Err ==> semi_tones@.len() == 0 || exists|i: int|
                0 <= i < semi_tones@.len() && #[trigger] semi_tones@[i] > 12,
            semi_tones@.len() == 0 ==> r == Err::<Vec<Interval>, IntervalError>(IntervalError::InvalidInterval),
            (exists|i: int| 0 <= i < semi_tones@.len() && #[trigger] semi_tones@[i] > 12) ==> r
                == Err::<Vec<Interval>, IntervalError>(IntervalError::InvalidInterval),
    {
        if semi_tones.len() == 0 {
            return Err(IntervalError::InvalidInterval);
        }
        let mut intervals: Vec<Interval> = Vec::new();
        let mut k: usize = 0;
        while k < semi_tones.len()
            invariant
                k <= semi_tones@.len(),
                intervals@.len() == k,
                forall|i: int| 0 <= i < k ==> intervals@[i] == interval_of(#[trigger] semi_tones@[i] as int),
                forall|i: int| 0 <= i < k ==> #[trigger] semi_tones@[i] <= 12,
            decreases semi_tones@.len() - k,
        {
            match Self::from_semitone(semi_tones[k]) {
                Ok(interval) => intervals.push(interval),
                Err(e) => {
                    return Err(e);
                },
            }
            k = k + 1;
        }
        Ok(intervals)
    }

    /// Creates the interval that inverts the given one: a perfect fifth becomes a perfect
    /// fourth. Unisons and octaves invert to themselves.
    pub fn invert(interval: &Self) -> (r: Result<Self, IntervalError>)
        ensures
            interval.semitone_count <= 12 ==> r == Ok::<Interval, IntervalError>(
                interval_of(inverted_count(interval.semitone_count as int)),
            ),
            interval.semitone_count > 12 ==> r == Err::<Interval, IntervalError>(
                IntervalError::InvalidInterval,
            ),
    {
        if interval.semitone_count > 12 {
            Err(IntervalError::InvalidInterval)
        } else if interval.semitone_count == 12 {
            Self::from_semitone(12)
        } else {
            Self::from_semitone((12 - interval.semitone_count) % 12)
        }
    }

    /// Move the given note up by this interval.
    pub fn second_note_from(self, first_note: Note) -> (r: Note)
        requires
            shifted_octave(first_note, self.semitone_count as int) <= 255,
        ensures
            r == stepped_note(first_note, self.semitone_count as int),
            self.semitone_count == 12 ==> r.pitch == first_note.pitch && r.octave == first_note.octave + 1,
    {
        proof {
            reveal(stepped_note);
        }
        let pitch = if self.semitone_count % 12 == 0 {
            first_note.pitch
        } else {
            Pitch::from_interval(first_note.pitch, self)
        };
        let total: u16 = first_note.pitch.into_u8() as u16 + self.semitone_count as u16;
        let octave = first_note.octave as u16 + total / 12;
        Note { pitch, octave: octave as u8 }
    }

    /// Move the given note down by this interval.
    pub fn second_note_down_from(self, first_note: Note) -> (r: Note)
        requires
            shifted_octave(first_note, -(self.semitone_count as int)) >= 0,
        ensures
            r == stepped_note(first_note, -(self.semitone_count as int)),
            self.semitone_count == 12 ==> r.pitch == first_note.pitch && r.octave == first_note.octave - 1,
    {
        proof {
            reveal(stepped_note);
        }
        let pitch = if self.semitone_count % 12 == 0 {
            first_note.pitch
        } else {
            Pitch::from_interval_down(first_note.pitch, self)
        };
        let current = first_note.pitch.into_u8();
        let drop: u8 = if current >= self.semitone_count {
            0
        } else {
            (((self.semitone_count - current) as u16 + 11) / 12) as u8
        };
        proof {
            let raw = semitone(first_note.pitch) - self.semitone_count;
            if raw < 0 {
                let d = -raw;
                lemma_fundamental_div_mod(d + 11, 12);
                let m = (d + 11) / 12;
                let t = (d + 11) % 12;
                lemma_fundamental_div_mod_converse(raw, 12, -m, 11 - t);
            }
            assert(raw / 12 == -(drop as int));
        }
        Note { pitch, octave: first_note.octave - drop }
    }

    /// The notes that result from applying each interval in order, starting at `root`.
    #[verifier::spinoff_prover]
    #[verifier::rlimit(60)]
    pub fn to_notes(root: Note, intervals: &[Interval]) -> (r: Vec<Note>)
        requires
            shifted_octave(root, prefix_total(intervals@, intervals@.len() as int)) <= 255,
        ensures
            r@.len() == intervals@.len() + 1,
            r@[0] == root,
            forall|k: int|
                1 <= k < r@.len() ==> r@[k] == #[trigger] stepped_note(
                    r@[k - 1],
                    intervals@[k - 1].semitone_count as int,
                ),
            forall|k: int|
                0 <= k < r@.len() ==> semitone(#[trigger] r@[k].pitch) == (semitone(root.pitch)
                    + prefix_total(intervals@, k)) % 12 && r@[k].octave == shifted_note(
                    root,
                    prefix_total(intervals@, k),
                ).octave,
    {
        let mut notes: Vec<Note> = vec![root];
        proof {
            vstd::arithmetic::div_mod::lemma_mod_twice(letter_base_total(root.pitch), 12);
            assert(prefix_total(intervals@, 0) == 0);
            assert(suffix_total(intervals@, 0) == 0);
            assert(semitone(root.pitch) / 12 == 0);
        }
        let mut k: usize = 0;
        while k < intervals.len()
            invariant
                k <= intervals@.len(),
                notes@.len() == k + 1,
                notes@[0] == root,
                shifted_octave(root, prefix_total(intervals@, intervals@.len() as int)) <= 255,
                forall|j: int|
                    1 <= j < notes@.len() ==> notes@[j] == #[trigger] stepped_note(
                        notes@[j - 1],
                        intervals@[j - 1].semitone_count as int,
                    ),
                forall|j: int|
                    0 <= j < notes@.len() ==> semitone(#[trigger] notes@[j].pitch) == (semitone(root.pitch)
                        + prefix_total(intervals@, j)) % 12 && notes@[j].octave == shifted_note(
                        root,
                        prefix_total(intervals@, j),
                    ).octave,
                notes@[k as int].octave == shifted_octave(root, prefix_total(intervals@, k as int)),
            decreases intervals@.len() - k,
        {
            let last = notes[k];
            let interval = intervals[k];
            proof {
                lemma_prefix_monotone(intervals@, k + 1, intervals@.len() as int);
                vstd::arithmetic::div_mod::lemma_div_is_ordered(
                    semitone(root.pitch) + prefix_total(intervals@, k + 1),
                    semitone(root.pitch) + prefix_total(intervals@, intervals@.len() as int),
                    12,
                );
                lemma_prefix_monotone(intervals@, 0, k + 1);
                vstd::arithmetic::div_mod::lemma_div_is_ordered(0, semitone(root.pitch) + prefix_total(intervals@, k + 1), 12);
                lemma_step(root, last, prefix_total(intervals@, k as int), interval.semitone_count as int);
            }
            let next = interval.second_note_from(last);
            let ghost before = notes@;
            notes.push(next);
            proof {
                assert(notes@ == before.push(next));
                assert(notes@[k + 1] == next);
                assert(forall|j: int| 0 <= j <= k ==> notes@[j] == before[j]);
            }
            k = k + 1;
        }
        notes
    }

    /// The notes that result from moving down by each interval, last interval first,
    /// starting at `root`.
    #[verifier::spinoff_prover]
    #[verifier::rlimit(60)]
    pub fn to_notes_reverse(root: Note, intervals: &[Interval]) -> (r: Vec<Note>)
        requires
            shifted_octave(root, -suffix_total(intervals@, intervals@.len() as int)) >= 0,
        ensures
            r@.len() == intervals@.len() + 1,
            r@[0] == root,
            forall|k: int|
                1 <= k < r@.len() ==> r@[k] == #[trigger] stepped_note(
                    r@[k - 1],
                    -(intervals@[intervals@.len() - k].semitone_count as int),
                ),
            forall|k: int|
                0 <= k < r@.len() ==> semitone(#[trigger] r@[k].pitch) == (semitone(root.pitch)
                    - suffix_total(intervals@, k)) % 12 && r@[k].octave == shifted_note(
                    root,
                    -suffix_total(intervals@, k),
                ).octave,
    {
        let mut notes: Vec<Note> = vec![root];
        proof {
            vstd::arithmetic::div_mod::lemma_mod_twice(letter_base_total(root.pitch), 12);
            assert(prefix_total(intervals@, 0) == 0);
            assert(suffix_total(intervals@, 0) == 0);
            assert(semitone(root.pitch) / 12 == 0);
        }
        let mut k: usize = 0;
        let n = intervals.len();
        while k < n
            invariant
                n == intervals@.len(),
                k <= n,
                notes@.len() == k + 1,
                notes@[0] == root,
                shifted_octave(root, -suffix_total(intervals@, n as int)) >= 0,
                forall|j: int|
                    1 <= j < notes@.len() ==> notes@[j] == #[trigger] stepped_note(
                        notes@[j - 1],
                        -(intervals@[n - j].semitone_count as int),
                    ),
                forall|j: int|
                    0 <= j < notes@.len() ==> semitone(#[trigger] notes@[j].pitch) == (semitone(root.pitch)
                        - suffix_total(intervals@, j)) % 12 && notes@[j].octave == shifted_note(
                        root,
                        -suffix_total(intervals@, j),
                    ).octave,
                notes@[k as int].octave == shifted_octave(root, -suffix_total(intervals@, k as int)),
            decreases n - k,
        {
            let last = notes[k];
            let interval = intervals[n - 1 - k];
            proof {
                lemma_suffix_monotone(intervals@, k + 1, n as int);
                vstd::arithmetic::div_mod::lemma_div_is_ordered(
                    semitone(root.pitch) - suffix_total(intervals@, n as int),
                    semitone(root.pitch) - suffix_total(intervals@, k + 1),
                    12,
                );
                lemma_suffix_monotone(intervals@, 0, k + 1);
                vstd::arithmetic::div_mod::lemma_div_is_ordered(semitone(root.pitch) - suffix_total(intervals@, k + 1), 12, 12);
                lemma_step(root, last, -suffix_total(intervals@, k as int), -(interval.semitone_count as int));
            }
            let next = interval.second_note_down_from(last);
            let ghost before = notes@;
            notes.push(next);
            proof {
                assert(notes@ == before.push(next));
                assert(notes@[k + 1] == next);
                assert(forall|j: int| 0 <= j <= k ==> notes@[j] == before[j]);
            }
            k = k + 1;
        }
        notes
    }

    /// The text of the interval: `1`, `T`, or quality then number (`M3`, `m7`).
    pub fn to_string(&self) -> (r: String)
        ensures
            r@ == interval_text(*self),
    {
        proof {
            reveal_strlit("T");
            reveal_strlit("1");
            reveal_strlit("P");
            reveal_strlit("M");
            reveal_strlit("m");
            reveal_strlit("A");
            reveal_strlit("d");
            reveal_strlit("2");
            reveal_strlit("3");
            reveal_strlit("4");
            reveal_strlit("5");
            reveal_strlit("6");
            reveal_strlit("7");
            reveal_strlit("8");
        }
        if (self.quality == Quality::Diminished && self.number == Number::Fifth) || (self.quality
            == Quality::Augmented && self.number == Number::Fourth) {
            return String::from_str("T");
        }
        if self.number == Number::Unison || self.number == Number::Octave {
            return String::from_str("1");
        }
        let mut s = match self.quality {
            Quality::Perfect => String::from_str("P"),
            Quality::Major => String::from_str("M"),
            Quality::Minor => String::from_str("m"),
            Quality::Augmented => String::from_str("A"),
            Quality::Diminished => String::from_str("d"),
        };
        match self.number {
            Number::Unison => s.append("1"),
            Number::Second => s.append("2"),
            Number::Third => s.append("3"),
            Number::Fourth => s.append("4"),
            Number::Fifth => s.append("5"),
            Number::Sixth => s.append("6"),
            Number::Seventh => s.append("7"),
            Number::Octave => s.append("8"),
        }
        assert(s@ =~= interval_text(*self));
        s
    }
}

impl Default for Interval {
    fn default() -> (r: Self)
        ensures
            r == (Interval {
                semitone_count: 0,
                quality: Quality::Major,
                number: Number::Unison,
                step: None,
            }),
    {
        Interval { semitone_count: 0, quality: Quality::Major, number: Number::Unison, step: None }
    }
}

} // verus!
