//! Laws that relate the library's operations, proved over the specifications that the
//! operations' contracts use.
use crate::chord::{
    base_note, chord_interval_seq, chord_note, chord_notes, lemma_chord_note_pitch, size,
    table_steps, textbook_size, Chord,
};
use crate::interval::{inverted_count, interval_of, prefix_total, suffix_total};
use crate::key_signature::lemma_spelling_keeps_class;
use crate::note::{semitone, symbol_pitch};
use crate::scale::{scale_notes, Direction, Scale};
use crate::key_signature::{key_table, major_key_of, mode_offset, spelling_key, spelling_of, table_hit, KeySignature};
use crate::note::{NoteLetter, Pitch, PitchSymbol};
use crate::scale::{mode_shift, scale_interval_seq, Mode, ScaleType};
use vstd::prelude::*;

verus! {

/// Inverting an interval of 0 to 12 semitones twice gives it back, and the inversion of
/// an interval of `n` semitones, for `0 < n < 12`, spans `12 - n`; unisons and octaves
/// invert to themselves.
pub proof fn law_invert_involutive(n: int)
    requires
        0 <= n <= 12,
    ensures
        inverted_count(inverted_count(n)) == n,
        0 < n < 12 ==> inverted_count(n) == 12 - n,
        inverted_count(0) == 0,
        inverted_count(12) == 12,
        interval_of(inverted_count(n)).semitone_count as int == inverted_count(n),
{
}

/// Every chord of the table has one interval fewer than the textbook number of notes of
/// its number: 3 for triads, 4 for sevenths, 5 for ninths, 6 for elevenths and 7 for
/// thirteenths.
pub proof fn law_chord_size(q: crate::chord::Quality, n: crate::chord::Number)
    requires
        table_steps(q, n) is Some,
    ensures
        chord_interval_seq(q, n).len() + 1 == textbook_size(n),
{
    crate::chord::lemma_chord_size(q, n);
}

/// The notes of a chord in inversion `k` have the pitches of the same chord in root
/// position, rotated left by `k`.
pub proof fn law_inversion_rotates(root_position: Chord, inverted: Chord)
    requires
        root_position.root == inverted.root,
        root_position.intervals@ == inverted.intervals@,
        root_position.octave == inverted.octave,
        root_position.inversion == 0,
        inverted.inversion < size(inverted),
    ensures
        chord_notes(inverted).len() == chord_notes(root_position).len(),
        forall|j: int|
            0 <= j < size(inverted) ==> #[trigger] chord_notes(inverted)[j].pitch == chord_notes(
                root_position,
            )[(j + inverted.inversion) % size(inverted)].pitch,
{
    let l = size(inverted);
    assert forall|j: int| 0 <= j < l implies #[trigger] chord_notes(inverted)[j].pitch
        == chord_notes(root_position)[(j + inverted.inversion) % l].pitch by {
        let i = (j + inverted.inversion) % l;
        lemma_chord_note_pitch(inverted, j);
        lemma_chord_note_pitch(root_position, i);
        vstd::arithmetic::div_mod::lemma_small_mod(i as nat, l as nat);
        assert(base_note(inverted, i).pitch == base_note(root_position, i).pitch);
    }
}

/// An inversion count is taken modulo the number of notes: inversion `k` and inversion
/// `k + size` give the same chord, so inversion `size` is root position.
pub proof fn law_inversion_wraps(q: crate::chord::Quality, n: crate::chord::Number, k: int)
    requires
        0 <= k,
    ensures
        (k + chord_interval_seq(q, n).len() + 1) % (chord_interval_seq(q, n).len() as int + 1) == k
            % (chord_interval_seq(q, n).len() as int + 1),
        (chord_interval_seq(q, n).len() as int + 1) % (chord_interval_seq(q, n).len() as int + 1) == 0,
{
    let l = chord_interval_seq(q, n).len() as int + 1;
    vstd::arithmetic::div_mod::lemma_mod_add_multiples_vanish(k, l);
    vstd::arithmetic::div_mod::lemma_mod_self_0(l);
}

/// Chords on enharmonic roots (equal pitch class, any spelling) with the same intervals
/// and inversion have notes of the same pitch classes, note by note.
pub proof fn law_enharmonic_chords(a: Chord, b: Chord)
    requires
        semitone(a.root) == semitone(b.root),
        a.intervals@ == b.intervals@,
        a.inversion == b.inversion,
    ensures
        chord_notes(a).len() == chord_notes(b).len(),
        forall|j: int|
            0 <= j < size(a) ==> semitone(#[trigger] chord_notes(a)[j].pitch) == semitone(
                chord_notes(b)[j].pitch,
            ),
{
    assert forall|j: int| 0 <= j < size(a) implies semitone(#[trigger] chord_notes(a)[j].pitch)
        == semitone(chord_notes(b)[j].pitch) by {
        let i = (j + a.inversion) % size(a);
        lemma_chord_note_pitch(a, j);
        lemma_chord_note_pitch(b, j);
        let t = (semitone(a.root) + prefix_total(a.intervals@, i)) % 12;
        lemma_spelling_keeps_class(crate::key_signature::KeySignature { tonic: a.root, mode: None }, t);
        lemma_spelling_keeps_class(crate::key_signature::KeySignature { tonic: b.root, mode: None }, t);
    }
}

/// Scales on enharmonic tonics (equal pitch class, any spelling) with the same intervals
/// and direction have notes of the same pitch classes, note by note.
pub proof fn law_enharmonic_scales(a: Scale, b: Scale)
    requires
        semitone(a.tonic) == semitone(b.tonic),
        a.intervals@ == b.intervals@,
        a.direction == b.direction,
    ensures
        scale_notes(a).len() == scale_notes(b).len(),
        forall|j: int|
            0 <= j < scale_notes(a).len() ==> semitone(#[trigger] scale_notes(a)[j].pitch)
                == semitone(scale_notes(b)[j].pitch),
{
    assert forall|j: int| 0 <= j < scale_notes(a).len() implies semitone(
        #[trigger] scale_notes(a)[j].pitch,
    ) == semitone(scale_notes(b)[j].pitch) by {
        let t = if a.direction == Direction::Ascending {
            prefix_total(a.intervals@, j)
        } else {
            -suffix_total(a.intervals@, j)
        };
        let c = (semitone(a.tonic) + t) % 12;
        crate::note::lemma_sharp_pitch_semitone(c);
        lemma_spelling_keeps_class(crate::key_signature::KeySignature { tonic: a.tonic, mode: a.mode }, c);
        lemma_spelling_keeps_class(crate::key_signature::KeySignature { tonic: b.tonic, mode: b.mode }, c);
    }
}

/// Semitones from the tonic of a major scale to its degree `i` (0 to 6).
pub open spec fn major_degree(i: int) -> int {
    if i == 0 { 0 } else if i == 1 { 2 } else if i == 2 { 4 } else if i == 3 { 5 }
    else if i == 4 { 7 } else if i == 5 { 9 } else { 11 }
}

/// Where a diatonic mode starts within the major scale: 0 for Ionian (and no mode).
pub open spec fn mode_degree(mode: Option<Mode>) -> int {
    match mode {
        Some(Mode::Dorian) => 1,
        Some(Mode::Phrygian) => 2,
        Some(Mode::Lydian) => 3,
        Some(Mode::Mixolydian) => 4,
        Some(Mode::Aeolian) => 5,
        Some(Mode::Locrian) => 6,
        _ => 0,
    }
}

/// Whether a mode is one of the seven diatonic modes, or no mode.
pub open spec fn church_mode(mode: Option<Mode>) -> bool {
    match mode {
        None => true,
        Some(m) => m == Mode::Ionian || mode_offset(mode) is Some,
    }
}

/// Each key table spells the major scale of its tonic, degree by degree, with seven
/// different letters.
proof fn lemma_table_spells_major(l: NoteLetter, a: i8)
    requires
        key_table(l, a) is Some,
    ensures
        key_table(l, a)->Some_0.len() == 7,
        forall|i: int| 0 <= i < 7 ==> semitone(symbol_pitch(#[trigger] key_table(l, a)->Some_0[i]))
            == (semitone(Pitch { letter: l, accidental: a }) + major_degree(i)) % 12,
        forall|i: int, j: int| 0 <= i < j < 7 ==> symbol_pitch(#[trigger] key_table(l, a)->Some_0[i]).letter
            != symbol_pitch(#[trigger] key_table(l, a)->Some_0[j]).letter,
{
    reveal(key_table);
}

/// The relative major of every pitch class has a table and that pitch class as tonic.
proof fn lemma_major_key_of(c: int)
    requires
        0 <= c < 12,
    ensures
        key_table(major_key_of(c).0, major_key_of(c).1) is Some,
        semitone(Pitch { letter: major_key_of(c).0, accidental: major_key_of(c).1 }) == c,
{
    reveal(key_table);
}

/// A diatonic mode's intervals, summed up to note `k`, lead from its start degree to
/// degree `k` further on in the major scale.
#[verifier::spinoff_prover]
proof fn lemma_mode_prefix(mode: Option<Mode>, k: int)
    requires
        church_mode(mode),
        0 <= k < 7,
    ensures
        (major_degree(mode_degree(mode)) + prefix_total(scale_interval_seq(ScaleType::Diatonic, mode), k)) % 12
            == major_degree((k + mode_degree(mode)) % 7),
{
    let ivs = scale_interval_seq(ScaleType::Diatonic, mode);
    let d = mode_degree(mode);
    crate::scale::lemma_scale_steps_facts(ScaleType::Diatonic);
    assert(mode_shift(mode, 7) == d);
    let steps = crate::scale::scale_steps(ScaleType::Diatonic);
    let rot = crate::scale::rotate_steps(steps, d);
    assert(ivs.len() == 7);
    assert forall|i: int| 0 <= i < 7 implies #[trigger] ivs[i].semitone_count == rot[i] by {
        assert(rot[i] <= 3) by {
            if i < 7 - d {
                assert(rot[i] == steps[i + d]);
            } else {
                assert(rot[i] == steps[i - (7 - d)]);
            }
        }
    }
    reveal_with_fuel(prefix_total, 8);
    if d == 0 {
        assert(rot =~= seq![2u8, 2, 1, 2, 2, 2, 1]);
    } else if d == 1 {
        assert(rot =~= seq![2u8, 1, 2, 2, 2, 1, 2]);
    } else if d == 2 {
        assert(rot =~= seq![1u8, 2, 2, 2, 1, 2, 2]);
    } else if d == 3 {
        assert(rot =~= seq![2u8, 2, 2, 1, 2, 2, 1]);
    } else if d == 4 {
        assert(rot =~= seq![2u8, 2, 1, 2, 2, 1, 2]);
    } else if d == 5 {
        assert(rot =~= seq![2u8, 1, 2, 2, 1, 2, 2]);
    } else {
        assert(rot =~= seq![1u8, 2, 2, 1, 2, 2, 2]);
    }
}

/// In a table whose entries have different pitch classes, looking up the class of
/// entry `i` finds entry `i`.
proof fn lemma_table_hit_at(t: Seq<PitchSymbol>, i: int, x: int)
    requires
        0 <= i < t.len(),
        semitone(symbol_pitch(t[i])) == x,
        forall|j: int| 0 <= j < i ==> semitone(symbol_pitch(#[trigger] t[j])) != x,
    ensures
        table_hit(t, x) == Some(t[i]),
    decreases i,
{
    if i > 0 {
        assert forall|j: int| 0 <= j < i - 1 implies semitone(symbol_pitch(#[trigger] t.drop_first()[j])) != x by {
            assert(t.drop_first()[j] == t[j + 1]);
        }
        lemma_table_hit_at(t.drop_first(), i - 1, x);
    }
}

/// The requirements of the spelling law, and the table that its key spells with.
pub open spec fn spelled_from_table(sc: Scale) -> bool {
    &&& sc.intervals@ == scale_interval_seq(ScaleType::Diatonic, sc.mode)
    &&& church_mode(sc.mode)
    &&& key_table(
        spelling_key(KeySignature { tonic: sc.tonic, mode: sc.mode }).0,
        spelling_key(KeySignature { tonic: sc.tonic, mode: sc.mode }).1,
    ) is Some
}

/// The table of a scale's key.
pub open spec fn scale_table(sc: Scale) -> Seq<PitchSymbol> {
    key_table(
        spelling_key(KeySignature { tonic: sc.tonic, mode: sc.mode }).0,
        spelling_key(KeySignature { tonic: sc.tonic, mode: sc.mode }).1,
    )->Some_0
}

/// The key's spelling of degree `m` of a scale: the class `m` steps up from the tonic.
pub open spec fn degree_pitch(sc: Scale, m: int) -> Pitch {
    symbol_pitch(
        spelling_of(
            KeySignature { tonic: sc.tonic, mode: sc.mode },
            (semitone(sc.tonic) + prefix_total(sc.intervals@, m)) % 12,
        ),
    )
}

/// The degree that note `k` of a seven-note scale sounds: counted up from the tonic when
/// ascending, down from it when descending.
pub open spec fn degree_index(sc: Scale, k: int) -> int {
    if sc.direction == Direction::Ascending {
        k % 7
    } else {
        (7 - k) % 7
    }
}

/// Note `k` of such a scale, in either direction, is the key's spelling of its degree.
#[verifier::spinoff_prover]
proof fn lemma_note_degree(sc: Scale, k: int)
    requires
        spelled_from_table(sc),
        0 <= k <= 7,
    ensures
        scale_notes(sc).len() == 8,
        scale_notes(sc)[k].pitch == degree_pitch(sc, degree_index(sc, k)),
{
    let ivs = sc.intervals@;
    let s0 = semitone(sc.tonic);
    crate::scale::lemma_scale_spans_octave(ScaleType::Diatonic, sc.mode);
    assert(ivs.len() == 7) by {
        crate::scale::lemma_scale_steps_facts(ScaleType::Diatonic);
    }
    vstd::arithmetic::div_mod::lemma_mod_twice(crate::interval::letter_base_total(sc.tonic), 12);
    assert(prefix_total(ivs, 0) == 0);
    crate::interval::lemma_octaves_keep_class(s0, 12);
    crate::interval::lemma_octaves_keep_class(s0, -12);
    if sc.direction == Direction::Ascending {
        let x = (s0 + prefix_total(ivs, k)) % 12;
        crate::note::lemma_sharp_pitch_semitone(x);
        if k == 7 {
            assert(x == (s0 + prefix_total(ivs, 0)) % 12);
        }
    } else {
        crate::interval::lemma_prefix_suffix_split(ivs, k);
        let x = (s0 - suffix_total(ivs, k)) % 12;
        crate::note::lemma_sharp_pitch_semitone(x);
        if k == 0 {
            assert(suffix_total(ivs, 0) == 0);
            assert(x == (s0 + prefix_total(ivs, 0)) % 12);
        } else if k == 7 {
            assert(x == (s0 + prefix_total(ivs, 0)) % 12);
        } else {
            crate::interval::lemma_octaves_keep_class(s0 + prefix_total(ivs, 7 - k), -12);
            assert(x == (s0 + prefix_total(ivs, 7 - k)) % 12);
        }
    }
}

/// The tonic of a scale lies the mode's start degree above the tonic of the key that
/// spells it.
#[verifier::spinoff_prover]
proof fn lemma_key_class(sc: Scale)
    requires
        spelled_from_table(sc),
    ensures
        (semitone(Pitch {
            letter: spelling_key(KeySignature { tonic: sc.tonic, mode: sc.mode }).0,
            accidental: spelling_key(KeySignature { tonic: sc.tonic, mode: sc.mode }).1,
        }) + major_degree(mode_degree(sc.mode))) % 12 == semitone(sc.tonic),
{
    let s0 = semitone(sc.tonic);
    if mode_offset(sc.mode) is Some {
        lemma_major_key_of((s0 + 12 - mode_offset(sc.mode)->Some_0) % 12);
    }
}

proof fn lemma_degree_class(c: int, e: int, p: int, f: int)
    requires
        (e + p) % 12 == f,
    ensures
        (((c + e) % 12) + p) % 12 == (c + f) % 12,
{
    vstd::arithmetic::div_mod::lemma_add_mod_noop(c + e, p, 12);
    vstd::arithmetic::div_mod::lemma_add_mod_noop(c, e + p, 12);
    vstd::arithmetic::div_mod::lemma_mod_twice(p, 12);
    assert(((c + e) % 12 + p % 12) % 12 == (c + e + p) % 12) by {
        vstd::arithmetic::div_mod::lemma_add_mod_noop(c + e, p, 12);
    }
    assert((c % 12 + (e + p) % 12) % 12 == (c + e + p) % 12);
    vstd::arithmetic::div_mod::lemma_add_mod_noop(c, f, 12);
    vstd::arithmetic::div_mod::lemma_mod_twice(f, 12);
    vstd::arithmetic::div_mod::lemma_add_mod_noop((c + e) % 12, p, 12);
    vstd::arithmetic::div_mod::lemma_mod_twice(c + e, 12);
}

/// Note `k` of such a scale is spelled by the table entry `k` degrees on from the mode's
/// start degree.
#[verifier::spinoff_prover]
#[verifier::rlimit(100)]
proof fn lemma_note_from_table(sc: Scale, k: int)
    requires
        spelled_from_table(sc),
        0 <= k < 7,
    ensures
        degree_pitch(sc, k) == symbol_pitch(scale_table(sc)[(k + mode_degree(sc.mode)) % 7]),
{
    let ks = KeySignature { tonic: sc.tonic, mode: sc.mode };
    let key = spelling_key(ks);
    let t = scale_table(sc);
    let d = mode_degree(sc.mode);
    let s0 = semitone(sc.tonic);
    let c = semitone(Pitch { letter: key.0, accidental: key.1 });
    lemma_table_spells_major(key.0, key.1);
    lemma_key_class(sc);
    assert(sc.intervals@.len() == 7) by {
        crate::scale::lemma_scale_steps_facts(ScaleType::Diatonic);
    }
    let p = prefix_total(sc.intervals@, k);
    lemma_mode_prefix(sc.mode, k);
    lemma_degree_class(c, major_degree(d), p, major_degree((k + d) % 7));
    let x = (s0 + p) % 12;
    assert(x == (c + major_degree((k + d) % 7)) % 12);
    assert forall|j: int| 0 <= j < (k + d) % 7 implies semitone(symbol_pitch(#[trigger] t[j])) != x by {
        assert(semitone(symbol_pitch(t[j])) == (c + major_degree(j)) % 12);
    }
    lemma_table_hit_at(t, (k + d) % 7, x);
    assert(spelling_of(ks, x) == t[(k + d) % 7]);
}

/// A diatonic scale, in a mode or none and in either direction, whose key has a table,
/// spells its seven notes with the table's seven spellings, each once, so it uses each
/// letter once; its eighth note repeats the first.
pub proof fn law_diatonic_spelling(sc: Scale)
    requires
        spelled_from_table(sc),
    ensures
        forall|k: int| 0 <= k < 7 ==> exists|i: int| 0 <= i < 7 && #[trigger] scale_notes(sc)[k].pitch
            == symbol_pitch(scale_table(sc)[i]),
        forall|i: int, j: int| 0 <= i < j < 7 ==> #[trigger] scale_notes(sc)[i].pitch.letter
            != #[trigger] scale_notes(sc)[j].pitch.letter,
        forall|i: int| 0 <= i < 7 ==> exists|k: int| 0 <= k < 7 && #[trigger] symbol_pitch(scale_table(sc)[i])
            == scale_notes(sc)[k].pitch,
        scale_notes(sc).len() == 8,
        scale_notes(sc)[7].pitch == scale_notes(sc)[0].pitch,
{
    lemma_notes_in_table(sc);
    lemma_letters_differ(sc);
    lemma_table_covered(sc);
    lemma_octave_note(sc);
}

/// Note `k` of such a scale is spelled by the table entry of its degree, counted on from
/// the mode's start degree.
proof fn lemma_note_in_table(sc: Scale, k: int)
    requires
        spelled_from_table(sc),
        0 <= k < 7,
    ensures
        0 <= degree_index(sc, k) < 7,
        scale_notes(sc)[k].pitch == symbol_pitch(
            scale_table(sc)[(degree_index(sc, k) + mode_degree(sc.mode)) % 7],
        ),
{
    lemma_note_degree(sc, k);
    lemma_note_from_table(sc, degree_index(sc, k));
}

/// Each of the seven notes is a spelling of the key's table.
#[verifier::spinoff_prover]
proof fn lemma_notes_in_table(sc: Scale)
    requires
        spelled_from_table(sc),
    ensures
        forall|k: int| 0 <= k < 7 ==> exists|i: int| 0 <= i < 7 && #[trigger] scale_notes(sc)[k].pitch
            == symbol_pitch(scale_table(sc)[i]),
{
    let d = mode_degree(sc.mode);
    assert forall|k: int| 0 <= k < 7 implies exists|i: int| 0 <= i < 7 && #[trigger] scale_notes(sc)[k].pitch
        == symbol_pitch(scale_table(sc)[i]) by {
        lemma_note_in_table(sc, k);
        let i = (degree_index(sc, k) + d) % 7;
        assert(0 <= i < 7);
        assert(scale_notes(sc)[k].pitch == symbol_pitch(scale_table(sc)[i]));
    }
}

/// The seven notes have seven different letters.
#[verifier::spinoff_prover]
proof fn lemma_letters_differ(sc: Scale)
    requires
        spelled_from_table(sc),
    ensures
        forall|i: int, j: int| 0 <= i < j < 7 ==> #[trigger] scale_notes(sc)[i].pitch.letter
            != #[trigger] scale_notes(sc)[j].pitch.letter,
{
    let key = spelling_key(KeySignature { tonic: sc.tonic, mode: sc.mode });
    let t = scale_table(sc);
    let d = mode_degree(sc.mode);
    lemma_table_spells_major(key.0, key.1);
    assert forall|i: int, j: int| 0 <= i < j < 7 implies #[trigger] scale_notes(sc)[i].pitch.letter
        != #[trigger] scale_notes(sc)[j].pitch.letter by {
        lemma_note_in_table(sc, i);
        lemma_note_in_table(sc, j);
        lemma_degree_index_differs(sc, i, j);
        let a = (degree_index(sc, i) + d) % 7;
        let b = (degree_index(sc, j) + d) % 7;
        assert(a != b);
        if a < b {
            assert(symbol_pitch(t[a]).letter != symbol_pitch(t[b]).letter);
        } else {
            assert(symbol_pitch(t[b]).letter != symbol_pitch(t[a]).letter);
        }
    }
}

/// Different notes below the octave sound different degrees.
proof fn lemma_degree_index_differs(sc: Scale, i: int, j: int)
    requires
        0 <= i < j < 7,
    ensures
        degree_index(sc, i) != degree_index(sc, j),
{
}

/// Every spelling of the key's table is used by one of the seven notes.
#[verifier::spinoff_prover]
proof fn lemma_table_covered(sc: Scale)
    requires
        spelled_from_table(sc),
    ensures
        forall|i: int| 0 <= i < 7 ==> exists|k: int| 0 <= k < 7 && #[trigger] symbol_pitch(scale_table(sc)[i])
            == scale_notes(sc)[k].pitch,
{
    let d = mode_degree(sc.mode);
    assert forall|i: int| 0 <= i < 7 implies exists|k: int| 0 <= k < 7 && #[trigger] symbol_pitch(scale_table(sc)[i])
        == scale_notes(sc)[k].pitch by {
        let m = (i + 7 - d) % 7;
        let k = if sc.direction == Direction::Ascending { m } else { (7 - m) % 7 };
        assert(degree_index(sc, k) == m);
        lemma_note_in_table(sc, k);
        assert((m + d) % 7 == i);
    }
}

/// The eighth note of such a scale repeats the spelling of the first.
proof fn lemma_octave_note(sc: Scale)
    requires
        spelled_from_table(sc),
    ensures
        scale_notes(sc).len() == 8,
        scale_notes(sc)[7].pitch == scale_notes(sc)[0].pitch,
{
    lemma_note_degree(sc, 0);
    lemma_note_degree(sc, 7);
}

/// A rotated chord's notes never climb more than one octave per note above the top of
/// its root position.
proof fn lemma_chord_note_bound(c: Chord, k: int)
    requires
        c.wf(),
        0 <= k < size(c),
    ensures
        chord_note(c, k).octave <= c.octave + c.intervals@.len() + k,
    decreases k,
{
    let l = size(c);
    crate::chord::lemma_base_octave_bound(c, (k + c.inversion) % l);
    if k > 0 {
        lemma_chord_note_bound(c, k - 1);
    }
}

/// Each note after the first climbs one octave above the previous one when its pitch
/// class does not rise, and never falls below it otherwise.
#[verifier::spinoff_prover]
proof fn lemma_chord_note_step(c: Chord, i: int)
    requires
        c.wf(),
        1 <= i < size(c),
    ensures
        if semitone(chord_note(c, i).pitch) <= semitone(chord_note(c, i - 1).pitch) {
            chord_note(c, i).octave == chord_note(c, i - 1).octave + 1
        } else {
            chord_note(c, i).octave >= chord_note(c, i - 1).octave
        },
{
    lemma_chord_note_bound(c, i - 1);
}

/// After an inversion the lowest note sits in the chord's octave, and each later note is
/// one octave above the previous one when its pitch class does not rise, and never lower
/// than it otherwise.
#[verifier::spinoff_prover]
pub proof fn law_inversion_octaves(c: Chord)
    requires
        c.wf(),
    ensures
        chord_notes(c)[0].octave == c.octave,
        forall|i: int|
            1 <= i < size(c) ==> (if semitone(#[trigger] chord_notes(c)[i].pitch) <= semitone(
                chord_notes(c)[i - 1].pitch,
            ) {
                chord_notes(c)[i].octave == chord_notes(c)[i - 1].octave + 1
            } else {
                chord_notes(c)[i].octave >= chord_notes(c)[i - 1].octave
            }),
{
    let l = size(c);
    crate::chord::lemma_base_octave_bound(c, (0 + c.inversion) % l);
    assert forall|i: int| 1 <= i < l implies (if semitone(#[trigger] chord_notes(c)[i].pitch) <= semitone(
        chord_notes(c)[i - 1].pitch,
    ) {
        chord_notes(c)[i].octave == chord_notes(c)[i - 1].octave + 1
    } else {
        chord_notes(c)[i].octave >= chord_notes(c)[i - 1].octave
    }) by {
        lemma_chord_note_step(c, i);
        assert(chord_notes(c)[i] == chord_note(c, i));
        assert(chord_notes(c)[i - 1] == chord_note(c, i - 1));
    }
}

} // verus!
