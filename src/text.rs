//! Ordered recognizers that read pitches, chord qualities, chord numbers and scale modes
//! from text. Each recognizer tries its rules in a fixed order and the first match wins.
use crate::chord::{Number as ChordNumber, Quality as ChordQuality};
use crate::note::{NoteLetter, Pitch};
use crate::scale::Mode;
use vstd::prelude::*;
use vstd::string::StrSliceExecFns;

verus! {

/// ASCII whitespace.
pub open spec fn is_space(c: char) -> bool {
    c == ' ' || c == '\t' || c == '\n' || c == '\r' || c == '\x0B' || c == '\x0C'
}

/// Whether `c` is `w`, or its upper case when `w` is a lower-case ASCII letter.
pub open spec fn same_ci(c: char, w: char) -> bool {
    c == w || ('a' <= w && w <= 'z' && c as u32 + 32 == w as u32)
}

/// Whether the lower-case word `w` stands in `t` at `i`, in any case.
pub open spec fn word_ci(t: Seq<char>, i: int, w: Seq<char>) -> bool {
    0 <= i && i + w.len() <= t.len() && forall|k: int| 0 <= k < w.len() ==> same_ci(#[trigger] t[i + k], w[k])
}

/// Whether `w` stands in `t` at `i`, exactly.
pub open spec fn word_cs(t: Seq<char>, i: int, w: Seq<char>) -> bool {
    0 <= i && i + w.len() <= t.len() && forall|k: int| 0 <= k < w.len() ==> #[trigger] t[i + k] == w[k]
}

/// The first index at or after `i` that is not whitespace (or the end).
pub open spec fn skip_ws(t: Seq<char>, i: int) -> int
    decreases t.len() - i,
{
    if 0 <= i < t.len() && is_space(t[i]) {
        skip_ws(t, i + 1)
    } else {
        i
    }
}

/// The end of the word `w` at `i`, in any case.
pub open spec fn word_end(t: Seq<char>, i: int, w: Seq<char>) -> Option<int> {
    if word_ci(t, i, w) {
        Some(i + w.len())
    } else {
        None
    }
}

/// The end of the words `w1` and `w2`, with any whitespace between them, at `i`.
pub open spec fn pair_end(t: Seq<char>, i: int, w1: Seq<char>, w2: Seq<char>) -> Option<int> {
    if word_ci(t, i, w1) && word_ci(t, skip_ws(t, i + w1.len()), w2) {
        Some(skip_ws(t, i + w1.len()) + w2.len())
    } else {
        None
    }
}

/// The end of a token `w` at `i` that the text ends after or that whitespace follows;
/// the whitespace is part of the match.
pub open spec fn token_end(t: Seq<char>, i: int, w: Seq<char>, exact_case: bool) -> Option<int> {
    let e = i + w.len();
    if (if exact_case { word_cs(t, i, w) } else { word_ci(t, i, w) }) && (e == t.len() || is_space(t[e])) {
        Some(skip_ws(t, e))
    } else {
        None
    }
}

/// The first of two matches that exists.
pub open spec fn either(a: Option<int>, b: Option<int>) -> Option<int> {
    if a is Some { a } else { b }
}

/// The first index at or after `i` where the word `w` stands, in any case.
pub open spec fn find_word(t: Seq<char>, i: int, w: Seq<char>) -> Option<int>
    decreases t.len() + 1 - i,
{
    if i < 0 || i > t.len() {
        None
    } else if word_ci(t, i, w) {
        Some(i)
    } else {
        find_word(t, i + 1, w)
    }
}

/// The first index at or after `i` where the pair `w1 w2` stands.
pub open spec fn find_pair(t: Seq<char>, i: int, w1: Seq<char>, w2: Seq<char>) -> Option<int>
    decreases t.len() + 1 - i,
{
    if i < 0 || i > t.len() {
        None
    } else if pair_end(t, i, w1, w2) is Some {
        Some(i)
    } else {
        find_pair(t, i + 1, w1, w2)
    }
}

/// The last index before which the text is not all whitespace, looking from `e` back.
pub open spec fn trim_end(t: Seq<char>, e: int) -> int
    decreases e,
{
    if 0 < e <= t.len() && is_space(t[e - 1]) {
        trim_end(t, e - 1)
    } else {
        e
    }
}

/// The text without leading and trailing whitespace.
pub open spec fn trimmed(t: Seq<char>) -> Seq<char> {
    let s = skip_ws(t, 0);
    let e = trim_end(t, t.len() as int);
    if s < e {
        t.subrange(s, e)
    } else {
        Seq::empty()
    }
}

/// The letter a character names, in either case.
pub open spec fn letter_of(c: char) -> Option<NoteLetter> {
    if c == 'C' || c == 'c' {
        Some(NoteLetter::C)
    } else if c == 'D' || c == 'd' {
        Some(NoteLetter::D)
    } else if c == 'E' || c == 'e' {
        Some(NoteLetter::E)
    } else if c == 'F' || c == 'f' {
        Some(NoteLetter::F)
    } else if c == 'G' || c == 'g' {
        Some(NoteLetter::G)
    } else if c == 'A' || c == 'a' {
        Some(NoteLetter::A)
    } else if c == 'B' || c == 'b' {
        Some(NoteLetter::B)
    } else {
        None
    }
}

/// How many semitones a sharp glyph raises: `#`, `s`, `S`, `♯` one; `𝄪`, `x` two; else none.
pub open spec fn sharp_value(c: char) -> int {
    if c == '#' || c == 's' || c == 'S' || c == '\u{266F}' {
        1
    } else if c == '\u{1D12A}' || c == 'x' {
        2
    } else {
        0
    }
}

/// How many semitones a flat glyph lowers: `b` and `♭` one; else none.
pub open spec fn flat_value(c: char) -> int {
    if c == 'b' || c == '\u{266D}' {
        1
    } else {
        0
    }
}

/// Whether `c` may continue a pitch token in running text.
pub open spec fn is_glyph(c: char) -> bool {
    flat_value(c) > 0 || sharp_value(c) > 0
}

/// The sum of the sharp values of the first `k` glyphs.
pub open spec fn sharp_total(g: Seq<char>, k: int) -> int
    decreases k,
{
    if k <= 0 {
        0
    } else {
        sharp_total(g, k - 1) + sharp_value(g[k - 1])
    }
}

/// The sum of the flat values of the first `k` glyphs.
pub open spec fn flat_total(g: Seq<char>, k: int) -> int
    decreases k,
{
    if k <= 0 {
        0
    } else {
        flat_total(g, k - 1) + flat_value(g[k - 1])
    }
}

/// The pitch that a whole token names: a letter, then only sharp glyphs or only flat
/// glyphs, whose count fits an `i8`.
pub open spec fn pitch_of_text(s: Seq<char>) -> Option<Pitch> {
    if s.len() == 0 {
        None
    } else {
        match letter_of(s[0]) {
            None => None,
            Some(l) => {
                let g = s.drop_first();
                if (forall|k: int| 0 <= k < g.len() ==> sharp_value(#[trigger] g[k]) > 0)
                    && sharp_total(g, g.len() as int) <= 127 {
                    Some(Pitch { letter: l, accidental: sharp_total(g, g.len() as int) as i8 })
                } else if (forall|k: int| 0 <= k < g.len() ==> flat_value(#[trigger] g[k]) > 0)
                    && flat_total(g, g.len() as int) <= 128 {
                    Some(Pitch { letter: l, accidental: (-flat_total(g, g.len() as int)) as i8 })
                } else {
                    None
                }
            },
        }
    }
}

/// The end of the run of glyphs that starts at `i`.
pub open spec fn glyph_run_end(t: Seq<char>, i: int) -> int
    decreases t.len() - i,
{
    if 0 <= i < t.len() && is_glyph(t[i]) {
        glyph_run_end(t, i + 1)
    } else {
        i
    }
}

/// The length of the pitch token at the start of `t`: a letter and the glyphs after it;
/// zero when `t` does not start with a letter.
pub open spec fn pitch_span(t: Seq<char>) -> int {
    if t.len() > 0 && letter_of(t[0]) is Some {
        glyph_run_end(t, 1)
    } else {
        0
    }
}

/// The pitch at the start of `t`, with the length of its token.
pub open spec fn leading_pitch(t: Seq<char>) -> Option<(Pitch, int)> {
    let e = pitch_span(t);
    if e == 0 {
        None
    } else {
        match pitch_of_text(t.subrange(0, e)) {
            Some(p) => Some((p, e)),
            None => None,
        }
    }
}

/// The chord quality at the start of `t`, with the end of its match.
pub open spec fn quality_rule(t: Seq<char>) -> Option<(ChordQuality, int)> {
    let major = either(token_end(t, 0, seq!['M'], true), word_end(t, 0, seq!['m', 'a', 'j']));
    let minor = either(token_end(t, 0, seq!['m'], true), word_end(t, 0, seq!['m', 'i', 'n']));
    let dim = word_end(t, 0, seq!['d', 'i', 'm', 'i', 'n', 'i', 's', 'h', 'e', 'd']);
    let aug = word_end(t, 0, seq!['a', 'u', 'g', 'm', 'e', 'n', 't', 'e', 'd']);
    let half = pair_end(t, 0, seq!['h', 'a', 'l', 'f'], seq!['d', 'i', 'm', 'i', 'n', 'i', 's', 'h', 'e', 'd']);
    let dom = word_end(t, 0, seq!['d', 'o', 'm', 'i', 'n', 'a', 'n', 't']);
    let sus2 = either(token_end(t, 0, seq!['s', 'u', 's', '2'], false), word_end(t, 0, seq!['s', 'u', 's', 'p', 'e', 'n', 'd', 'e', 'd', '2']));
    let sus4 = either(token_end(t, 0, seq!['s', 'u', 's', '4'], false), word_end(t, 0, seq!['s', 'u', 's', 'p', 'e', 'n', 'd', 'e', 'd', '4']));
    if major is Some {
        Some((ChordQuality::Major, major->Some_0))
    } else if minor is Some {
        Some((ChordQuality::Minor, minor->Some_0))
    } else if dim is Some {
        Some((ChordQuality::Diminished, dim->Some_0))
    } else if aug is Some {
        Some((ChordQuality::Augmented, aug->Some_0))
    } else if half is Some {
        Some((ChordQuality::HalfDiminished, half->Some_0))
    } else if dom is Some {
        Some((ChordQuality::Dominant, dom->Some_0))
    } else if sus2 is Some {
        Some((ChordQuality::Suspended2, sus2->Some_0))
    } else if sus4 is Some {
        Some((ChordQuality::Suspended4, sus4->Some_0))
    } else {
        None
    }
}

/// The chord number chosen from where each number's word first stands: the first rule
/// in order whose word was found.
pub open spec fn number_choice(
    triad: Option<int>,
    major_seventh: Option<int>,
    major_seventh_end: Option<int>,
    seventh: Option<int>,
    ninth: Option<int>,
    eleventh: Option<int>,
    thirteenth: Option<int>,
) -> Option<(ChordNumber, int)> {
    if triad is Some {
        Some((ChordNumber::Triad, triad->Some_0 + 5))
    } else if major_seventh is Some {
        Some((ChordNumber::MajorSeventh, major_seventh_end->Some_0))
    } else if seventh is Some {
        Some((ChordNumber::Seventh, seventh->Some_0 + 7))
    } else if ninth is Some {
        Some((ChordNumber::Ninth, ninth->Some_0 + 5))
    } else if eleventh is Some {
        Some((ChordNumber::Eleventh, eleventh->Some_0 + 8))
    } else if thirteenth is Some {
        Some((ChordNumber::Thirteenth, thirteenth->Some_0 + 10))
    } else {
        None
    }
}

/// The chord number named anywhere in `t`, with the end of its first match. The more
/// specific "major seventh" is tried before "seventh".
pub open spec fn number_rule(t: Seq<char>) -> Option<(ChordNumber, int)> {
    let major = seq!['m', 'a', 'j', 'o', 'r'];
    let seventh = seq!['s', 'e', 'v', 'e', 'n', 't', 'h'];
    let ms = find_pair(t, 0, major, seventh);
    number_choice(
        find_word(t, 0, seq!['t', 'r', 'i', 'a', 'd']),
        ms,
        if ms is Some { pair_end(t, ms->Some_0, major, seventh) } else { None },
        find_word(t, 0, seventh),
        find_word(t, 0, seq!['n', 'i', 'n', 't', 'h']),
        find_word(t, 0, seq!['e', 'l', 'e', 'v', 'e', 'n', 't', 'h']),
        find_word(t, 0, seq!['t', 'h', 'i', 'r', 't', 'e', 'e', 'n', 't', 'h']),
    )
}

/// An index as an integer.
pub open spec fn opt_int(o: Option<usize>) -> Option<int> {
    match o {
        Some(i) => Some(i as int),
        None => None,
    }
}

/// The scale mode named by `t`.
pub open spec fn mode_rule(t: Seq<char>) -> Option<Mode> {
    let minor = seq!['m', 'i', 'n', 'o', 'r'];
    if either(token_end(t, 0, seq!['M'], true), either(word_end(t, 0, seq!['m', 'a', 'j']), word_end(t, 0, seq!['i', 'o', 'n', 'i', 'a', 'n']))) is Some {
        Some(Mode::Ionian)
    } else if find_pair(t, 0, seq!['h', 'a', 'r'], minor) is Some || find_pair(t, 0, seq!['h', 'a', 'r', 'm', 'o', 'n', 'i', 'c'], minor) is Some {
        Some(Mode::HarmonicMinor)
    } else if find_pair(t, 0, seq!['m', 'e', 'l'], minor) is Some || find_pair(t, 0, seq!['m', 'e', 'l', 'o', 'd', 'i', 'c'], minor) is Some {
        Some(Mode::MelodicMinor)
    } else if either(token_end(t, 0, seq!['m'], true), either(word_end(t, 0, seq!['m', 'i', 'n']), word_end(t, 0, seq!['a', 'e', 'o', 'l', 'i', 'a', 'n']))) is Some {
        Some(Mode::Aeolian)
    } else if word_ci(t, 0, seq!['d', 'o', 'r', 'i', 'a', 'n']) {
        Some(Mode::Dorian)
    } else if word_ci(t, 0, seq!['l', 'o', 'c', 'r', 'i', 'a', 'n']) {
        Some(Mode::Locrian)
    } else if word_ci(t, 0, seq!['m', 'i', 'x', 'o', 'l', 'y', 'd', 'i', 'a', 'n']) {
        Some(Mode::Mixolydian)
    } else if word_ci(t, 0, seq!['p', 'h', 'r', 'y', 'g', 'i', 'a', 'n']) {
        Some(Mode::Phrygian)
    } else if word_ci(t, 0, seq!['l', 'y', 'd', 'i', 'a', 'n']) {
        Some(Mode::Lydian)
    } else if pair_end(t, 0, seq!['p', 'e', 'n', 't', 'a', 't', 'o', 'n', 'i', 'c'], seq!['m', 'a', 'j', 'o', 'r']) is Some
        || pair_end(t, 0, seq!['p', 'e', 'n', 't'], seq!['m', 'a', 'j']) is Some {
        Some(Mode::PentatonicMajor)
    } else if pair_end(t, 0, seq!['p', 'e', 'n', 't', 'a', 't', 'o', 'n', 'i', 'c'], minor) is Some
        || pair_end(t, 0, seq!['p', 'e', 'n', 't'], seq!['m', 'i', 'n']) is Some {
        Some(Mode::PentatonicMinor)
    } else if word_ci(t, 0, seq!['b', 'l', 'u', 'e', 's']) {
        Some(Mode::Blues)
    } else if word_ci(t, 0, seq!['c', 'h', 'r', 'o', 'm', 'a', 't', 'i', 'c']) {
        Some(Mode::Chromatic)
    } else if pair_end(t, 0, seq!['w', 'h', 'o', 'l', 'e'], seq!['t', 'o', 'n', 'e']) is Some {
        Some(Mode::WholeTone)
    } else {
        None
    }
}

/// The characters of a string.
pub fn chars_of(s: &str) -> (r: Vec<char>)
    ensures
        r@ == s@,
{
    let n = s.unicode_len();
    let mut r: Vec<char> = Vec::new();
    let mut i: usize = 0;
    while i < n
        invariant
            n == s@.len(),
            i <= n,
            r@ == s@.subrange(0, i as int),
        decreases n - i,
    {
        r.push(s.get_char(i));
        i = i + 1;
        assert(r@ =~= s@.subrange(0, i as int));
    }
    assert(r@ =~= s@);
    r
}

/// The characters of `t` from `a` to `b`.
pub fn slice_of(t: &Vec<char>, a: usize, b: usize) -> (r: Vec<char>)
    requires
        a <= b <= t@.len(),
    ensures
        r@ == t@.subrange(a as int, b as int),
{
    let mut r: Vec<char> = Vec::new();
    let mut i: usize = a;
    while i < b
        invariant
            a <= i <= b,
            b <= t@.len(),
            r@ == t@.subrange(a as int, i as int),
        decreases b - i,
    {
        r.push(t[i]);
        i = i + 1;
        assert(r@ =~= t@.subrange(a as int, i as int));
    }
    r
}

fn space(c: char) -> (r: bool)
    ensures
        r == is_space(c),
{
    c == ' ' || c == '\t' || c == '\n' || c == '\r' || c == '\x0B' || c == '\x0C'
}

pub(crate) fn same_case_free(c: char, w: char) -> (r: bool)
    ensures
        r == same_ci(c, w),
{
    c == w || ('a' <= w && w <= 'z' && (c as u32) + 32 == w as u32)
}

/// Whether the lower-case word `w` stands in `t` at `i`, in any case.
fn word_at(t: &Vec<char>, i: usize, w: &[char]) -> (r: bool)
    ensures
        r == word_ci(t@, i as int, w@),
{
    if i > t.len() || w.len() > t.len() - i {
        return false;
    }
    let mut k: usize = 0;
    while k < w.len()
        invariant
            i + w@.len() <= t@.len(),
            t@.len() <= usize::MAX,
            k <= w@.len(),
            forall|j: int| 0 <= j < k ==> same_ci(#[trigger] t@[i + j], w@[j]),
        decreases w@.len() - k,
    {
        if !same_case_free(t[i + k], w[k]) {
            return false;
        }
        k = k + 1;
    }
    true
}

/// Whether `w` stands in `t` at `i`, exactly.
fn exact_at(t: &Vec<char>, i: usize, w: &[char]) -> (r: bool)
    ensures
        r == word_cs(t@, i as int, w@),
{
    if i > t.len() || w.len() > t.len() - i {
        return false;
    }
    let mut k: usize = 0;
    while k < w.len()
        invariant
            i + w@.len() <= t@.len(),
            t@.len() <= usize::MAX,
            k <= w@.len(),
            forall|j: int| 0 <= j < k ==> #[trigger] t@[i + j] == w@[j],
        decreases w@.len() - k,
    {
        if t[i + k] != w[k] {
            return false;
        }
        k = k + 1;
    }
    true
}

/// The first index at or after `i` that is not whitespace.
fn skip_spaces(t: &Vec<char>, i: usize) -> (r: usize)
    requires
        i <= t@.len(),
    ensures
        r as int == skip_ws(t@, i as int),
        i <= r <= t@.len(),
{
    let mut j = i;
    while j < t.len() && space(t[j])
        invariant
            i <= j <= t@.len(),
            skip_ws(t@, i as int) == skip_ws(t@, j as int),
        decreases t@.len() - j,
    {
        j = j + 1;
    }
    j
}

fn word_end_at(t: &Vec<char>, i: usize, w: &[char]) -> (r: Option<usize>)
    ensures
        opt_int(r) == word_end(t@, i as int, w@),
        r matches Some(e) ==> e <= t@.len(),
        match word_end(t@, i as int, w@) {
            Some(e) => r == Some(e as usize),
            None => r is None,
        },
{
    let n = t.len();
    if word_at(t, i, w) {
        Some(i + w.len())
    } else {
        None
    }
}

fn pair_end_at(t: &Vec<char>, i: usize, w1: &[char], w2: &[char]) -> (r: Option<usize>)
    ensures
        opt_int(r) == pair_end(t@, i as int, w1@, w2@),
        r matches Some(e) ==> e <= t@.len(),
        match pair_end(t@, i as int, w1@, w2@) {
            Some(e) => r == Some(e as usize),
            None => r is None,
        },
{
    let n = t.len();
    if !word_at(t, i, w1) {
        return None;
    }
    let j = skip_spaces(t, i + w1.len());
    if word_at(t, j, w2) {
        Some(j + w2.len())
    } else {
        None
    }
}

fn token_end_at(t: &Vec<char>, i: usize, w: &[char], exact_case: bool) -> (r: Option<usize>)
    ensures
        opt_int(r) == token_end(t@, i as int, w@, exact_case),
        r matches Some(e) ==> e <= t@.len(),
        match token_end(t@, i as int, w@, exact_case) {
            Some(e) => r == Some(e as usize),
            None => r is None,
        },
{
    let n = t.len();
    let found = if exact_case { exact_at(t, i, w) } else { word_at(t, i, w) };
    if !found {
        return None;
    }
    let e = i + w.len();
    if e == t.len() || space(t[e]) {
        Some(skip_spaces(t, e))
    } else {
        None
    }
}

fn find_word_from(t: &Vec<char>, w: &[char]) -> (r: Option<usize>)
    ensures
        match find_word(t@, 0, w@) {
            Some(p) => r == Some(p as usize),
            None => r is None,
        },
        r matches Some(p) ==> word_ci(t@, p as int, w@),
        opt_int(r) == find_word(t@, 0, w@),
{
    let mut i: usize = 0;
    while i < t.len()
        invariant
            i <= t@.len(),
            find_word(t@, 0, w@) == find_word(t@, i as int, w@),
        decreases t@.len() - i,
    {
        if word_at(t, i, w) {
            return Some(i);
        }
        i = i + 1;
    }
    if word_at(t, i, w) {
        return Some(i);
    }
    proof {
        reveal_with_fuel(find_word, 2);
    }
    None
}

fn find_pair_from(t: &Vec<char>, w1: &[char], w2: &[char]) -> (r: Option<usize>)
    ensures
        match find_pair(t@, 0, w1@, w2@) {
            Some(p) => r == Some(p as usize),
            None => r is None,
        },
        r matches Some(p) ==> pair_end(t@, p as int, w1@, w2@) is Some,
        opt_int(r) == find_pair(t@, 0, w1@, w2@),
{
    let mut i: usize = 0;
    while i < t.len()
        invariant
            i <= t@.len(),
            find_pair(t@, 0, w1@, w2@) == find_pair(t@, i as int, w1@, w2@),
        decreases t@.len() - i,
    {
        if pair_end_at(t, i, w1, w2).is_some() {
            return Some(i);
        }
        i = i + 1;
    }
    if pair_end_at(t, i, w1, w2).is_some() {
        return Some(i);
    }
    proof {
        reveal_with_fuel(find_pair, 2);
    }
    None
}

/// The text without leading and trailing whitespace.
pub fn trim(t: &Vec<char>) -> (r: Vec<char>)
    ensures
        r@ == trimmed(t@),
{
    let s = skip_spaces(t, 0);
    let mut e = t.len();
    while e > 0 && space(t[e - 1])
        invariant
            e <= t@.len(),
            trim_end(t@, t@.len() as int) == trim_end(t@, e as int),
        decreases e,
    {
        e = e - 1;
    }
    if s < e {
        slice_of(t, s, e)
    } else {
        Vec::new()
    }
}

pub proof fn lemma_sharp_total_monotone(g: Seq<char>, j: int, k: int)
    requires
        0 <= j <= k,
    ensures
        sharp_total(g, j) <= sharp_total(g, k),
    decreases k - j,
{
    if j < k {
        lemma_sharp_total_monotone(g, j, k - 1);
    }
}

pub proof fn lemma_flat_total_monotone(g: Seq<char>, j: int, k: int)
    requires
        0 <= j <= k,
    ensures
        flat_total(g, j) <= flat_total(g, k),
    decreases k - j,
{
    if j < k {
        lemma_flat_total_monotone(g, j, k - 1);
    }
}

fn letter_exec(c: char) -> (r: Option<NoteLetter>)
    ensures
        r == letter_of(c),
{
    if c == 'C' || c == 'c' {
        Some(NoteLetter::C)
    } else if c == 'D' || c == 'd' {
        Some(NoteLetter::D)
    } else if c == 'E' || c == 'e' {
        Some(NoteLetter::E)
    } else if c == 'F' || c == 'f' {
        Some(NoteLetter::F)
    } else if c == 'G' || c == 'g' {
        Some(NoteLetter::G)
    } else if c == 'A' || c == 'a' {
        Some(NoteLetter::A)
    } else if c == 'B' || c == 'b' {
        Some(NoteLetter::B)
    } else {
        None
    }
}

fn sharp_of(c: char) -> (r: u8)
    ensures
        r as int == sharp_value(c),
{
    if c == '#' || c == 's' || c == 'S' || c == '\u{266F}' {
        1
    } else if c == '\u{1D12A}' || c == 'x' {
        2
    } else {
        0
    }
}

fn flat_of(c: char) -> (r: u8)
    ensures
        r as int == flat_value(c),
{
    if c == 'b' || c == '\u{266D}' {
        1
    } else {
        0
    }
}

/// The pitch that a whole token names.
pub fn parse_pitch(s: &Vec<char>) -> (r: Option<Pitch>)
    ensures
        r == pitch_of_text(s@),
{
    if s.len() == 0 {
        return None;
    }
    let letter = match letter_exec(s[0]) {
        Some(l) => l,
        None => {
            return None;
        },
    };
    let ghost g = s@.drop_first();
    let n = s.len();
    if n == 1 {
        assert(g.len() == 0);
        return Some(Pitch { letter, accidental: 0 });
    }
    let sharps = sharp_of(s[1]) > 0;
    let mut acc: u8 = 0;
    let mut k: usize = 1;
    while k < n
        invariant
            n == s@.len(),
            g == s@.drop_first(),
            1 <= k <= n,
            acc as int == (if sharps { sharp_total(g, k - 1) } else { flat_total(g, k - 1) }),
            acc <= 128,
            sharps ==> forall|j: int| 0 <= j < k - 1 ==> sharp_value(#[trigger] g[j]) > 0,
            !sharps ==> forall|j: int| 0 <= j < k - 1 ==> flat_value(#[trigger] g[j]) > 0,
            sharps == (sharp_value(g[0]) > 0),
        decreases n - k,
    {
        let v = if sharps { sharp_of(s[k]) } else { flat_of(s[k]) };
        if v == 0 {
            proof {
                assert(g[k - 1] == s@[k as int]);
                assert(sharp_value(g[0]) > 0 ==> flat_value(g[0]) == 0);
                if sharps {
                    assert(!(sharp_value(g[k - 1]) > 0));
                    assert(!(flat_value(g[0]) > 0));
                } else {
                    assert(!(flat_value(g[k - 1]) > 0));
                    assert(!(sharp_value(g[0]) > 0));
                }
            }
            return None;
        }
        acc = acc + v;
        k = k + 1;
        if acc > 128 {
            proof {
                lemma_sharp_total_monotone(g, k - 1, g.len() as int);
                lemma_flat_total_monotone(g, k - 1, g.len() as int);
                assert(sharp_value(g[0]) > 0 ==> flat_value(g[0]) == 0);
            }
            return None;
        }
    }
    proof {
        assert(sharp_value(g[0]) > 0 ==> flat_value(g[0]) == 0);
    }
    if sharps {
        if acc > 127 {
            return None;
        }
        Some(Pitch { letter, accidental: acc as i8 })
    } else {
        Some(Pitch { letter, accidental: (0i16 - acc as i16) as i8 })
    }
}

fn glyph(c: char) -> (r: bool)
    ensures
        r == is_glyph(c),
{
    flat_of(c) > 0 || sharp_of(c) > 0
}

/// The pitch at the start of `t`, with the length of its token.
pub fn leading_pitch_of(t: &Vec<char>) -> (r: Option<(Pitch, usize)>)
    ensures
        r matches Some(x) ==> 1 <= x.1 <= t@.len(),
        leading_pitch(t@) matches Some(pe) ==> 1 <= pe.1 <= t@.len(),
        match leading_pitch(t@) {
            Some(pe) => r == Some((pe.0, pe.1 as usize)),
            None => r is None,
        },
{
    if t.len() == 0 || letter_exec(t[0]).is_none() {
        return None;
    }
    let mut e: usize = 1;
    while e < t.len() && glyph(t[e])
        invariant
            1 <= e <= t@.len(),
            glyph_run_end(t@, 1) == glyph_run_end(t@, e as int),
        decreases t@.len() - e,
    {
        e = e + 1;
    }
    let token = slice_of(t, 0, e);
    match parse_pitch(&token) {
        Some(p) => Some((p, e)),
        None => None,
    }
}

fn first_of(a: Option<usize>, b: Option<usize>) -> (r: Option<usize>)
    ensures
        opt_int(r) == either(opt_int(a), opt_int(b)),
        r is Some ==> (r == a || r == b),
        r == (if a is Some { a } else { b }),
{
    if a.is_some() { a } else { b }
}

/// The chord quality at the start of `t`, with the end of its match.
pub fn recognize_quality(t: &Vec<char>) -> (r: Option<(ChordQuality, usize)>)
    ensures
        quality_rule(t@) matches Some(qe) ==> r matches Some(x) && x.0 == qe.0 && x.1 as int == qe.1,
        r matches Some(x) ==> x.1 <= t@.len(),
        match quality_rule(t@) {
            Some(qe) => r == Some((qe.0, qe.1 as usize)),
            None => r is None,
        },
{
    proof {
        assert(['M']@ =~= seq!['M']);
        assert(['m']@ =~= seq!['m']);
        assert(['m', 'a', 'j']@ =~= seq!['m', 'a', 'j']);
        assert(['m', 'i', 'n']@ =~= seq!['m', 'i', 'n']);
        assert(['d', 'i', 'm', 'i', 'n', 'i', 's', 'h', 'e', 'd']@ =~= seq!['d', 'i', 'm', 'i', 'n', 'i', 's', 'h', 'e', 'd']);
        assert(['a', 'u', 'g', 'm', 'e', 'n', 't', 'e', 'd']@ =~= seq!['a', 'u', 'g', 'm', 'e', 'n', 't', 'e', 'd']);
        assert(['h', 'a', 'l', 'f']@ =~= seq!['h', 'a', 'l', 'f']);
        assert(['d', 'o', 'm', 'i', 'n', 'a', 'n', 't']@ =~= seq!['d', 'o', 'm', 'i', 'n', 'a', 'n', 't']);
        assert(['s', 'u', 's', '2']@ =~= seq!['s', 'u', 's', '2']);
        assert(['s', 'u', 's', '4']@ =~= seq!['s', 'u', 's', '4']);
        assert(['s', 'u', 's', 'p', 'e', 'n', 'd', 'e', 'd', '2']@ =~= seq!['s', 'u', 's', 'p', 'e', 'n', 'd', 'e', 'd', '2']);
        assert(['s', 'u', 's', 'p', 'e', 'n', 'd', 'e', 'd', '4']@ =~= seq!['s', 'u', 's', 'p', 'e', 'n', 'd', 'e', 'd', '4']);
    }
    let dim: &[char] = &['d', 'i', 'm', 'i', 'n', 'i', 's', 'h', 'e', 'd'];
    let major = first_of(token_end_at(t, 0, &['M'], true), word_end_at(t, 0, &['m', 'a', 'j']));
    if let Some(e) = major {
        return Some((ChordQuality::Major, e));
    }
    let minor = first_of(token_end_at(t, 0, &['m'], true), word_end_at(t, 0, &['m', 'i', 'n']));
    if let Some(e) = minor {
        return Some((ChordQuality::Minor, e));
    }
    if let Some(e) = word_end_at(t, 0, dim) {
        return Some((ChordQuality::Diminished, e));
    }
    if let Some(e) = word_end_at(t, 0, &['a', 'u', 'g', 'm', 'e', 'n', 't', 'e', 'd']) {
        return Some((ChordQuality::Augmented, e));
    }
    if let Some(e) = pair_end_at(t, 0, &['h', 'a', 'l', 'f'], dim) {
        return Some((ChordQuality::HalfDiminished, e));
    }
    if let Some(e) = word_end_at(t, 0, &['d', 'o', 'm', 'i', 'n', 'a', 'n', 't']) {
        return Some((ChordQuality::Dominant, e));
    }
    let sus2 = first_of(
        token_end_at(t, 0, &['s', 'u', 's', '2'], false),
        word_end_at(t, 0, &['s', 'u', 's', 'p', 'e', 'n', 'd', 'e', 'd', '2']),
    );
    if let Some(e) = sus2 {
        return Some((ChordQuality::Suspended2, e));
    }
    let sus4 = first_of(
        token_end_at(t, 0, &['s', 'u', 's', '4'], false),
        word_end_at(t, 0, &['s', 'u', 's', 'p', 'e', 'n', 'd', 'e', 'd', '4']),
    );
    if let Some(e) = sus4 {
        return Some((ChordQuality::Suspended4, e));
    }
    None
}

/// The chord number named anywhere in `t`, with the end of its first match.
fn kw_triad() -> (r: &'static [char])
    ensures
        r@ == seq!['t', 'r', 'i', 'a', 'd'],
{
    let r: &'static [char] = &['t', 'r', 'i', 'a', 'd'];
    assert(r@ =~= seq!['t', 'r', 'i', 'a', 'd']);
    r
}

fn kw_major() -> (r: &'static [char])
    ensures
        r@ == seq!['m', 'a', 'j', 'o', 'r'],
{
    let r: &'static [char] = &['m', 'a', 'j', 'o', 'r'];
    assert(r@ =~= seq!['m', 'a', 'j', 'o', 'r']);
    r
}

fn kw_seventh() -> (r: &'static [char])
    ensures
        r@ == seq!['s', 'e', 'v', 'e', 'n', 't', 'h'],
{
    let r: &'static [char] = &['s', 'e', 'v', 'e', 'n', 't', 'h'];
    assert(r@ =~= seq!['s', 'e', 'v', 'e', 'n', 't', 'h']);
    r
}

fn kw_ninth() -> (r: &'static [char])
    ensures
        r@ == seq!['n', 'i', 'n', 't', 'h'],
{
    let r: &'static [char] = &['n', 'i', 'n', 't', 'h'];
    assert(r@ =~= seq!['n', 'i', 'n', 't', 'h']);
    r
}

fn kw_eleventh() -> (r: &'static [char])
    ensures
        r@ == seq!['e', 'l', 'e', 'v', 'e', 'n', 't', 'h'],
{
    let r: &'static [char] = &['e', 'l', 'e', 'v', 'e', 'n', 't', 'h'];
    assert(r@ =~= seq!['e', 'l', 'e', 'v', 'e', 'n', 't', 'h']);
    r
}

fn kw_thirteenth() -> (r: &'static [char])
    ensures
        r@ == seq!['t', 'h', 'i', 'r', 't', 'e', 'e', 'n', 't', 'h'],
{
    let r: &'static [char] = &['t', 'h', 'i', 'r', 't', 'e', 'e', 'n', 't', 'h'];
    assert(r@ =~= seq!['t', 'h', 'i', 'r', 't', 'e', 'e', 'n', 't', 'h']);
    r
}

/// The chord number named anywhere in `t`, with the end of its first match.
pub fn recognize_number(t: &Vec<char>) -> (r: Option<(ChordNumber, usize)>)
    ensures
        match number_rule(t@) {
            Some(ne) => r == Some((ne.0, ne.1 as usize)),
            None => r is None,
        },
{
    let n = t.len();
    let triad = find_word_from(t, kw_triad());
    let ms = find_pair_from(t, kw_major(), kw_seventh());
    let ms_end = match ms {
        Some(p) => pair_end_at(t, p, kw_major(), kw_seventh()),
        None => None,
    };
    let seventh = find_word_from(t, kw_seventh());
    let ninth = find_word_from(t, kw_ninth());
    let eleventh = find_word_from(t, kw_eleventh());
    let thirteenth = find_word_from(t, kw_thirteenth());
    assert(number_rule(t@) == number_choice(opt_int(triad), opt_int(ms), opt_int(ms_end), opt_int(seventh), opt_int(ninth), opt_int(eleventh), opt_int(thirteenth)));
    if let Some(p) = triad {
        return Some((ChordNumber::Triad, p + 5));
    }
    if let Some(p) = ms {
        return match ms_end {
            Some(e) => Some((ChordNumber::MajorSeventh, e)),
            None => None,
        };
    }
    if let Some(p) = seventh {
        return Some((ChordNumber::Seventh, p + 7));
    }
    if let Some(p) = ninth {
        return Some((ChordNumber::Ninth, p + 5));
    }
    if let Some(p) = eleventh {
        return Some((ChordNumber::Eleventh, p + 8));
    }
    if let Some(p) = thirteenth {
        return Some((ChordNumber::Thirteenth, p + 10));
    }
    None
}

/// The scale mode that `t` names.
pub fn recognize_mode(t: &Vec<char>) -> (r: Option<Mode>)
    ensures
        r == mode_rule(t@),
{
    proof {
        assert(['M']@ =~= seq!['M']);
        assert(['m']@ =~= seq!['m']);
        assert(['m', 'a', 'j']@ =~= seq!['m', 'a', 'j']);
        assert(['i', 'o', 'n', 'i', 'a', 'n']@ =~= seq!['i', 'o', 'n', 'i', 'a', 'n']);
        assert(['h', 'a', 'r']@ =~= seq!['h', 'a', 'r']);
        assert(['h', 'a', 'r', 'm', 'o', 'n', 'i', 'c']@ =~= seq!['h', 'a', 'r', 'm', 'o', 'n', 'i', 'c']);
        assert(['m', 'i', 'n', 'o', 'r']@ =~= seq!['m', 'i', 'n', 'o', 'r']);
        assert(['m', 'e', 'l']@ =~= seq!['m', 'e', 'l']);
        assert(['m', 'e', 'l', 'o', 'd', 'i', 'c']@ =~= seq!['m', 'e', 'l', 'o', 'd', 'i', 'c']);
        assert(['m', 'i', 'n']@ =~= seq!['m', 'i', 'n']);
        assert(['a', 'e', 'o', 'l', 'i', 'a', 'n']@ =~= seq!['a', 'e', 'o', 'l', 'i', 'a', 'n']);
        assert(['d', 'o', 'r', 'i', 'a', 'n']@ =~= seq!['d', 'o', 'r', 'i', 'a', 'n']);
        assert(['l', 'o', 'c', 'r', 'i', 'a', 'n']@ =~= seq!['l', 'o', 'c', 'r', 'i', 'a', 'n']);
        assert(['m', 'i', 'x', 'o', 'l', 'y', 'd', 'i', 'a', 'n']@ =~= seq!['m', 'i', 'x', 'o', 'l', 'y', 'd', 'i', 'a', 'n']);
        assert(['p', 'h', 'r', 'y', 'g', 'i', 'a', 'n']@ =~= seq!['p', 'h', 'r', 'y', 'g', 'i', 'a', 'n']);
        assert(['l', 'y', 'd', 'i', 'a', 'n']@ =~= seq!['l', 'y', 'd', 'i', 'a', 'n']);
        assert(['p', 'e', 'n', 't', 'a', 't', 'o', 'n', 'i', 'c']@ =~= seq!['p', 'e', 'n', 't', 'a', 't', 'o', 'n', 'i', 'c']);
        assert(['m', 'a', 'j', 'o', 'r']@ =~= seq!['m', 'a', 'j', 'o', 'r']);
        assert(['p', 'e', 'n', 't']@ =~= seq!['p', 'e', 'n', 't']);
        assert(['b', 'l', 'u', 'e', 's']@ =~= seq!['b', 'l', 'u', 'e', 's']);
        assert(['c', 'h', 'r', 'o', 'm', 'a', 't', 'i', 'c']@ =~= seq!['c', 'h', 'r', 'o', 'm', 'a', 't', 'i', 'c']);
        assert(['w', 'h', 'o', 'l', 'e']@ =~= seq!['w', 'h', 'o', 'l', 'e']);
        assert(['t', 'o', 'n', 'e']@ =~= seq!['t', 'o', 'n', 'e']);
    }
    let minor: &[char] = &['m', 'i', 'n', 'o', 'r'];
    if first_of(token_end_at(t, 0, &['M'], true), first_of(word_end_at(t, 0, &['m', 'a', 'j']), word_end_at(t, 0, &['i', 'o', 'n', 'i', 'a', 'n']))).is_some() {
        return Some(Mode::Ionian);
    }
    if find_pair_from(t, &['h', 'a', 'r'], minor).is_some() || find_pair_from(t, &['h', 'a', 'r', 'm', 'o', 'n', 'i', 'c'], minor).is_some() {
        return Some(Mode::HarmonicMinor);
    }
    if find_pair_from(t, &['m', 'e', 'l'], minor).is_some() || find_pair_from(t, &['m', 'e', 'l', 'o', 'd', 'i', 'c'], minor).is_some() {
        return Some(Mode::MelodicMinor);
    }
    if first_of(token_end_at(t, 0, &['m'], true), first_of(word_end_at(t, 0, &['m', 'i', 'n']), word_end_at(t, 0, &['a', 'e', 'o', 'l', 'i', 'a', 'n']))).is_some() {
        return Some(Mode::Aeolian);
    }
    if word_at(t, 0, &['d', 'o', 'r', 'i', 'a', 'n']) {
        return Some(Mode::Dorian);
    }
    if word_at(t, 0, &['l', 'o', 'c', 'r', 'i', 'a', 'n']) {
        return Some(Mode::Locrian);
    }
    if word_at(t, 0, &['m', 'i', 'x', 'o', 'l', 'y', 'd', 'i', 'a', 'n']) {
        return Some(Mode::Mixolydian);
    }
    if word_at(t, 0, &['p', 'h', 'r', 'y', 'g', 'i', 'a', 'n']) {
        return Some(Mode::Phrygian);
    }
    if word_at(t, 0, &['l', 'y', 'd', 'i', 'a', 'n']) {
        return Some(Mode::Lydian);
    }
    if pair_end_at(t, 0, &['p', 'e', 'n', 't', 'a', 't', 'o', 'n', 'i', 'c'], &['m', 'a', 'j', 'o', 'r']).is_some() || pair_end_at(t, 0, &['p', 'e', 'n', 't'], &['m', 'a', 'j']).is_some() {
        return Some(Mode::PentatonicMajor);
    }
    if pair_end_at(t, 0, &['p', 'e', 'n', 't', 'a', 't', 'o', 'n', 'i', 'c'], minor).is_some() || pair_end_at(t, 0, &['p', 'e', 'n', 't'], &['m', 'i', 'n']).is_some() {
        return Some(Mode::PentatonicMinor);
    }
    if word_at(t, 0, &['b', 'l', 'u', 'e', 's']) {
        return Some(Mode::Blues);
    }
    if word_at(t, 0, &['c', 'h', 'r', 'o', 'm', 'a', 't', 'i', 'c']) {
        return Some(Mode::Chromatic);
    }
    if pair_end_at(t, 0, &['w', 'h', 'o', 'l', 'e'], &['t', 'o', 'n', 'e']).is_some() {
        return Some(Mode::WholeTone);
    }
    None
}

/// The first index at or after `i` that holds `c`.
pub open spec fn index_of(t: Seq<char>, c: char, i: int) -> Option<int>
    decreases t.len() - i,
{
    if i < 0 || i >= t.len() {
        None
    } else if t[i] == c {
        Some(i)
    } else {
        index_of(t, c, i + 1)
    }
}

/// The value of the first `k` decimal digits of `s`.
pub open spec fn decimal_value(s: Seq<char>, k: int) -> int
    decreases k,
{
    if k <= 0 {
        0
    } else {
        decimal_value(s, k - 1) * 10 + (s[k - 1] as u32 - '0' as u32)
    }
}

/// The number that `s` writes in decimal digits, if it fits a `u8`.
pub open spec fn small_number(s: Seq<char>) -> Option<int> {
    if s.len() > 0 && (forall|k: int| 0 <= k < s.len() ==> '0' <= #[trigger] s[k] && s[k] <= '9')
        && decimal_value(s, s.len() as int) <= 255 {
        Some(decimal_value(s, s.len() as int))
    } else {
        None
    }
}

pub proof fn lemma_decimal_monotone(s: Seq<char>, j: int, k: int)
    requires
        0 <= j <= k <= s.len(),
        forall|i: int| 0 <= i < s.len() ==> '0' <= #[trigger] s[i] && s[i] <= '9',
    ensures
        decimal_value(s, j) <= decimal_value(s, k),
        decimal_value(s, j) >= 0,
    decreases k - j,
{
    lemma_decimal_nonneg(s, j);
    if j < k {
        lemma_decimal_monotone(s, j, k - 1);
        lemma_decimal_nonneg(s, k - 1);
    }
}

pub proof fn lemma_decimal_nonneg(s: Seq<char>, j: int)
    requires
        0 <= j <= s.len(),
        forall|i: int| 0 <= i < s.len() ==> '0' <= #[trigger] s[i] && s[i] <= '9',
    ensures
        decimal_value(s, j) >= 0,
    decreases j,
{
    if j > 0 {
        lemma_decimal_nonneg(s, j - 1);
    }
}

/// The first index at or after `i` that holds `c`.
pub fn find_char(t: &Vec<char>, c: char, i: usize) -> (r: Option<usize>)
    ensures
        opt_int(r) == index_of(t@, c, i as int),
        r matches Some(j) ==> i <= j < t@.len(),
{
    let mut j = i;
    while j < t.len()
        invariant
            i <= j,
            index_of(t@, c, i as int) == index_of(t@, c, j as int),
        decreases t@.len() - j,
    {
        if t[j] == c {
            return Some(j);
        }
        j = j + 1;
    }
    None
}

/// The number that `t` writes in decimal digits, if it fits a `u8`.
pub fn parse_small_number(t: &Vec<char>) -> (r: Option<u8>)
    ensures
        small_number(t@) matches Some(v) ==> r == Some(v as u8) && 0 <= v <= 255,
        match small_number(t@) {
            Some(v) => r == Some(v as u8),
            None => r is None,
        },
{
    if t.len() == 0 {
        return None;
    }
    let mut k: usize = 0;
    while k < t.len()
        invariant
            k <= t@.len(),
            forall|i: int| 0 <= i < k ==> '0' <= #[trigger] t@[i] && t@[i] <= '9',
        decreases t@.len() - k,
    {
        if !('0' <= t[k] && t[k] <= '9') {
            return None;
        }
        k = k + 1;
    }
    let mut v: u16 = 0;
    let mut k: usize = 0;
    while k < t.len()
        invariant
            k <= t@.len(),
            forall|i: int| 0 <= i < t@.len() ==> '0' <= #[trigger] t@[i] && t@[i] <= '9',
            v as int == decimal_value(t@, k as int),
            v <= 255,
        decreases t@.len() - k,
    {
        let d = (t[k] as u32 - '0' as u32) as u16;
        v = v * 10 + d;
        k = k + 1;
        if v > 255 {
            proof {
                lemma_decimal_monotone(t@, k as int, t@.len() as int);
            }
            return None;
        }
    }
    proof {
        lemma_decimal_nonneg(t@, t@.len() as int);
    }
    Some(v as u8)
}

} // verus!
