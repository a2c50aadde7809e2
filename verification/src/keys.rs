//! Key estimation from chord roots and the key-colour timeline.
//!
//! Key indices: 0..11 are the major keys C..B, 12..23 the minor keys C..B.
//! The 24 candidates are tried in the order C major, C minor, C# major,
//! C# minor, ..., B minor; candidate `c` has root `c / 2` and is minor when
//! `c` is odd.

use vstd::prelude::*;
use crate::chords::{chord_root_index, chord_root_spec};

verus! {

/// Semitone intervals above the tonic that belong to the major (or natural
/// minor) scale.
pub open spec fn in_scale(minor: bool, interval: int) -> bool {
    if minor {
        interval == 0 || interval == 2 || interval == 3 || interval == 5 || interval == 7
            || interval == 8 || interval == 10
    } else {
        interval == 0 || interval == 2 || interval == 4 || interval == 5 || interval == 7
            || interval == 9 || interval == 11
    }
}

/// Whether pitch class `root` lies in the scale of candidate `cand`.
pub open spec fn fits_candidate(root: u8, cand: int) -> bool {
    in_scale(cand % 2 == 1, (root - cand / 2) % 12)
}

/// How many of `roots` lie in the scale of candidate `cand`.
pub open spec fn key_score(roots: Seq<u8>, cand: int) -> nat
    decreases roots.len(),
{
    if roots.len() == 0 {
        0
    } else {
        key_score(roots.drop_last(), cand) + if fits_candidate(roots.last(), cand) {
            1nat
        } else {
            0nat
        }
    }
}

/// The first of the candidates `0..n` whose score is the largest among them
/// (candidate 0 when `n` is 0).
pub open spec fn best_candidate(roots: Seq<u8>, n: int) -> int
    decreases n,
{
    if n <= 0 {
        0
    } else {
        let b = best_candidate(roots, n - 1);
        if key_score(roots, n - 1) > key_score(roots, b) {
            n - 1
        } else {
            b
        }
    }
}

/// Key index of candidate `cand`.
pub open spec fn candidate_key(cand: int) -> int {
    if cand % 2 == 1 {
        12 + cand / 2
    } else {
        cand / 2
    }
}

/// The roots of the labels that name a chord, in order.
pub open spec fn roots_of(labels: Seq<Seq<char>>) -> Seq<u8>
    decreases labels.len(),
{
    if labels.len() == 0 {
        Seq::empty()
    } else {
        let rest = roots_of(labels.drop_last());
        match chord_root_spec(labels.last()) {
            Some(r) => rest.push(r),
            None => rest,
        }
    }
}

/// The key index that the chord labels most likely belong to.
pub open spec fn estimated_key(labels: Seq<Seq<char>>) -> int {
    candidate_key(best_candidate(roots_of(labels), 24))
}

proof fn lemma_best_candidate_range(roots: Seq<u8>, n: int)
    ensures
        n <= 0 ==> best_candidate(roots, n) == 0,
        n > 0 ==> 0 <= best_candidate(roots, n) < n,
    decreases n,
{
    if n > 0 {
        lemma_best_candidate_range(roots, n - 1);
    }
}

/// The estimated key is the first candidate, in candidate order, whose score
/// is the highest of all 24.
pub proof fn law_best_candidate_is_first_maximum(roots: Seq<u8>, n: int)
    requires
        n > 0,
    ensures
        0 <= best_candidate(roots, n) < n,
        forall|d: int| 0 <= d < n ==> #[trigger] key_score(roots, d) <= key_score(roots, best_candidate(roots, n)),
        forall|d: int| 0 <= d < best_candidate(roots, n) ==> #[trigger] key_score(roots, d) < key_score(roots, best_candidate(roots, n)),
    decreases n,
{
    lemma_best_candidate_range(roots, n);
    if n > 1 {
        law_best_candidate_is_first_maximum(roots, n - 1);
    }
}

/// The scale of C major is C D E F G A B: pitch classes 0, 2, 4, 5, 7, 9 and
/// 11, and no others.
pub proof fn law_c_major_scale(root: u8)
    requires
        root < 12,
    ensures
        fits_candidate(root, 0) <==> (root == 0 || root == 2 || root == 4 || root == 5 || root == 7 || root
            == 9 || root == 11),
{
}

/// Every major scale is the C major scale moved up: raising both the key and
/// the root by a semitone keeps whether the root fits. The same holds of the
/// minor keys.
pub proof fn law_scales_transpose(root: u8, cand: int)
    requires
        root < 12,
        0 <= cand < 22,
    ensures
        fits_candidate(((root + 1) % 12) as u8, cand + 2) == fits_candidate(root, cand),
{
}

/// A minor key has the notes of its relative major, three semitones above its
/// tonic (A minor and C major, for instance).
pub proof fn law_minor_is_relative_major(root: u8, tonic: int)
    requires
        root < 12,
        0 <= tonic < 12,
    ensures
        fits_candidate(root, 2 * tonic + 1) == fits_candidate(root, 2 * ((tonic + 3) % 12)),
{
}

/// The score of a key counts the roots in its scale one by one: an empty run
/// scores 0, a single root scores 1 when it fits and 0 otherwise, and the score
/// of two runs put together is the sum of their scores.
pub proof fn law_score_counts_fitting_roots(a: Seq<u8>, b: Seq<u8>, root: u8, cand: int)
    ensures
        key_score(Seq::<u8>::empty(), cand) == 0,
        key_score(seq![root], cand) == (if fits_candidate(root, cand) {
            1nat
        } else {
            0nat
        }),
        key_score(a + b, cand) == key_score(a, cand) + key_score(b, cand),
    decreases b.len(),
{
    assert(seq![root].drop_last() =~= Seq::<u8>::empty());
    if b.len() > 0 {
        law_score_counts_fitting_roots(a, b.drop_last(), root, cand);
        assert((a + b).drop_last() =~= a + b.drop_last());
        assert((a + b).last() == b.last());
    } else {
        assert(a + b =~= a);
    }
}

/// Candidate `c` stands for the key with tonic `c / 2`, minor when `c` is odd:
/// its key index has that tonic as pitch class and lies in 12..23 exactly for
/// the minor keys.
pub proof fn law_candidate_key_names_tonic_and_mode(c: int)
    requires
        0 <= c < 24,
    ensures
        0 <= candidate_key(c) < 24,
        candidate_key(c) % 12 == c / 2,
        (candidate_key(c) >= 12) == (c % 2 == 1),
{
}

/// The roots of a run of labels are those of its parts, in order: a label
/// with a root adds it, any other label adds nothing.
pub proof fn law_roots_follow_labels(a: Seq<Seq<char>>, b: Seq<Seq<char>>, l: Seq<char>)
    ensures
        roots_of(seq![l]) == (match chord_root_spec(l) {
            Some(r) => seq![r],
            None => Seq::<u8>::empty(),
        }),
        roots_of(a + b) == roots_of(a) + roots_of(b),
    decreases b.len(),
{
    assert(seq![l].drop_last() =~= Seq::<Seq<char>>::empty());
    assert(seq![l].last() == l);
    assert(roots_of(Seq::<Seq<char>>::empty()) =~= Seq::<u8>::empty());
    assert(roots_of(seq![l]) =~= (match chord_root_spec(l) {
        Some(r) => seq![r],
        None => Seq::<u8>::empty(),
    }));
    if b.len() > 0 {
        law_roots_follow_labels(a, b.drop_last(), l);
        assert((a + b).drop_last() =~= a + b.drop_last());
        assert((a + b).last() == b.last());
        match chord_root_spec(b.last()) {
            Some(r) => {
                assert(roots_of(a) + roots_of(b) =~= (roots_of(a) + roots_of(b.drop_last())).push(r));
            },
            None => {},
        }
    } else {
        assert(a + b =~= a);
        assert(roots_of(a) + roots_of(b) =~= roots_of(a));
    }
}

/// The estimated key is one of the 24 keys whose scale holds the most roots of
/// the labels, and the first such key in the order C major, C minor, C# major,
/// C# minor, ..., B minor.
pub proof fn law_estimated_key_scores_highest(labels: Seq<Seq<char>>)
    ensures
        exists|c: int|
            0 <= c < 24 && candidate_key(c) == estimated_key(labels) && (forall|d: int|
                0 <= d < 24 ==> #[trigger] key_score(roots_of(labels), d) <= key_score(roots_of(labels), c))
                && (forall|d: int| 0 <= d < c ==> #[trigger] key_score(roots_of(labels), d) < key_score(
                roots_of(labels),
                c,
            )),
{
    let roots = roots_of(labels);
    law_best_candidate_is_first_maximum(roots, 24);
    let c = best_candidate(roots, 24);
    assert(candidate_key(c) == estimated_key(labels));
}

fn fits_major(interval: u8) -> (r: bool)
    ensures
        r == in_scale(false, interval as int),
{
    interval == 0 || interval == 2 || interval == 4 || interval == 5 || interval == 7 || interval == 9
        || interval == 11
}

fn fits_minor(interval: u8) -> (r: bool)
    ensures
        r == in_scale(true, interval as int),
{
    interval == 0 || interval == 2 || interval == 3 || interval == 5 || interval == 7 || interval == 8
        || interval == 10
}

/// Number of `roots` in the scale of candidate `cand`.
fn count_in_scale(roots: &Vec<u8>, cand: u8) -> (r: usize)
    requires
        cand < 24,
        forall|i: int| 0 <= i < roots@.len() ==> roots@[i] < 12,
    ensures
        r == key_score(roots@, cand as int),
{
    let key_root = cand / 2;
    let minor = cand % 2 == 1;
    let mut count: usize = 0;
    let mut i: usize = 0;
    while i < roots.len()
        invariant
            i <= roots@.len(),
            count <= i,
            cand < 24,
            key_root == cand / 2,
            minor == (cand % 2 == 1),
            forall|j: int| 0 <= j < roots@.len() ==> roots@[j] < 12,
            count == key_score(roots@.take(i as int), cand as int),
        decreases roots@.len() - i,
    {
        let r = roots[i];
        let interval: u8 = if r >= key_root {
            r - key_root
        } else {
            r + 12 - key_root
        };
        assert(interval as int == (r - cand / 2) % 12);
        let fits = if minor {
            fits_minor(interval)
        } else {
            fits_major(interval)
        };
        assert(roots@.take(i + 1).drop_last() =~= roots@.take(i as int));
        if fits {
            count = count + 1;
        }
        i = i + 1;
    }
    assert(roots@.take(i as int) =~= roots@);
    count
}

/// Picks the most likely key (0..11 major, 12..23 minor) for a window of chord
/// labels: every key is scored by how many chord roots lie in its scale, and
/// the first key with the highest score wins, in the order C major, C minor,
/// C# major, ... Labels without a root are ignored; with no roots at all the
/// result is 0 (C major).
pub fn score_keys(chord_labels: &[&str]) -> (r: u8)
    ensures
        r as int == estimated_key(chord_labels@.map_values(|l: &str| l@)),
        r < 24,
{
    let ghost labels = chord_labels@.map_values(|l: &str| l@);
    let mut roots: Vec<u8> = Vec::new();
    let mut i: usize = 0;
    while i < chord_labels.len()
        invariant
            i <= chord_labels@.len(),
            labels == chord_labels@.map_values(|l: &str| l@),
            roots@ == roots_of(labels.take(i as int)),
            forall|j: int| 0 <= j < roots@.len() ==> roots@[j] < 12,
        decreases chord_labels@.len() - i,
    {
        assert(labels.take(i + 1).drop_last() =~= labels.take(i as int));
        assert(labels.take(i + 1).last() == chord_labels@[i as int]@);
        match chord_root_index(chord_labels[i]) {
            Some(r) => roots.push(r),
            None => {},
        }
        i = i + 1;
    }
    assert(labels.take(i as int) =~= labels);
    let mut best_key: u8 = 0;
    let mut best_score: usize = 0;
    let mut cand: u8 = 0;
    while cand < 24
        invariant
            cand <= 24,
            forall|j: int| 0 <= j < roots@.len() ==> roots@[j] < 12,
            cand == 0 ==> best_score == 0,
            cand > 0 ==> best_score == key_score(roots@, best_candidate(roots@, cand as int)),
            best_key as int == candidate_key(best_candidate(roots@, cand as int)),
            best_key < 24,
        decreases 24 - cand,
    {
        proof {
            lemma_best_candidate_range(roots@, cand as int);
        }
        let score = count_in_scale(&roots, cand);
        if score > best_score {
            best_score = score;
            best_key = if cand % 2 == 1 {
                12 + cand / 2
            } else {
                cand / 2
            };
        }
        cand = cand + 1;
    }
    best_key
}

/// Position of a pitch class on the circle of fifths starting at C
/// (C, G, D, A, E, B, F#, Db, Ab, Eb, Bb, F).
pub open spec fn fifths_position(root: int) -> int {
    if root == 0 {
        0
    } else if root == 1 {
        7
    } else if root == 2 {
        2
    } else if root == 3 {
        9
    } else if root == 4 {
        4
    } else if root == 5 {
        11
    } else if root == 6 {
        6
    } else if root == 7 {
        1
    } else if root == 8 {
        8
    } else if root == 9 {
        3
    } else if root == 10 {
        10
    } else {
        5
    }
}

/// Hue of a key: major keys take 0..132 degrees and minor keys 200..332
/// degrees, 12 degrees apart along the circle of fifths.
pub open spec fn key_hue_spec(key_idx: int) -> int {
    let pos = fifths_position(key_idx % 12);
    if key_idx < 12 {
        pos * 12
    } else {
        200 + pos * 12
    }
}

fn fifths_position_of(root: u8) -> (r: u16)
    requires
        root < 12,
    ensures
        r as int == fifths_position(root as int),
        r < 12,
{
    match root {
        0 => 0,
        1 => 7,
        2 => 2,
        3 => 9,
        4 => 4,
        5 => 11,
        6 => 6,
        7 => 1,
        8 => 8,
        9 => 3,
        10 => 10,
        _ => 5,
    }
}

/// Colour hue in degrees (HSL H value) of a key index: warm hues 0..132 for
/// major keys, cool hues 200..332 for minor keys, ordered along the circle of
/// fifths so that related keys get close colours.
pub fn key_index_to_hue(key_idx: u8) -> (r: u16)
    ensures
        r as int == key_hue_spec(key_idx as int),
        key_idx < 12 ==> r <= 132,
        key_idx >= 12 ==> 200 <= r <= 332,
{
    let pos = fifths_position_of(key_idx % 12);
    if key_idx < 12 {
        pos * 12
    } else {
        200 + pos * 12
    }
}

/// Keys a fifth apart get hues 12 degrees apart (wrapping within the major
/// range 0..132 and the minor range 200..332): the colour wheel follows the
/// circle of fifths.
pub proof fn law_fifth_apart_keys_are_neighbours(root: int)
    requires
        0 <= root < 12,
    ensures
        fifths_position((root + 7) % 12) == (fifths_position(root) + 1) % 12,
        key_hue_spec((root + 7) % 12) == (key_hue_spec(root) + 12) % 144,
        key_hue_spec(12 + (root + 7) % 12) == 200 + (key_hue_spec(12 + root) - 200 + 12) % 144,
{
}

/// Without any chord root the estimate is C major (key 0).
pub proof fn law_no_roots_gives_c_major(labels: Seq<Seq<char>>)
    requires
        roots_of(labels).len() == 0,
    ensures
        estimated_key(labels) == 0,
{
    let roots = roots_of(labels);
    assert forall|n: int| 0 <= n <= 24 implies #[trigger] best_candidate(roots, n) == 0 by {
        lemma_best_candidate_zero(roots, n);
    }
}

proof fn lemma_best_candidate_zero(roots: Seq<u8>, n: int)
    requires
        roots.len() == 0,
    ensures
        best_candidate(roots, n) == 0,
    decreases n,
{
    if n > 0 {
        lemma_best_candidate_zero(roots, n - 1);
    }
}

/// A chord of the analysis as the key timeline reads it: whether it has a start
/// time, and its label if any.
#[derive(Debug)]
pub struct TimedChord {
    pub has_start: bool,
    pub label: Option<String>,
}

/// The labels present in a run of chords, in order.
pub open spec fn labels_of(chords: Seq<TimedChord>) -> Seq<Seq<char>>
    decreases chords.len(),
{
    if chords.len() == 0 {
        Seq::empty()
    } else {
        let rest = labels_of(chords.drop_last());
        match chords.last().label {
            Some(l) => rest.push(l@),
            None => rest,
        }
    }
}

/// The labels of a run of chords are those of its parts, in order: a chord
/// with a label adds it, a chord without one adds nothing.
pub proof fn law_labels_follow_chords(a: Seq<TimedChord>, b: Seq<TimedChord>, c: TimedChord)
    ensures
        labels_of(seq![c]) == (match c.label {
            Some(l) => seq![l@],
            None => Seq::<Seq<char>>::empty(),
        }),
        labels_of(a + b) == labels_of(a) + labels_of(b),
    decreases b.len(),
{
    assert(seq![c].drop_last() =~= Seq::<TimedChord>::empty());
    assert(seq![c].last() == c);
    assert(labels_of(Seq::<TimedChord>::empty()) =~= Seq::<Seq<char>>::empty());
    assert(labels_of(seq![c]) =~= (match c.label {
        Some(l) => seq![l@],
        None => Seq::<Seq<char>>::empty(),
    }));
    if b.len() > 0 {
        law_labels_follow_chords(a, b.drop_last(), c);
        assert((a + b).drop_last() =~= a + b.drop_last());
        assert((a + b).last() == b.last());
        match b.last().label {
            Some(l) => {
                assert(labels_of(a) + labels_of(b) =~= (labels_of(a) + labels_of(b.drop_last())).push(l@));
            },
            None => {},
        }
    } else {
        assert(a + b =~= a);
        assert(labels_of(a) + labels_of(b) =~= labels_of(a));
    }
}

/// First index of the scoring window around chord `i`: up to 8 chords before.
pub open spec fn window_start(i: int) -> int {
    if i >= 8 {
        i - 8
    } else {
        0
    }
}

/// End (exclusive) of the scoring window around chord `i`: up to 8 chords after.
pub open spec fn window_end(i: int, len: int) -> int {
    if i + 9 <= len {
        i + 9
    } else {
        len
    }
}

/// The key estimated for chord `i` from its window of up to 17 chords.
pub open spec fn key_at(chords: Seq<TimedChord>, i: int) -> int {
    estimated_key(labels_of(chords.subrange(window_start(i), window_end(i, chords.len() as int))))
}

/// The timeline built from the first `n` chords, with the key of its last
/// entry: a chord with a start time adds an entry (its index and the hue of its
/// key) when its key differs from the previous entry's key.
pub open spec fn timeline_upto(chords: Seq<TimedChord>, n: int) -> (Seq<(usize, u16)>, Option<int>)
    decreases n,
{
    if n <= 0 {
        (Seq::empty(), None)
    } else {
        let (entries, prev) = timeline_upto(chords, n - 1);
        let i = n - 1;
        if !chords[i].has_start {
            (entries, prev)
        } else if prev == Some(key_at(chords, i)) {
            (entries, prev)
        } else {
            (
                entries.push((i as usize, key_hue_spec(key_at(chords, i)) as u16)),
                Some(key_at(chords, i)),
            )
        }
    }
}

/// The key-colour timeline of a chord sequence.
pub open spec fn key_timeline_spec(chords: Seq<TimedChord>) -> Seq<(usize, u16)> {
    timeline_upto(chords, chords.len() as int).0
}

proof fn lemma_key_at_range(chords: Seq<TimedChord>, i: int)
    ensures
        0 <= key_at(chords, i) < 24,
{
    let roots = roots_of(labels_of(chords.subrange(window_start(i), window_end(i, chords.len() as int))));
    lemma_best_candidate_range(roots, 24);
}

proof fn lemma_key_hue_injective(a: int, b: int)
    requires
        0 <= a < 24,
        0 <= b < 24,
        a != b,
    ensures
        key_hue_spec(a) != key_hue_spec(b),
        0 <= key_hue_spec(a) <= 332,
{
}

proof fn lemma_timeline_shape(chords: Seq<TimedChord>, n: int)
    requires
        n <= chords.len(),
        chords.len() <= usize::MAX,
    ensures
        ({
            let (entries, prev) = timeline_upto(chords, n);
            &&& (entries.len() == 0) == (prev is None)
            &&& prev matches Some(k) ==> 0 <= k < 24 && entries.last().1 as int == key_hue_spec(k)
            &&& forall|e: int| 0 <= e < entries.len() ==> (#[trigger] entries[e]).0 < n
                && chords[entries[e].0 as int].has_start
            &&& forall|e: int| 0 < e < entries.len() ==> entries[e - 1].0 < (#[trigger] entries[e]).0
                && entries[e - 1].1 != entries[e].1
        }),
    decreases n,
{
    if n > 0 {
        lemma_timeline_shape(chords, n - 1);
        lemma_key_at_range(chords, n - 1);
        let (entries, prev) = timeline_upto(chords, n - 1);
        if chords[n - 1].has_start && prev != Some(key_at(chords, n - 1)) {
            let k2 = key_at(chords, n - 1);
            lemma_key_hue_injective(k2, (k2 + 1) % 24);
            if let Some(k) = prev {
                lemma_key_hue_injective(k, k2);
            }
            let new_entries = entries.push(((n - 1) as usize, key_hue_spec(k2) as u16));
            assert(new_entries.last().1 as int == key_hue_spec(k2));
            assert forall|e: int| 0 < e < new_entries.len() implies new_entries[e - 1].0 < (#[trigger] new_entries[e]).0
                && new_entries[e - 1].1 != new_entries[e].1 by {
                if e < new_entries.len() - 1 {
                    assert(new_entries[e] == entries[e]);
                    assert(new_entries[e - 1] == entries[e - 1]);
                } else {
                    assert(new_entries[e - 1] == entries.last());
                }
            }
        }
    }
}

/// Shape of the key timeline: entries come in strictly increasing chord order,
/// each belongs to a chord with a start time, and no two consecutive entries
/// carry the same hue (an entry is added only where the key changes).
pub proof fn law_timeline_entries_change_key(chords: Seq<TimedChord>)
    requires
        chords.len() <= usize::MAX,
    ensures
        forall|e: int| 0 <= e < key_timeline_spec(chords).len() ==> (#[trigger] key_timeline_spec(chords)[e]).0 < chords.len()
            && chords[key_timeline_spec(chords)[e].0 as int].has_start,
        forall|e: int| 0 < e < key_timeline_spec(chords).len() ==> key_timeline_spec(chords)[e - 1].0 < (#[trigger] key_timeline_spec(chords)[e]).0
            && key_timeline_spec(chords)[e - 1].1 != key_timeline_spec(chords)[e].1,
{
    lemma_timeline_shape(chords, chords.len() as int);
}

/// Along the circle of fifths (C, G, D, A, ...) the major keys take the hues
/// 0, 12, 24, ... degrees and the minor keys 200, 212, 224, ... degrees.
pub proof fn law_hue_follows_fifths(k: int)
    requires
        0 <= k < 12,
    ensures
        key_hue_spec((7 * k) % 12) == 12 * k,
        key_hue_spec(12 + (7 * k) % 12) == 200 + 12 * k,
{
    if k == 0 {
    } else if k == 1 {
    } else if k == 2 {
    } else if k == 3 {
    } else if k == 4 {
    } else if k == 5 {
    } else if k == 6 {
    } else if k == 7 {
    } else if k == 8 {
    } else if k == 9 {
    } else if k == 10 {
    } else {
    }
}

/// The key of chord `i` is estimated from the chords of its window: from 8
/// chords before it (or the first chord) to 8 chords after it (or the last
/// chord).
pub proof fn law_key_window(chords: Seq<TimedChord>, i: int)
    requires
        0 <= i < chords.len(),
    ensures
        key_at(chords, i) == estimated_key(
            labels_of(
                chords.subrange(
                    if i < 8 {
                        0
                    } else {
                        i - 8
                    },
                    if i + 9 > chords.len() {
                        chords.len() as int
                    } else {
                        i + 9
                    },
                ),
            ),
        ),
{
}

/// Entry `e` of `entries` is the last one that starts at or before chord `j`.
pub open spec fn last_entry_at(entries: Seq<(usize, u16)>, e: int, j: int) -> bool {
    &&& 0 <= e < entries.len()
    &&& entries[e].0 <= j
    &&& forall|x: int| e < x < entries.len() ==> (#[trigger] entries[x]).0 > j
}

proof fn lemma_timeline_complete(chords: Seq<TimedChord>, n: int)
    requires
        0 <= n <= chords.len(),
        chords.len() <= usize::MAX,
    ensures
        ({
            let (entries, prev) = timeline_upto(chords, n);
            &&& prev is None ==> forall|j: int| 0 <= j < n ==> !(#[trigger] chords[j]).has_start
            &&& prev matches Some(k) ==> forall|j: int|
                entries.last().0 <= j < n && (#[trigger] chords[j]).has_start ==> key_at(chords, j) == k
            &&& forall|j: int|
                0 <= j < n && (#[trigger] chords[j]).has_start ==> exists|e: int|
                    last_entry_at(entries, e, j) && (#[trigger] entries[e]).1 as int == key_hue_spec(
                        key_at(chords, j),
                    )
        }),
    decreases n,
{
    if n > 0 {
        let i = n - 1;
        lemma_timeline_complete(chords, i);
        lemma_timeline_shape(chords, i);
        let (entries, prev) = timeline_upto(chords, i);
        let (entries2, prev2) = timeline_upto(chords, n);
        if !chords[i].has_start {
            assert(entries2 == entries && prev2 == prev);
        } else if prev == Some(key_at(chords, i)) {
            assert(entries2 == entries && prev2 == prev);
            let last = entries.len() - 1;
            assert(last_entry_at(entries2, last, i));
        } else {
            let k2 = key_at(chords, i);
            lemma_key_at_range(chords, i);
            let new_e = (i as usize, key_hue_spec(k2) as u16);
            assert(entries2 == entries.push(new_e));
            assert(last_entry_at(entries2, entries.len() as int, i));
            assert forall|j: int| 0 <= j < n && (#[trigger] chords[j]).has_start implies exists|e: int|
                last_entry_at(entries2, e, j) && (#[trigger] entries2[e]).1 as int == key_hue_spec(
                    key_at(chords, j),
                ) by {
                if j < i {
                    let e = choose|e: int|
                        last_entry_at(entries, e, j) && (#[trigger] entries[e]).1 as int == key_hue_spec(
                            key_at(chords, j),
                        );
                    assert(entries2[e] == entries[e]);
                    assert forall|x: int| e < x < entries2.len() implies (#[trigger] entries2[x]).0 > j by {
                        if x < entries.len() {
                            assert(entries2[x] == entries[x]);
                        }
                    }
                    assert(last_entry_at(entries2, e, j));
                }
            }
        }
    }
}

/// What the key timeline says of every chord: each entry sits at a chord with
/// a start time and carries the hue of that chord's key, and every chord with
/// a start time has the hue of its own key in the last entry at or before it.
/// So an entry appears at the first chord with a start time and wherever the
/// key changes, and nowhere else, since consecutive entries differ.
pub proof fn law_timeline_follows_keys(chords: Seq<TimedChord>)
    requires
        chords.len() <= usize::MAX,
    ensures
        forall|e: int|
            0 <= e < key_timeline_spec(chords).len() ==> {
                let (i, hue) = #[trigger] key_timeline_spec(chords)[e];
                &&& chords[i as int].has_start
                &&& hue as int == key_hue_spec(key_at(chords, i as int))
            },
        forall|j: int|
            0 <= j < chords.len() && (#[trigger] chords[j]).has_start ==> exists|e: int|
                last_entry_at(key_timeline_spec(chords), e, j) && (#[trigger] key_timeline_spec(chords)[e]).1 as int
                    == key_hue_spec(key_at(chords, j)),
{
    lemma_timeline_complete(chords, chords.len() as int);
    lemma_timeline_shape(chords, chords.len() as int);
    let entries = key_timeline_spec(chords);
    assert forall|e: int| 0 <= e < entries.len() implies {
        let (i, hue) = #[trigger] entries[e];
        &&& chords[i as int].has_start
        &&& hue as int == key_hue_spec(key_at(chords, i as int))
    } by {
        let i = entries[e].0 as int;
        let x = choose|x: int|
            last_entry_at(entries, x, i) && (#[trigger] entries[x]).1 as int == key_hue_spec(key_at(chords, i));
        if x < e {
            lemma_entries_sorted(entries, x, e);
        } else if e < x {
            lemma_entries_sorted(entries, e, x);
        }
    }
}

proof fn lemma_entries_sorted(entries: Seq<(usize, u16)>, a: int, b: int)
    requires
        0 <= a < b < entries.len(),
        forall|e: int| 0 < e < entries.len() ==> entries[e - 1].0 < (#[trigger] entries[e]).0,
    ensures
        entries[a].0 < entries[b].0,
        b > a + 1 ==> entries[a + 1].0 <= entries[b].0,
    decreases b - a,
{
    if b > a + 1 {
        lemma_entries_sorted(entries, a + 1, b);
        assert(entries[a + 1].0 > entries[a].0);
    }
}

/// Builds the key-colour timeline of a chord sequence: each chord with a start
/// time is scored with the window of up to 8 chords before and 8 after it, and
/// an entry `(chord index, hue)` is added only where the estimated key changes.
/// The chord index stands for that chord's start time.
pub fn estimate_key_timeline(chords: &[TimedChord]) -> (r: Vec<(usize, u16)>)
    ensures
        r@ == key_timeline_spec(chords@),
{
    let mut result: Vec<(usize, u16)> = Vec::new();
    let mut prev_key: Option<u8> = None;
    let len = chords.len();
    let mut i: usize = 0;
    while i < len
        invariant
            len == chords@.len(),
            i <= len,
            ({
                let (entries, prev) = timeline_upto(chords@, i as int);
                &&& result@ == entries
                &&& match prev_key {
                    Some(k) => prev == Some(k as int),
                    None => prev is None,
                }
            }),
        decreases len - i,
    {
        if chords[i].has_start {
            let ws: usize = if i >= 8 {
                i - 8
            } else {
                0
            };
            let we: usize = if len - i >= 9 {
                i + 9
            } else {
                len
            };
            let ghost win = chords@.subrange(ws as int, we as int);
            let mut window: Vec<&str> = Vec::new();
            let mut j: usize = ws;
            while j < we
                invariant
                    ws <= j <= we,
                    we <= len,
                    len == chords@.len(),
                    win == chords@.subrange(ws as int, we as int),
                    window@.map_values(|l: &str| l@) == labels_of(win.take(j - ws)),
                decreases we - j,
            {
                assert(win.take(j + 1 - ws).drop_last() =~= win.take(j - ws));
                assert(win.take(j + 1 - ws).last() == chords@[j as int]);
                match &chords[j].label {
                    Some(l) => {
                        window.push(l.as_str());
                        assert(window@.map_values(|l: &str| l@) =~= labels_of(win.take(j - ws)).push(
                            chords@[j as int].label->0@,
                        ));
                    },
                    None => {},
                }
                j = j + 1;
            }
            assert(win.take(we - ws) =~= win);
            let key = score_keys(window.as_slice());
            let changed = match prev_key {
                Some(p) => p != key,
                None => true,
            };
            if changed {
                prev_key = Some(key);
                result.push((i, key_index_to_hue(key)));
            }
        }
        i = i + 1;
    }
    result
}

} // verus!
