//! Chord labels in Harte notation ("C", "F#", "Bb:maj7", "A:min", "N"):
//! root pitch class, display text and colour hue.

use vstd::prelude::*;
use crate::text::{trim, trim_spec};

verus! {

/// A trimmed label that names no chord: empty, "N" or "N/A".
pub open spec fn is_no_chord(s: Seq<char>) -> bool {
    ||| s.len() == 0
    ||| s == seq!['N']
    ||| s == seq!['N', '/', 'A']
}

/// Pitch class (C = 0 .. B = 11) of a natural note letter.
pub open spec fn natural_pitch(c: char) -> Option<int> {
    if c == 'C' {
        Some(0)
    } else if c == 'D' {
        Some(2)
    } else if c == 'E' {
        Some(4)
    } else if c == 'F' {
        Some(5)
    } else if c == 'G' {
        Some(7)
    } else if c == 'A' {
        Some(9)
    } else if c == 'B' {
        Some(11)
    } else {
        None
    }
}

/// Semitone shift of the accidental that follows the root letter.
pub open spec fn accidental_shift(s: Seq<char>) -> int {
    if s.len() > 1 && s[1] == '#' {
        1
    } else if s.len() > 1 && s[1] == 'b' {
        -1
    } else {
        0
    }
}

/// Root pitch class of a chord label, `None` for "no chord" and for labels
/// that do not start with a note letter.
pub open spec fn chord_root_spec(label: Seq<char>) -> Option<u8> {
    let s = trim_spec(label);
    if is_no_chord(s) {
        None
    } else {
        match natural_pitch(s[0]) {
            Some(base) => Some(((base + accidental_shift(s)) % 12) as u8),
            None => None,
        }
    }
}

/// Whether a trimmed label names no chord.
pub fn no_chord(s: &str) -> (r: bool)
    ensures
        r == is_no_chord(s@),
{
    let n = s.unicode_len();
    if n == 0 {
        return true;
    }
    if n == 1 {
        let c = s.get_char(0);
        assert(c == 'N' ==> s@ =~= seq!['N']);
        return c == 'N';
    }
    if n == 3 {
        let c0 = s.get_char(0);
        let c1 = s.get_char(1);
        let c2 = s.get_char(2);
        assert((c0 == 'N' && c1 == '/' && c2 == 'A') ==> s@ =~= seq!['N', '/', 'A']);
        return c0 == 'N' && c1 == '/' && c2 == 'A';
    }
    false
}

fn natural_pitch_of(c: char) -> (r: Option<i8>)
    ensures
        match natural_pitch(c) {
            Some(p) => r == Some(p as i8),
            None => r is None,
        },
{
    match c {
        'C' => Some(0),
        'D' => Some(2),
        'E' => Some(4),
        'F' => Some(5),
        'G' => Some(7),
        'A' => Some(9),
        'B' => Some(11),
        _ => None,
    }
}

/// Root note of a chord label as a pitch class: 0 = C up to 11 = B.
/// "N", "N/A" and the empty label (after trimming) give `None`, as does a
/// label that does not start with one of the letters A to G. A following
/// `#` raises and a following `b` lowers the root by a semitone, wrapping
/// around the octave.
pub fn chord_root_index(label: &str) -> (r: Option<u8>)
    ensures
        r == chord_root_spec(label@),
        r matches Some(p) ==> p < 12,
{
    let s = trim(label);
    if no_chord(s) {
        return None;
    }
    let base = match natural_pitch_of(s.get_char(0)) {
        Some(b) => b,
        None => return None,
    };
    let n = s.unicode_len();
    let accidental: i8 = if n > 1 {
        let c = s.get_char(1);
        if c == '#' {
            1
        } else if c == 'b' {
            -1
        } else {
            0
        }
    } else {
        0
    };
    let v: i8 = base + accidental;
    let p: i8 = if v < 0 {
        v + 12
    } else if v >= 12 {
        v - 12
    } else {
        v
    };
    Some(p as u8)
}

/// Hue in degrees for the root letter of a chord label, or 220 for "no chord".
pub open spec fn chord_hue_spec(label: Seq<char>) -> u16 {
    let s = trim_spec(label);
    if is_no_chord(s) {
        220
    } else if s[0] == 'C' {
        0
    } else if s[0] == 'D' {
        40
    } else if s[0] == 'E' {
        70
    } else if s[0] == 'F' {
        130
    } else if s[0] == 'G' {
        180
    } else if s[0] == 'A' {
        240
    } else if s[0] == 'B' {
        300
    } else {
        220
    }
}

/// Colour hue (degrees, 0..360) for a chord label, chosen by its first letter;
/// labels without a chord, or starting with anything but A to G, get 220.
pub fn chord_hue(label: &str) -> (r: u16)
    ensures
        r == chord_hue_spec(label@),
        r < 360,
{
    let s = trim(label);
    if no_chord(s) {
        return 220;
    }
    match s.get_char(0) {
        'C' => 0,
        'D' => 40,
        'E' => 70,
        'F' => 130,
        'G' => 180,
        'A' => 240,
        'B' => 300,
        _ => 220,
    }
}

/// Number of characters of the root: the letter, plus a `#` or `b` after it.
pub open spec fn root_len(s: Seq<char>) -> int {
    if s.len() > 1 && (s[1] == '#' || s[1] == 'b') {
        2
    } else {
        1
    }
}

/// Chord quality text (what follows the root) that marks a minor chord:
/// starting with `m` but not `maj`, starting with `:min`, or exactly `:m`.
pub open spec fn is_minor_quality(q: Seq<char>) -> bool {
    ||| (q.len() >= 1 && q[0] == 'm' && !(q.len() >= 3 && q[1] == 'a' && q[2] == 'j'))
    ||| (q.len() >= 4 && q[0] == ':' && q[1] == 'm' && q[2] == 'i' && q[3] == 'n')
    ||| q == seq![':', 'm']
}

/// Display text of a chord label: the root, followed by `m` for a minor chord.
pub open spec fn chord_display_spec(label: Seq<char>) -> Seq<char> {
    let s = trim_spec(label);
    if is_no_chord(s) || !('A' <= s[0] && s[0] <= 'G') {
        Seq::empty()
    } else {
        let root = s.take(root_len(s));
        if is_minor_quality(s.skip(root_len(s))) {
            root.push('m')
        } else {
            root
        }
    }
}

/// Turns a Harte chord label into display text: "A:min" and "Am7" become
/// "Am", "F#:maj" becomes "F#", "Bb" stays "Bb". No chord, or a label that
/// does not start with A to G, gives the empty text.
pub fn format_chord_display(label: &str) -> (r: String)
    ensures
        r@ == chord_display_spec(label@),
{
    let s = trim(label);
    if no_chord(s) {
        return String::new();
    }
    let c0 = s.get_char(0);
    if !('A' <= c0 && c0 <= 'G') {
        return String::new();
    }
    let n = s.unicode_len();
    let mut i: usize = 1;
    if n > 1 {
        let c1 = s.get_char(1);
        if c1 == '#' || c1 == 'b' {
            i = 2;
        }
    }
    let ghost q = s@.skip(i as int);
    let q_len = n - i;
    // Minor: "m" but not "maj", ":min...", or exactly ":m".
    let mut minor = false;
    if q_len >= 1 && s.get_char(i) == 'm' {
        let is_maj = q_len >= 3 && s.get_char(i + 1) == 'a' && s.get_char(i + 2) == 'j';
        if !is_maj {
            minor = true;
        }
    }
    if q_len >= 4 && s.get_char(i) == ':' && s.get_char(i + 1) == 'm' && s.get_char(i + 2) == 'i'
        && s.get_char(i + 3) == 'n' {
        minor = true;
    }
    if q_len == 2 && s.get_char(i) == ':' && s.get_char(i + 1) == 'm' {
        assert(q =~= seq![':', 'm']);
        minor = true;
    }
    assert(q_len == 2 && q =~= seq![':', 'm'] ==> q[0] == ':' && q[1] == 'm');
    let root = s.substring_char(0, i);
    let mut out = String::from_str(root);
    if minor {
        out.append("m");
        proof {
            reveal_strlit("m");
        }
    }
    out
}

} // verus!
