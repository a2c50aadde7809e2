//! Song section labels ("intro", "verse", "chorus", ...): display colour,
//! visual energy, which sections are listed, roles in the visualization, and
//! the set of sections selected for looping.

use vstd::prelude::*;
use crate::text::{all_ascii, ascii_lowercase, lowercase, same_text, to_lowercase};

verus! {

/// Tailwind background class of a lower-cased section label.
pub open spec fn segment_color_spec(l: Seq<char>) -> Seq<char> {
    if l == "intro"@ {
        "bg-gray-500"@
    } else if l == "outro"@ {
        "bg-gray-400"@
    } else if l == "verse"@ {
        "bg-blue-600"@
    } else if l == "chorus"@ || l == "refrain"@ {
        "bg-orange-500"@
    } else if l == "bridge"@ {
        "bg-purple-600"@
    } else if l == "break"@ {
        "bg-teal-500"@
    } else if l == "solo"@ {
        "bg-yellow-500"@
    } else if l == "pre-chorus"@ || l == "prechorus"@ {
        "bg-amber-500"@
    } else {
        "bg-indigo-500"@
    }
}

/// Tailwind background colour class of a section label, compared without
/// regard to case. Always one of a fixed set of full class names, so that the
/// CSS generator can see them; unknown labels get "bg-indigo-500".
pub fn segment_color(label: &str) -> (r: &'static str)
    ensures
        r@ == segment_color_spec(lowercase(label@)),
        all_ascii(label@) ==> r@ == segment_color_spec(ascii_lowercase(label@)),
{
    let lower = to_lowercase(label);
    let l = lower.as_str();
    if same_text(l, "intro") {
        "bg-gray-500"
    } else if same_text(l, "outro") {
        "bg-gray-400"
    } else if same_text(l, "verse") {
        "bg-blue-600"
    } else if same_text(l, "chorus") || same_text(l, "refrain") {
        "bg-orange-500"
    } else if same_text(l, "bridge") {
        "bg-purple-600"
    } else if same_text(l, "break") {
        "bg-teal-500"
    } else if same_text(l, "solo") {
        "bg-yellow-500"
    } else if same_text(l, "pre-chorus") || same_text(l, "prechorus") {
        "bg-amber-500"
    } else {
        "bg-indigo-500"
    }
}

/// Visual (energy, density) of a lower-cased section label, in tenths.
pub open spec fn section_energy_spec(l: Seq<char>) -> (u8, u8) {
    if l == "intro"@ {
        (2, 2)
    } else if l == "verse"@ {
        (6, 5)
    } else if l == "chorus"@ || l == "refrain"@ {
        (12, 10)
    } else if l == "bridge"@ {
        (7, 4)
    } else if l == "outro"@ {
        (3, 2)
    } else if l == "break"@ {
        (5, 3)
    } else if l == "solo"@ {
        (9, 7)
    } else {
        (8, 6)
    }
}

/// Energy and particle density that a section drives in the visualization,
/// as tenths (12 means 1.2). Labels are compared without regard to case;
/// "pre-chorus" and unknown labels get (8, 6).
pub fn section_energy(label: &str) -> (r: (u8, u8))
    ensures
        r == section_energy_spec(lowercase(label@)),
        all_ascii(label@) ==> r == section_energy_spec(ascii_lowercase(label@)),
{
    let lower = to_lowercase(label);
    let l = lower.as_str();
    if same_text(l, "intro") {
        (2, 2)
    } else if same_text(l, "verse") {
        (6, 5)
    } else if same_text(l, "chorus") || same_text(l, "refrain") {
        (12, 10)
    } else if same_text(l, "bridge") {
        (7, 4)
    } else if same_text(l, "outro") {
        (3, 2)
    } else if same_text(l, "break") {
        (5, 3)
    } else if same_text(l, "solo") {
        (9, 7)
    } else {
        (8, 6)
    }
}

/// Whether a section is shown in section lists: every section but the
/// "start" and "end" markers (compared without regard to case).
pub fn is_listed_section(label: &str) -> (r: bool)
    ensures
        r == (lowercase(label@) != "start"@ && lowercase(label@) != "end"@),
        all_ascii(label@) ==> r == (ascii_lowercase(label@) != "start"@ && ascii_lowercase(label@) != "end"@),
{
    let lower = to_lowercase(label);
    !same_text(lower.as_str(), "start") && !same_text(lower.as_str(), "end")
}

/// `p` occurs in `s` as a run of consecutive characters.
pub open spec fn contains_text(s: Seq<char>, p: Seq<char>) -> bool {
    exists|i: int| 0 <= i && i + p.len() <= s.len() && #[trigger] s.subrange(i, i + p.len()) == p
}

/// Whether `pat` occurs in `s`.
pub fn text_contains(s: &str, pat: &str) -> (r: bool)
    ensures
        r == contains_text(s@, pat@),
{
    let n = s.unicode_len();
    let m = pat.unicode_len();
    if m > n {
        assert forall|i: int| 0 <= i && i + pat@.len() <= s@.len() implies #[trigger] s@.subrange(
            i,
            i + pat@.len(),
        ) != pat@ by {}
        return false;
    }
    if m == 0 {
        assert(s@.subrange(0, 0int + pat@.len()) =~= pat@);
        return true;
    }
    let mut i: usize = 0;
    while i <= n - m
        invariant
            n == s@.len(),
            m == pat@.len(),
            1 <= m <= n,
            i <= n - m + 1,
            forall|k: int| 0 <= k < i ==> #[trigger] s@.subrange(k, k + m) != pat@,
        decreases n - m + 1 - i,
    {
        let window = s.substring_char(i, i + m);
        if same_text(window, pat) {
            return true;
        }
        i = i + 1;
    }
    false
}

/// A lower-cased section label that counts as a chorus.
pub fn is_chorus_label(l: &str) -> (r: bool)
    ensures
        r == (l@ == "chorus"@ || l@ == "refrain"@),
{
    same_text(l, "chorus") || same_text(l, "refrain")
}

/// A lower-cased section label that counts as a bridge (or an instrumental).
pub fn is_bridge_label(l: &str) -> (r: bool)
    ensures
        r == (l@ == "bridge"@ || contains_text(l@, "inst"@)),
{
    same_text(l, "bridge") || text_contains(l, "inst")
}

/// A lower-cased section label that counts as a verse (or the run-up to a chorus).
pub fn is_verse_label(l: &str) -> (r: bool)
    ensures
        r == (l@ == "verse"@ || l@ == "pre-chorus"@ || l@ == "prechorus"@),
{
    same_text(l, "verse") || same_text(l, "pre-chorus") || same_text(l, "prechorus")
}

/// A lower-cased label of what follows the current section that marks the end
/// of the song: nothing, or an outro, ending or coda.
pub fn is_finale_label(l: &str) -> (r: bool)
    ensures
        r == (l@.len() == 0 || contains_text(l@, "outro"@) || contains_text(l@, "end"@)
            || contains_text(l@, "coda"@)),
{
    l.unicode_len() == 0 || text_contains(l, "outro") || text_contains(l, "end") || text_contains(
        l,
        "coda",
    )
}

/// Index of the first occurrence of `x` in `s` (only meaningful when present).
pub open spec fn first_index_of(s: Seq<u32>, x: u32) -> int {
    choose|i: int| 0 <= i < s.len() && s[i] == x && forall|j: int| 0 <= j < i ==> s[j] != x
}

/// The selection after toggling section `x`: its first occurrence is removed
/// when present, otherwise it is appended.
pub open spec fn toggled(s: Seq<u32>, x: u32) -> Seq<u32> {
    if s.contains(x) {
        s.remove(first_index_of(s, x))
    } else {
        s.push(x)
    }
}

/// Toggles section index `idx` in the list of selected sections: removes it
/// when selected, appends it otherwise.
pub fn toggle_selection(ids: &mut Vec<u32>, idx: u32)
    ensures
        final(ids)@ == toggled(old(ids)@, idx),
{
    let mut i: usize = 0;
    while i < ids.len()
        invariant
            i <= ids@.len(),
            ids@ == old(ids)@,
            forall|j: int| 0 <= j < i ==> ids@[j] != idx,
        decreases ids@.len() - i,
    {
        if ids[i] == idx {
            proof {
                let s = old(ids)@;
                assert(s.contains(idx));
                let f = first_index_of(s, idx);
                assert(0 <= f < s.len() && s[f] == idx && forall|j: int| 0 <= j < f ==> s[j] != idx);
                if f < i {
                    assert(false);
                } else if f > i {
                    assert(false);
                }
            }
            ids.remove(i);
            return;
        }
        i = i + 1;
    }
    proof {
        assert(!old(ids)@.contains(idx));
    }
    ids.push(idx);
}

/// No section index occurs twice.
pub open spec fn distinct_ids(s: Seq<u32>) -> bool {
    forall|i: int, j: int| 0 <= i < j < s.len() ==> s[i] != s[j]
}

proof fn lemma_first_index(s: Seq<u32>, x: u32)
    requires
        s.contains(x),
    ensures
        0 <= first_index_of(s, x) < s.len(),
        s[first_index_of(s, x)] == x,
        forall|j: int| 0 <= j < first_index_of(s, x) ==> s[j] != x,
{
    let k = choose|k: int| 0 <= k < s.len() && s[k] == x;
    assert(exists|i: int| 0 <= i < s.len() && s[i] == x && forall|j: int| 0 <= j < i ==> s[j] != x) by {
        lemma_least_index(s, x, k);
    }
}

proof fn lemma_least_index(s: Seq<u32>, x: u32, k: int)
    requires
        0 <= k < s.len(),
        s[k] == x,
    ensures
        exists|i: int| 0 <= i < s.len() && s[i] == x && forall|j: int| 0 <= j < i ==> s[j] != x,
    decreases k,
{
    if exists|j: int| 0 <= j < k && s[j] == x {
        let j = choose|j: int| 0 <= j < k && s[j] == x;
        lemma_least_index(s, x, j);
    } else {
        assert(forall|j: int| 0 <= j < k ==> s[j] != x);
    }
}

/// Toggling keeps a selection free of repeats, flips whether the section is
/// selected, and toggling the same section twice gives back the same set of
/// selected sections.
pub proof fn law_toggle_flips_membership(s: Seq<u32>, x: u32)
    requires
        distinct_ids(s),
    ensures
        distinct_ids(toggled(s, x)),
        toggled(s, x).contains(x) == !s.contains(x),
        forall|y: u32| y != x ==> (toggled(s, x).contains(y) == s.contains(y)),
        toggled(toggled(s, x), x).to_set() == s.to_set(),
{
    let t = toggled(s, x);
    if s.contains(x) {
        lemma_first_index(s, x);
        let f = first_index_of(s, x);
        assert(forall|i: int| 0 <= i < t.len() ==> t[i] == (if i < f { s[i] } else { s[i + 1] }));
        assert(!t.contains(x)) by {
            if t.contains(x) {
                let i = choose|i: int| 0 <= i < t.len() && t[i] == x;
                if i < f {
                } else {
                    assert(s[i + 1] == s[f]);
                }
            }
        }
        assert forall|y: u32| y != x implies (t.contains(y) == s.contains(y)) by {
            if s.contains(y) {
                let i = choose|i: int| 0 <= i < s.len() && s[i] == y;
                if i < f {
                    assert(t[i] == y);
                } else {
                    assert(i != f);
                    assert(t[i - 1] == y);
                }
            }
            if t.contains(y) {
                let i = choose|i: int| 0 <= i < t.len() && t[i] == y;
                if i < f {
                    assert(s[i] == y);
                } else {
                    assert(s[i + 1] == y);
                }
            }
        }
        let tt = toggled(t, x);
        assert(tt == t.push(x));
        assert(tt.to_set() =~= s.to_set()) by {
            assert forall|y: u32| tt.to_set().contains(y) == s.to_set().contains(y) by {
                if y == x {
                    assert(tt[tt.len() - 1] == x);
                } else {
                    if tt.contains(y) {
                        let i = choose|i: int| 0 <= i < tt.len() && tt[i] == y;
                        assert(i < t.len());
                        assert(t[i] == y);
                    }
                    if t.contains(y) {
                        let i = choose|i: int| 0 <= i < t.len() && t[i] == y;
                        assert(tt[i] == y);
                    }
                }
            }
        }
    } else {
        assert(t.last() == x);
        assert(t.contains(x));
        assert forall|y: u32| y != x implies (t.contains(y) == s.contains(y)) by {
            if s.contains(y) {
                let i = choose|i: int| 0 <= i < s.len() && s[i] == y;
                assert(t[i] == y);
            }
            if t.contains(y) {
                let i = choose|i: int| 0 <= i < t.len() && t[i] == y;
                assert(i < s.len());
                assert(s[i] == y);
            }
        }
        lemma_first_index(t, x);
        let f = first_index_of(t, x);
        assert(f == s.len()) by {
            if f < s.len() {
                assert(s[f] == x);
            }
        }
        let tt = toggled(t, x);
        assert(tt =~= s);
    }
}

} // verus!
