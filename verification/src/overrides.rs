//! User edits of section labels: the edit history of a track and the labels
//! currently in force, keyed by the decimal text of the segment index.
//!
//! The labels in force are always what replaying the history gives: every
//! edit sets the label of its segment, later edits winning. Recording an edit
//! appends to the history; undoing drops the last edit and rebuilds the labels
//! in force from what remains.

use vstd::prelude::*;
use crate::text::{i64_to_decimal, signed_decimal};

verus! {

/// One label edit.
#[derive(Debug)]
pub struct HistoryEntry {
    pub timestamp: String,
    pub segment_index: i64,
    pub old_label: String,
    pub new_label: String,
}

/// One label in force: the segment key (decimal index) and its label.
#[derive(Debug)]
pub struct LabelOverride {
    pub key: String,
    pub label: String,
}

/// The overrides record of one track.
#[derive(Debug)]
pub struct SegmentOverrides {
    pub stem: String,
    pub updated_at: String,
    pub history: Vec<HistoryEntry>,
    /// Labels in force; no key occurs twice.
    pub current_overrides: Vec<LabelOverride>,
}

/// A segment of a track as far as labelling goes: its index and label.
#[derive(Debug)]
pub struct SegmentLabel {
    pub index: i64,
    pub label: String,
}

/// Key under which the label of segment `index` is stored.
pub open spec fn index_key(index: i64) -> Seq<char> {
    signed_decimal(index as int)
}

/// The map that a list of labels in force stands for.
pub open spec fn override_map(entries: Seq<LabelOverride>) -> Map<Seq<char>, Seq<char>>
    decreases entries.len(),
{
    if entries.len() == 0 {
        Map::empty()
    } else {
        override_map(entries.drop_last()).insert(entries.last().key@, entries.last().label@)
    }
}

/// No key occurs twice in a list of labels in force.
pub open spec fn keys_distinct(entries: Seq<LabelOverride>) -> bool {
    forall|i: int, j: int| 0 <= i < j < entries.len() ==> entries[i].key@ != entries[j].key@
}

/// Labels in force after replaying a history from nothing: each edit sets the
/// label of its segment.
pub open spec fn replay(history: Seq<HistoryEntry>) -> Map<Seq<char>, Seq<char>>
    decreases history.len(),
{
    if history.len() == 0 {
        Map::empty()
    } else {
        replay(history.drop_last()).insert(
            index_key(history.last().segment_index),
            history.last().new_label@,
        )
    }
}

/// Abstract value of an overrides record.
pub struct OverridesView {
    pub stem: Seq<char>,
    pub updated_at: Seq<char>,
    pub history: Seq<HistoryEntry>,
    pub current: Map<Seq<char>, Seq<char>>,
}

impl View for SegmentOverrides {
    type V = OverridesView;

    open spec fn view(&self) -> OverridesView {
        OverridesView {
            stem: self.stem@,
            updated_at: self.updated_at@,
            history: self.history@,
            current: override_map(self.current_overrides@),
        }
    }
}

impl OverridesView {
    /// The labels in force are those of the history.
    pub open spec fn consistent(self) -> bool {
        self.current == replay(self.history)
    }

    /// The record after an edit of segment `index` from `old_label` to `new_label`.
    pub open spec fn recorded(
        self,
        stem: Seq<char>,
        entry: HistoryEntry,
        updated_at: Seq<char>,
    ) -> OverridesView {
        OverridesView {
            stem: stem,
            updated_at: updated_at,
            history: self.history.push(entry),
            current: self.current.insert(index_key(entry.segment_index), entry.new_label@),
        }
    }

    /// The record after undoing its last edit (unchanged when there is none).
    pub open spec fn undone(self, updated_at: Seq<char>) -> OverridesView {
        if self.history.len() == 0 {
            self
        } else {
            OverridesView {
                stem: self.stem,
                updated_at: updated_at,
                history: self.history.drop_last(),
                current: replay(self.history.drop_last()),
            }
        }
    }
}

proof fn lemma_map_contains(s: Seq<LabelOverride>, k: Seq<char>)
    ensures
        override_map(s).contains_key(k) <==> exists|i: int| 0 <= i < s.len() && s[i].key@ == k,
    decreases s.len(),
{
    if s.len() > 0 {
        lemma_map_contains(s.drop_last(), k);
        if override_map(s.drop_last()).contains_key(k) {
            let i = choose|i: int| 0 <= i < s.drop_last().len() && s.drop_last()[i].key@ == k;
            assert(s[i].key@ == k);
        }
        if exists|i: int| 0 <= i < s.len() && s[i].key@ == k {
            let i = choose|i: int| 0 <= i < s.len() && s[i].key@ == k;
            if i < s.len() - 1 {
                assert(s.drop_last()[i].key@ == k);
            }
        }
    }
}

proof fn lemma_map_value(s: Seq<LabelOverride>, i: int)
    requires
        keys_distinct(s),
        0 <= i < s.len(),
    ensures
        override_map(s).contains_key(s[i].key@),
        override_map(s)[s[i].key@] == s[i].label@,
    decreases s.len(),
{
    if i < s.len() - 1 {
        assert(keys_distinct(s.drop_last()));
        lemma_map_value(s.drop_last(), i);
        assert(s.drop_last()[i] == s[i]);
        assert(s.last().key@ != s[i].key@);
    }
}

proof fn lemma_map_update(s: Seq<LabelOverride>, i: int, e: LabelOverride)
    requires
        keys_distinct(s),
        0 <= i < s.len(),
        e.key@ == s[i].key@,
    ensures
        override_map(s.update(i, e)) == override_map(s).insert(e.key@, e.label@),
        keys_distinct(s.update(i, e)),
    decreases s.len(),
{
    let t = s.update(i, e);
    if i == s.len() - 1 {
        assert(t.drop_last() =~= s.drop_last());
        assert(override_map(t) =~= override_map(s).insert(e.key@, e.label@));
    } else {
        assert(t.drop_last() =~= s.drop_last().update(i, e));
        assert(keys_distinct(s.drop_last()));
        lemma_map_update(s.drop_last(), i, e);
        assert(s.last().key@ != e.key@);
        assert(t.last() == s.last());
        assert(override_map(t) =~= override_map(s).insert(e.key@, e.label@));
    }
}

/// Position of the label stored under `key`, if any.
fn find_override(entries: &Vec<LabelOverride>, key: &String) -> (r: Option<usize>)
    requires
        keys_distinct(entries@),
    ensures
        match r {
            Some(i) => i < entries@.len() && entries@[i as int].key@ == key@
                && override_map(entries@).contains_key(key@)
                && override_map(entries@)[key@] == entries@[i as int].label@,
            None => !override_map(entries@).contains_key(key@),
        },
{
    let mut i: usize = 0;
    while i < entries.len()
        invariant
            i <= entries@.len(),
            keys_distinct(entries@),
            forall|j: int| 0 <= j < i ==> entries@[j].key@ != key@,
        decreases entries@.len() - i,
    {
        if entries[i].key == *key {
            proof {
                lemma_map_value(entries@, i as int);
            }
            return Some(i);
        }
        i = i + 1;
    }
    proof {
        lemma_map_contains(entries@, key@);
    }
    None
}

/// Sets the label stored under `key`, replacing an earlier one.
fn set_override(entries: &mut Vec<LabelOverride>, key: String, label: String)
    requires
        keys_distinct(old(entries)@),
    ensures
        keys_distinct(final(entries)@),
        override_map(final(entries)@) == override_map(old(entries)@).insert(key@, label@),
{
    match find_override(entries, &key) {
        Some(i) => {
            let ghost e = LabelOverride { key, label };
            proof {
                lemma_map_update(entries@, i as int, e);
            }
            entries.set(i, LabelOverride { key, label });
        },
        None => {
            proof {
                lemma_map_contains(entries@, key@);
            }
            entries.push(LabelOverride { key, label });
            proof {
                assert(entries@.drop_last() =~= old(entries)@);
            }
        },
    }
}

/// Rebuilds the labels in force by replaying a history: every edit sets the
/// label of its segment, later edits winning.
pub fn rebuild_overrides(history: &Vec<HistoryEntry>) -> (r: Vec<LabelOverride>)
    ensures
        keys_distinct(r@),
        override_map(r@) == replay(history@),
{
    let mut rebuilt: Vec<LabelOverride> = Vec::new();
    let mut i: usize = 0;
    while i < history.len()
        invariant
            i <= history@.len(),
            keys_distinct(rebuilt@),
            override_map(rebuilt@) == replay(history@.take(i as int)),
        decreases history@.len() - i,
    {
        assert(history@.take(i + 1).drop_last() =~= history@.take(i as int));
        let key = i64_to_decimal(history[i].segment_index);
        let label = history[i].new_label.clone();
        set_override(&mut rebuilt, key, label);
        i = i + 1;
    }
    assert(history@.take(i as int) =~= history@);
    rebuilt
}

impl SegmentOverrides {
    /// The record of a track without edits yet: its stem, no timestamp, no
    /// history and no labels in force.
    pub fn new(stem: String) -> (r: Self)
        ensures
            r.wf(),
            r@.stem == stem@,
            r@.updated_at.len() == 0,
            r@.history.len() == 0,
            r@.current == Map::<Seq<char>, Seq<char>>::empty(),
    {
        SegmentOverrides {
            stem,
            updated_at: String::new(),
            history: Vec::new(),
            current_overrides: Vec::new(),
        }
    }

    /// No key of the labels in force occurs twice.
    pub open spec fn wf(&self) -> bool {
        keys_distinct(self.current_overrides@)
    }

    /// The label in force for segment `segment_index`, if the user changed it.
    pub fn override_label(&self, segment_index: i64) -> (r: Option<String>)
        requires
            self.wf(),
        ensures
            match r {
                Some(l) => self@.current.contains_key(index_key(segment_index)) && l@
                    == self@.current[index_key(segment_index)],
                None => !self@.current.contains_key(index_key(segment_index)),
            },
    {
        let key = i64_to_decimal(segment_index);
        match find_override(&self.current_overrides, &key) {
            Some(i) => Some(self.current_overrides[i].label.clone()),
            None => None,
        }
    }

    /// Records that segment `segment_index` was relabelled from `old_label` to
    /// `new_label`: the stem and `updated_at` are set, the edit (stamped
    /// `entry_timestamp`) is appended to the history and the new label is put
    /// in force.
    pub fn record_label_change(
        &mut self,
        stem: String,
        segment_index: i64,
        old_label: String,
        new_label: String,
        updated_at: String,
        entry_timestamp: String,
    )
        requires
            old(self).wf(),
        ensures
            final(self).wf(),
            final(self)@ == old(self)@.recorded(
                stem@,
                HistoryEntry { timestamp: entry_timestamp, segment_index, old_label, new_label },
                updated_at@,
            ),
    {
        let key = i64_to_decimal(segment_index);
        let label = new_label.clone();
        self.stem = stem;
        self.updated_at = updated_at;
        self.history.push(HistoryEntry { timestamp: entry_timestamp, segment_index, old_label, new_label });
        set_override(&mut self.current_overrides, key, label);
    }

    /// Undoes the last label edit: returns `false` and changes nothing when the
    /// history is empty; otherwise drops the last edit, sets `updated_at` and
    /// rebuilds the labels in force from the remaining history.
    pub fn undo_last_change(&mut self, updated_at: String) -> (r: bool)
        requires
            old(self).wf(),
        ensures
            final(self).wf(),
            r == (old(self)@.history.len() > 0),
            final(self)@ == old(self)@.undone(updated_at@),
    {
        if self.history.len() == 0 {
            return false;
        }
        self.history.pop();
        self.updated_at = updated_at;
        self.current_overrides = rebuild_overrides(&self.history);
        true
    }

    /// Puts the labels in force onto the segments of a track: a segment whose
    /// index has a label in force takes that label, the others keep theirs.
    pub fn apply_to_segments(&self, segments: &mut Vec<SegmentLabel>)
        requires
            self.wf(),
        ensures
            final(segments)@.len() == old(segments)@.len(),
            forall|i: int| #![trigger final(segments)@[i]] 0 <= i < final(segments)@.len() ==> {
                let k = index_key(old(segments)@[i].index);
                &&& final(segments)@[i].index == old(segments)@[i].index
                &&& final(segments)@[i].label@ == if self@.current.contains_key(k) {
                    self@.current[k]
                } else {
                    old(segments)@[i].label@
                }
            },
    {
        let mut i: usize = 0;
        while i < segments.len()
            invariant
                self.wf(),
                i <= segments@.len(),
                segments@.len() == old(segments)@.len(),
                forall|j: int| #![trigger segments@[j]] i <= j < segments@.len() ==> segments@[j] == old(segments)@[j],
                forall|j: int| #![trigger segments@[j]] 0 <= j < i ==> {
                    let k = index_key(old(segments)@[j].index);
                    &&& segments@[j].index == old(segments)@[j].index
                    &&& segments@[j].label@ == if self@.current.contains_key(k) {
                        self@.current[k]
                    } else {
                        old(segments)@[j].label@
                    }
                },
            decreases segments@.len() - i,
        {
            let index = segments[i].index;
            match self.override_label(index) {
                Some(l) => {
                    segments.set(i, SegmentLabel { index, label: l });
                },
                None => {},
            }
            i = i + 1;
        }
    }
}

/// Label of the first segment with index `segment_index`, or empty when no
/// segment has it.
pub open spec fn base_label_spec(segments: Seq<SegmentLabel>, segment_index: i64) -> Seq<char>
    decreases segments.len(),
{
    if segments.len() == 0 {
        Seq::empty()
    } else if segments[0].index == segment_index {
        segments[0].label@
    } else {
        base_label_spec(segments.drop_first(), segment_index)
    }
}

/// The label that the analysis itself gives segment `segment_index`: that of
/// the first segment with this index, or the empty label.
pub fn base_label(segments: &[SegmentLabel], segment_index: i64) -> (r: String)
    ensures
        r@ == base_label_spec(segments@, segment_index),
{
    let mut i: usize = 0;
    assert(segments@.skip(0) =~= segments@);
    while i < segments.len()
        invariant
            i <= segments@.len(),
            base_label_spec(segments@.skip(i as int), segment_index) == base_label_spec(segments@, segment_index),
        decreases segments@.len() - i,
    {
        if segments[i].index == segment_index {
            return segments[i].label.clone();
        }
        assert(segments@.skip(i as int).drop_first() =~= segments@.skip(i + 1));
        i = i + 1;
    }
    String::new()
}

/// Recording an edit keeps the labels in force equal to the replayed history.
pub proof fn law_record_keeps_consistency(v: OverridesView, stem: Seq<char>, entry: HistoryEntry, updated_at: Seq<char>)
    requires
        v.consistent(),
    ensures
        v.recorded(stem, entry, updated_at).consistent(),
{
    assert(v.history.push(entry).drop_last() =~= v.history);
}

/// Undoing always leaves the labels in force equal to the replayed history.
pub proof fn law_undo_restores_consistency(v: OverridesView, updated_at: Seq<char>)
    requires
        v.history.len() > 0,
    ensures
        v.undone(updated_at).consistent(),
{
}

/// Undoing right after recording an edit gives back the history and the labels
/// in force from before the edit.
pub proof fn law_undo_reverts_record(
    v: OverridesView,
    stem: Seq<char>,
    entry: HistoryEntry,
    t1: Seq<char>,
    t2: Seq<char>,
)
    requires
        v.consistent(),
    ensures
        v.recorded(stem, entry, t1).undone(t2).history == v.history,
        v.recorded(stem, entry, t1).undone(t2).current == v.current,
        v.recorded(stem, entry, t1).undone(t2).stem == stem,
        v.recorded(stem, entry, t1).undone(t2).updated_at == t2,
{
    assert(v.history.push(entry).drop_last() =~= v.history);
}

/// Undoing with an empty history changes nothing.
pub proof fn law_undo_without_history_is_noop(v: OverridesView, updated_at: Seq<char>)
    requires
        v.history.len() == 0,
    ensures
        v.undone(updated_at) == v,
{
}

/// A segment has a label in force exactly when some edit of the history
/// concerns it, and the label is that of its last edit.
pub proof fn law_replay_last_edit_wins(history: Seq<HistoryEntry>, k: Seq<char>)
    ensures
        replay(history).contains_key(k) <==> exists|i: int| 0 <= i < history.len() && #[trigger] index_key(history[i].segment_index) == k,
        forall|i: int| 0 <= i < history.len() && #[trigger] index_key(history[i].segment_index) == k
            && (forall|j: int| i < j < history.len() ==> index_key(history[j].segment_index) != k)
            ==> replay(history)[k] == history[i].new_label@,
    decreases history.len(),
{
    if history.len() > 0 {
        let h = history.drop_last();
        law_replay_last_edit_wins(h, k);
        if exists|i: int| 0 <= i < history.len() && #[trigger] index_key(history[i].segment_index) == k {
            let i = choose|i: int| 0 <= i < history.len() && #[trigger] index_key(history[i].segment_index) == k;
            if i < history.len() - 1 {
                assert(index_key(h[i].segment_index) == k);
            }
        }
        if replay(h).contains_key(k) {
            let i = choose|i: int| 0 <= i < h.len() && #[trigger] index_key(h[i].segment_index) == k;
            assert(index_key(history[i].segment_index) == k);
        }
        assert forall|i: int| 0 <= i < history.len() && #[trigger] index_key(history[i].segment_index) == k
            && (forall|j: int| i < j < history.len() ==> index_key(history[j].segment_index) != k)
            implies replay(history)[k] == history[i].new_label@ by {
            if i < history.len() - 1 {
                assert(index_key(h[i].segment_index) == k);
                assert forall|j: int| i < j < h.len() implies index_key(h[j].segment_index) != k by {
                    assert(h[j] == history[j]);
                }
            }
        }
    }
}

/// After an edit is recorded, its segment carries the new label, and every
/// other segment key keeps the label it had.
pub proof fn law_recorded_label_is_in_force(
    v: OverridesView,
    stem: Seq<char>,
    entry: HistoryEntry,
    updated_at: Seq<char>,
    other: Seq<char>,
)
    requires
        other != index_key(entry.segment_index),
    ensures
        v.recorded(stem, entry, updated_at).current.contains_key(index_key(entry.segment_index)),
        v.recorded(stem, entry, updated_at).current[index_key(entry.segment_index)] == entry.new_label@,
        v.recorded(stem, entry, updated_at).current.contains_key(other) == v.current.contains_key(other),
        v.recorded(stem, entry, updated_at).current[other] == v.current[other],
{
}

} // verus!
