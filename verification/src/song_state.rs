//! Per-song page state: the audio settings remembered for each song (saved
//! when leaving a song, restored when coming back), and the loop zone and
//! section selection that belong to the song being played.

use vstd::prelude::*;

verus! {

/// Settings remembered per song, keyed by the song's stem.
pub struct SongCache<S> {
    /// (stem, settings) pairs; no stem occurs twice.
    pub entries: Vec<(String, S)>,
}

/// The map that a list of (stem, settings) pairs stands for.
pub open spec fn song_map<S>(entries: Seq<(String, S)>) -> Map<Seq<char>, S>
    decreases entries.len(),
{
    if entries.len() == 0 {
        Map::empty()
    } else {
        song_map(entries.drop_last()).insert(entries.last().0@, entries.last().1)
    }
}

/// No stem occurs twice.
pub open spec fn stems_distinct<S>(entries: Seq<(String, S)>) -> bool {
    forall|i: int, j: int| 0 <= i < j < entries.len() ==> entries[i].0@ != entries[j].0@
}

/// The cache after leaving song `old_stem` with settings `current`: they are
/// remembered for it, unless no song was loaded (empty stem).
pub open spec fn saved_on_leave<S>(m: Map<Seq<char>, S>, old_stem: Seq<char>, current: S) -> Map<Seq<char>, S> {
    if old_stem.len() == 0 {
        m
    } else {
        m.insert(old_stem, current)
    }
}

/// The settings for entering song `new_stem`: those remembered for it, or the
/// defaults.
pub open spec fn restored_on_enter<S>(m: Map<Seq<char>, S>, new_stem: Seq<char>, default: S) -> S {
    if m.contains_key(new_stem) {
        m[new_stem]
    } else {
        default
    }
}

impl<S> View for SongCache<S> {
    type V = Map<Seq<char>, S>;

    open spec fn view(&self) -> Map<Seq<char>, S> {
        song_map(self.entries@)
    }
}

proof fn lemma_song_map_contains<S>(s: Seq<(String, S)>, k: Seq<char>)
    ensures
        song_map(s).contains_key(k) <==> exists|i: int| 0 <= i < s.len() && s[i].0@ == k,
    decreases s.len(),
{
    if s.len() > 0 {
        lemma_song_map_contains(s.drop_last(), k);
        if song_map(s.drop_last()).contains_key(k) {
            let i = choose|i: int| 0 <= i < s.drop_last().len() && s.drop_last()[i].0@ == k;
            assert(s[i].0@ == k);
        }
        if exists|i: int| 0 <= i < s.len() && s[i].0@ == k {
            let i = choose|i: int| 0 <= i < s.len() && s[i].0@ == k;
            if i < s.len() - 1 {
                assert(s.drop_last()[i].0@ == k);
            }
        }
    }
}

proof fn lemma_song_map_value<S>(s: Seq<(String, S)>, i: int)
    requires
        stems_distinct(s),
        0 <= i < s.len(),
    ensures
        song_map(s).contains_key(s[i].0@),
        song_map(s)[s[i].0@] == s[i].1,
    decreases s.len(),
{
    if i < s.len() - 1 {
        assert(stems_distinct(s.drop_last()));
        lemma_song_map_value(s.drop_last(), i);
        assert(s.drop_last()[i] == s[i]);
    }
}

proof fn lemma_song_map_update<S>(s: Seq<(String, S)>, i: int, e: (String, S))
    requires
        stems_distinct(s),
        0 <= i < s.len(),
        e.0@ == s[i].0@,
    ensures
        song_map(s.update(i, e)) == song_map(s).insert(e.0@, e.1),
        stems_distinct(s.update(i, e)),
    decreases s.len(),
{
    let t = s.update(i, e);
    if i == s.len() - 1 {
        assert(t.drop_last() =~= s.drop_last());
        assert(song_map(t) =~= song_map(s).insert(e.0@, e.1));
    } else {
        assert(t.drop_last() =~= s.drop_last().update(i, e));
        assert(stems_distinct(s.drop_last()));
        lemma_song_map_update(s.drop_last(), i, e);
        assert(t.last() == s.last());
        assert(song_map(t) =~= song_map(s).insert(e.0@, e.1));
    }
}

impl<S: Copy> SongCache<S> {
    /// An empty cache.
    pub fn new() -> (r: Self)
        ensures
            r.wf(),
            r@ == Map::<Seq<char>, S>::empty(),
    {
        SongCache { entries: Vec::new() }
    }

    /// No stem occurs twice.
    pub open spec fn wf(&self) -> bool {
        stems_distinct(self.entries@)
    }

    fn find(&self, stem: &str) -> (r: Option<usize>)
        requires
            self.wf(),
        ensures
            match r {
                Some(i) => i < self.entries@.len() && self.entries@[i as int].0@ == stem@
                    && self@.contains_key(stem@) && self@[stem@] == self.entries@[i as int].1,
                None => !self@.contains_key(stem@),
            },
    {
        let key = String::from_str(stem);
        let mut i: usize = 0;
        while i < self.entries.len()
            invariant
                i <= self.entries@.len(),
                stems_distinct(self.entries@),
                key@ == stem@,
                forall|j: int| 0 <= j < i ==> self.entries@[j].0@ != stem@,
            decreases self.entries@.len() - i,
        {
            if self.entries[i].0 == key {
                proof {
                    lemma_song_map_value(self.entries@, i as int);
                }
                return Some(i);
            }
            i = i + 1;
        }
        proof {
            lemma_song_map_contains(self.entries@, stem@);
        }
        None
    }

    /// The settings remembered for `stem`, if any.
    pub fn get(&self, stem: &str) -> (r: Option<S>)
        requires
            self.wf(),
        ensures
            r == (if self@.contains_key(stem@) {
                Some(self@[stem@])
            } else {
                None
            }),
    {
        match self.find(stem) {
            Some(i) => Some(self.entries[i].1),
            None => None,
        }
    }

    /// Remembers `value` for `stem`, replacing what was remembered before.
    pub fn remember(&mut self, stem: &str, value: S)
        requires
            old(self).wf(),
        ensures
            final(self).wf(),
            final(self)@ == old(self)@.insert(stem@, value),
    {
        match self.find(stem) {
            Some(i) => {
                let ghost e = (self.entries@[i as int].0, value);
                proof {
                    lemma_song_map_update(self.entries@, i as int, e);
                }
                let name = self.entries[i].0.clone();
                self.entries.set(i, (name, value));
            },
            None => {
                proof {
                    lemma_song_map_contains(self.entries@, stem@);
                }
                self.entries.push((String::from_str(stem), value));
                proof {
                    assert(self.entries@.drop_last() =~= old(self).entries@);
                }
            },
        }
    }

    /// Switching from song `old_stem` to song `new_stem`: the settings in use
    /// (`current`) are remembered for the old song unless its stem is empty (no
    /// song was loaded); the result is what is remembered for the new song, or
    /// `default` when nothing is.
    pub fn switch_song(&mut self, old_stem: &str, new_stem: &str, current: S, default: S) -> (r: S)
        requires
            old(self).wf(),
        ensures
            final(self).wf(),
            final(self)@ == saved_on_leave(old(self)@, old_stem@, current),
            r == restored_on_enter(final(self)@, new_stem@, default),
    {
        if old_stem.unicode_len() != 0 {
            self.remember(old_stem, current);
        }
        match self.get(new_stem) {
            Some(v) => v,
            None => default,
        }
    }
}

/// Leaving song `a` for song `b` and coming back to `a` gives back the
/// settings that were in use when `a` was left.
pub proof fn law_switch_back_restores<S>(
    m: Map<Seq<char>, S>,
    a: Seq<char>,
    b: Seq<char>,
    in_use_a: S,
    in_use_b: S,
    default: S,
)
    requires
        a.len() > 0,
        a != b,
    ensures
        ({
            let m1 = saved_on_leave(m, a, in_use_a);
            let m2 = saved_on_leave(m1, b, in_use_b);
            restored_on_enter(m2, a, default) == in_use_a
        }),
{
}

/// Entering a song that was never left before gives the defaults.
pub proof fn law_unknown_song_gets_defaults<S>(m: Map<Seq<char>, S>, stem: Seq<char>, default: S)
    requires
        !m.contains_key(stem),
    ensures
        restored_on_enter(m, stem, default) == default,
{
}

/// The loop zone and section selection of the song being played. The loop
/// bounds are positions in the song (`T`).
pub struct LoopSelection<T> {
    pub loop_start: Option<T>,
    pub loop_end: Option<T>,
    pub loop_active: bool,
    /// Indices of the sections selected for the loop.
    pub selected: Vec<u32>,
}

impl<T> LoopSelection<T> {
    /// No loop and no selection.
    pub fn new() -> (r: Self)
        ensures
            r.loop_start is None,
            r.loop_end is None,
            !r.loop_active,
            r.selected@.len() == 0,
    {
        LoopSelection { loop_start: None, loop_end: None, loop_active: false, selected: Vec::new() }
    }

    /// Clears the loop zone and the section selection (when another song is
    /// loaded); per-song volumes and the beat offset are kept elsewhere.
    pub fn reset_loop(&mut self)
        ensures
            final(self).loop_start is None,
            final(self).loop_end is None,
            !final(self).loop_active,
            final(self).selected@.len() == 0,
    {
        self.loop_start = None;
        self.loop_end = None;
        self.loop_active = false;
        self.selected = Vec::new();
    }
}

} // verus!
