//! The home page's track list (ordering) and small layout rules of the
//! analysis page: section list entrance delays, the shown analysis date and
//! the placement of the section context menu.

use vstd::prelude::*;
use vstd::utf8::{encode_utf8, is_char_boundary};
use crate::text::{lowercase, same_text};
use crate::sections::{is_listed_section, segment_color, segment_color_spec};
use crate::tracks::{lemma_bytes_lt_asym, lemma_bytes_lt_total, lemma_bytes_lt_trans, text_less, text_lt};

verus! {

/// Sort direction of the track list.
#[derive(Clone, Copy, Debug, PartialEq, Eq, Structural)]
pub enum SortDirection {
    Ascending,
    Descending,
}

/// Field the track list is sorted by.
#[derive(Clone, Copy, Debug, PartialEq, Eq, Structural)]
pub enum SortField {
    Bpm,
    Filename,
}

/// Text `a` goes strictly before text `b` in the given direction.
pub open spec fn precedes(dir: SortDirection, a: Seq<char>, b: Seq<char>) -> bool {
    match dir {
        SortDirection::Ascending => text_lt(a, b),
        SortDirection::Descending => text_lt(b, a),
    }
}

/// `order` lists every index of `0..n` exactly once.
pub open spec fn is_permutation_of_indices(order: Seq<usize>, n: int) -> bool {
    &&& order.len() == n
    &&& forall|a: int| 0 <= a < order.len() ==> (#[trigger] order[a]) < n
    &&& forall|a: int, b: int| 0 <= a < b < order.len() ==> order[a] != order[b]
}

/// `order` arranges `keys` in the direction `dir`, and entries with equal keys
/// keep their relative order from the input.
pub open spec fn stably_ordered(order: Seq<usize>, keys: Seq<String>, dir: SortDirection) -> bool {
    &&& forall|a: int, b: int| 0 <= a < b < order.len() ==> !precedes(
        dir,
        keys[#[trigger] order[b] as int]@,
        keys[#[trigger] order[a] as int]@,
    )
    &&& forall|a: int, b: int| 0 <= a < b < order.len() && keys[#[trigger] order[a] as int]@
        == keys[#[trigger] order[b] as int]@ ==> order[a] < order[b]
}

fn precedes_exec(dir: SortDirection, a: &String, b: &String) -> (r: bool)
    ensures
        r == precedes(dir, a@, b@),
{
    match dir {
        SortDirection::Ascending => text_less(a, b),
        SortDirection::Descending => text_less(b, a),
    }
}

proof fn lemma_precedes_facts(dir: SortDirection, x: Seq<char>, y: Seq<char>, z: Seq<char>)
    ensures
        precedes(dir, x, y) ==> !precedes(dir, y, x),
        !precedes(dir, x, x),
        precedes(dir, x, y) && !precedes(dir, z, y) ==> precedes(dir, x, z),
{
    let (bx, by, bz) = (encode_utf8(x), encode_utf8(y), encode_utf8(z));
    lemma_bytes_lt_asym(bx, by);
    lemma_bytes_lt_asym(by, bx);
    lemma_bytes_lt_asym(bx, bx);
    lemma_bytes_lt_total(by, bz);
    lemma_bytes_lt_trans(bx, by, bz);
    lemma_bytes_lt_trans(bz, by, bx);
}

/// Display order of a list by a text key (such as the file name): the indices
/// of `keys`, sorted by key in the given direction (by UTF-8 bytes, as `String`
/// orders), entries with equal keys keeping their input order.
pub fn order_by_text(keys: &[String], dir: SortDirection) -> (r: Vec<usize>)
    ensures
        is_permutation_of_indices(r@, keys@.len() as int),
        stably_ordered(r@, keys@, dir),
{
    let mut out: Vec<usize> = Vec::new();
    let n = keys.len();
    let mut i: usize = 0;
    while i < n
        invariant
            n == keys@.len(),
            i <= n,
            is_permutation_of_indices(out@, i as int),
            stably_ordered(out@, keys@, dir),
        decreases n - i,
    {
        let mut p: usize = 0;
        while p < out.len() && !precedes_exec(dir, &keys[i], &keys[out[p]])
            invariant
                n == keys@.len(),
                i < n,
                p <= out@.len(),
                is_permutation_of_indices(out@, i as int),
                forall|q: int| 0 <= q < p ==> !precedes(dir, keys@[i as int]@, keys@[#[trigger] out@[q] as int]@),
            decreases out@.len() - p,
        {
            p = p + 1;
        }
        let ghost before = out@;
        let ghost x = keys@[i as int]@;
        proof {
            assert forall|j: int| p <= j < before.len() implies precedes(dir, x, keys@[#[trigger] before[j] as int]@) by {
                if j > p {
                    lemma_precedes_facts(dir, x, keys@[before[p as int] as int]@, keys@[before[j] as int]@);
                }
            }
        }
        out.insert(p, i);
        proof {
            let after = out@;
            assert(after =~= before.insert(p as int, i));
            assert forall|a: int| 0 <= a < after.len() implies (#[trigger] after[a]) < i + 1 by {
                if a < p {
                    assert(after[a] == before[a]);
                } else if a > p {
                    assert(after[a] == before[a - 1]);
                }
            }
            assert forall|a: int, b: int| 0 <= a < b < after.len() implies after[a] != after[b] by {
                if a < p && b < p {
                    assert(after[a] == before[a] && after[b] == before[b]);
                } else if a < p && b == p {
                    assert(after[a] == before[a]);
                } else if a < p && b > p {
                    assert(after[a] == before[a] && after[b] == before[b - 1]);
                } else if a == p {
                    assert(after[b] == before[b - 1]);
                } else {
                    assert(after[a] == before[a - 1] && after[b] == before[b - 1]);
                }
            }
            assert forall|a: int, b: int| 0 <= a < b < after.len() implies !precedes(
                dir,
                keys@[#[trigger] after[b] as int]@,
                keys@[#[trigger] after[a] as int]@,
            ) by {
                if a < p && b < p {
                    assert(after[a] == before[a] && after[b] == before[b]);
                } else if a < p && b == p {
                    assert(after[a] == before[a]);
                } else if a < p && b > p {
                    assert(after[a] == before[a] && after[b] == before[b - 1]);
                } else if a == p {
                    assert(after[b] == before[b - 1]);
                    lemma_precedes_facts(dir, x, keys@[before[b - 1] as int]@, x);
                } else {
                    assert(after[a] == before[a - 1] && after[b] == before[b - 1]);
                }
            }
            assert forall|a: int, b: int| 0 <= a < b < after.len() && keys@[#[trigger] after[a] as int]@
                == keys@[#[trigger] after[b] as int]@ implies after[a] < after[b] by {
                if a < p && b < p {
                    assert(after[a] == before[a] && after[b] == before[b]);
                } else if a < p && b == p {
                    assert(after[a] == before[a]);
                } else if a < p && b > p {
                    assert(after[a] == before[a] && after[b] == before[b - 1]);
                } else if a == p {
                    assert(after[b] == before[b - 1]);
                    lemma_precedes_facts(dir, x, x, x);
                } else {
                    assert(after[a] == before[a - 1] && after[b] == before[b - 1]);
                }
            }
        }
        i = i + 1;
    }
    out
}

/// The date part shown for an analysis timestamp: its first 10 bytes (the
/// "YYYY-MM-DD" of an ISO timestamp) when the text is that long and a
/// character ends there, the empty text otherwise.
pub fn analysis_date(timestamp: &str) -> (r: String)
    requires
        encode_utf8(timestamp@).len() <= usize::MAX,
    ensures
        if encode_utf8(timestamp@).len() >= 10 && is_char_boundary(encode_utf8(timestamp@), 10) {
            encode_utf8(r@) == encode_utf8(timestamp@).subrange(0, 10)
        } else {
            r@.len() == 0
        },
{
    if timestamp.len() >= 10 && timestamp.is_char_boundary(10) {
        let (head, _) = timestamp.split_at(10);
        String::from_str(head)
    } else {
        String::new()
    }
}

impl SortDirection {
    /// The other direction (what the direction button switches to).
    pub fn reversed(self) -> (r: SortDirection)
        ensures
            r != self,
            r == match self {
                SortDirection::Ascending => SortDirection::Descending,
                SortDirection::Descending => SortDirection::Ascending,
            },
    {
        match self {
            SortDirection::Ascending => SortDirection::Descending,
            SortDirection::Descending => SortDirection::Ascending,
        }
    }
}

/// The sort field chosen in the field selector: "bpm" selects the BPM, any
/// other value the file name.
pub fn sort_field_from_value(value: &str) -> (r: SortField)
    ensures
        r == (if value@ == "bpm"@ {
            SortField::Bpm
        } else {
            SortField::Filename
        }),
{
    if same_text(value, "bpm") {
        SortField::Bpm
    } else {
        SortField::Filename
    }
}

/// Entrance delay of the `i`-th listed section: 60 ms per position, at most
/// 400 ms.
pub fn stagger_delay_ms(i: usize) -> (r: usize)
    requires
        i <= usize::MAX / 60,
    ensures
        r == if i * 60 < 400 {
            i * 60
        } else {
            400
        },
{
    let d = i * 60;
    if d < 400 {
        d
    } else {
        400
    }
}

/// Whether a section label is shown in section lists (not a "start" or "end"
/// marker, compared without regard to case).
pub open spec fn listed_label(l: Seq<char>) -> bool {
    lowercase(l) != "start"@ && lowercase(l) != "end"@
}

/// Positions, in order, of the sections of `labels` that are shown in the
/// section list.
pub open spec fn listed_positions(labels: Seq<String>) -> Seq<int>
    decreases labels.len(),
{
    if labels.len() == 0 {
        Seq::empty()
    } else {
        let before = listed_positions(labels.drop_last());
        if listed_label(labels.last()@) {
            before.push(labels.len() - 1)
        } else {
            before
        }
    }
}

/// The section list holds exactly the listed sections, each once, in the
/// track's order: every position names a section that is not a "start" or
/// "end" marker, positions strictly increase, and every such section appears.
pub proof fn law_section_list_is_the_listed_sections(labels: Seq<String>)
    ensures
        forall|k: int|
            0 <= k < listed_positions(labels).len() ==> {
                let p = #[trigger] listed_positions(labels)[k];
                &&& 0 <= p < labels.len()
                &&& lowercase(labels[p]@) != "start"@
                &&& lowercase(labels[p]@) != "end"@
            },
        forall|j: int, k: int|
            0 <= j < k < listed_positions(labels).len() ==> listed_positions(labels)[j]
                < listed_positions(labels)[k],
        forall|i: int|
            0 <= i < labels.len() && lowercase(#[trigger] labels[i]@) != "start"@ && lowercase(labels[i]@)
                != "end"@ ==> exists|k: int|
                0 <= k < listed_positions(labels).len() && listed_positions(labels)[k] == i,
    decreases labels.len(),
{
    if labels.len() > 0 {
        let init = labels.drop_last();
        law_section_list_is_the_listed_sections(init);
        let before = listed_positions(init);
        let n = labels.len() - 1;
        if listed_label(labels.last()@) {
            let after = before.push(n);
            assert(listed_positions(labels) == after);
            assert forall|k: int| 0 <= k < after.len() implies {
                let p = #[trigger] after[k];
                0 <= p < labels.len() && listed_label(labels[p]@)
            } by {
                if k < before.len() {
                    assert(after[k] == before[k]);
                    assert(init[before[k]] == labels[before[k]]);
                }
            }
            assert forall|i: int| 0 <= i < labels.len() && listed_label(#[trigger] labels[i]@) implies exists|k: int|
                0 <= k < after.len() && after[k] == i by {
                if i < n {
                    assert(init[i] == labels[i]);
                    let k = choose|k: int| 0 <= k < before.len() && before[k] == i;
                    assert(after[k] == before[k]);
                } else {
                    assert(after[before.len() as int] == i);
                }
            }
        } else {
            assert(listed_positions(labels) == before);
            assert forall|k: int| 0 <= k < before.len() implies {
                let p = #[trigger] before[k];
                0 <= p < labels.len() && listed_label(labels[p]@)
            } by {
                assert(init[before[k]] == labels[before[k]]);
            }
            assert forall|i: int| 0 <= i < labels.len() && listed_label(#[trigger] labels[i]@) implies exists|k: int|
                0 <= k < before.len() && before[k] == i by {
                assert(i < n);
                assert(init[i] == labels[i]);
            }
        }
    }
}

/// The entrance delay of the `k`-th row: 60 ms per position, at most 400 ms.
pub open spec fn stagger_spec(k: int) -> int {
    if k * 60 < 400 {
        k * 60
    } else {
        400
    }
}

/// The first row enters at once, and each further row 60 ms after the one
/// before it, until the delay reaches 400 ms, where it stays.
pub proof fn law_stagger_steps(k: int)
    requires
        k >= 0,
    ensures
        stagger_spec(0) == 0,
        stagger_spec(k + 1) == if stagger_spec(k) + 60 < 400 {
            stagger_spec(k) + 60
        } else {
            400
        },
{
    assert(k * 60 + 60 == (k + 1) * 60) by (nonlinear_arith);
}

/// One row of the analysis page's section list.
pub struct SectionRow {
    /// Position of the section among all the track's sections.
    pub source: usize,
    /// Background colour class of its label.
    pub color: &'static str,
    /// Entrance animation delay in milliseconds.
    pub delay_ms: usize,
}

/// The section list of the analysis page for sections labelled `labels`: the
/// sections but the "start" and "end" markers, in order, each with its colour
/// and an entrance delay that grows with its position in the list.
pub fn section_rows(labels: &[String]) -> (r: Vec<SectionRow>)
    ensures
        r@.len() == listed_positions(labels@).len(),
        forall|k: int|
            0 <= k < r@.len() ==> {
                let p = listed_positions(labels@)[k];
                &&& (#[trigger] r@[k]).source as int == p
                &&& r@[k].color@ == segment_color_spec(lowercase(labels@[p]@))
                &&& r@[k].delay_ms as int == stagger_spec(k)
            },
{
    let mut rows: Vec<SectionRow> = Vec::new();
    let mut i: usize = 0;
    while i < labels.len()
        invariant
            i <= labels@.len(),
            rows@.len() == listed_positions(labels@.take(i as int)).len(),
            forall|k: int|
                0 <= k < rows@.len() ==> {
                    let p = listed_positions(labels@.take(i as int))[k];
                    &&& (#[trigger] rows@[k]).source as int == p
                    &&& rows@[k].color@ == segment_color_spec(lowercase(labels@[p]@))
                    &&& rows@[k].delay_ms as int == stagger_spec(k)
                },
        decreases labels@.len() - i,
    {
        let label = labels[i].as_str();
        let ghost rows_before = rows@;
        let ghost before = listed_positions(labels@.take(i as int));
        proof {
            assert(labels@.take(i as int + 1).drop_last() =~= labels@.take(i as int));
            assert(labels@.take(i as int + 1).last() == labels@[i as int]);
        }
        if is_listed_section(label) {
            let k = rows.len();
            let position: usize = if k < 7 {
                k
            } else {
                7
            };
            let delay = stagger_delay_ms(position);
            proof {
                if k >= 7 {
                    assert(k as int * 60 >= 400) by (nonlinear_arith)
                        requires
                            k >= 7,
                    ;
                }
            }
            rows.push(SectionRow { source: i, color: segment_color(label), delay_ms: delay });
        }
        proof {
            let next = listed_positions(labels@.take(i as int + 1));
            assert(next == if listed_label(labels@[i as int]@) {
                before.push(i as int)
            } else {
                before
            });
            assert forall|k: int| 0 <= k < rows@.len() implies next[k] == (if k < before.len() {
                before[k]
            } else {
                i as int
            }) by {
                if k < before.len() && listed_label(labels@[i as int]@) {
                    assert(before.push(i as int)[k] == before[k]);
                }
            }
            assert forall|k: int| 0 <= k < rows@.len() implies {
                let p = next[k];
                &&& (#[trigger] rows@[k]).source as int == p
                &&& rows@[k].color@ == segment_color_spec(lowercase(labels@[p]@))
                &&& rows@[k].delay_ms as int == stagger_spec(k)
            } by {
                if k < rows_before.len() {
                    assert(rows@[k] == rows_before[k]);
                }
            }
        }
        i = i + 1;
    }
    proof {
        assert(labels@.take(labels@.len() as int) =~= labels@);
    }
    rows
}

/// Where a context menu opens for a click at (`x`, `y`) in a window of
/// `win_w` by `win_h` pixels: moved left (or up) to stay inside the window
/// when the menu (about 168 by 290 pixels) would cross its right (or bottom)
/// edge.
pub fn context_menu_position(x: i32, y: i32, win_w: i32, win_h: i32) -> (r: (i32, i32))
    requires
        x + 168 <= i32::MAX,
        y + 290 <= i32::MAX,
        win_w - 172 >= i32::MIN,
        win_h - 294 >= i32::MIN,
    ensures
        r.0 == if x + 168 > win_w {
            win_w - 172
        } else {
            x as int
        },
        r.1 == if y + 290 > win_h {
            win_h - 294
        } else {
            y as int
        },
{
    let adj_x = if x + 168 > win_w {
        win_w - 172
    } else {
        x
    };
    let adj_y = if y + 290 > win_h {
        win_h - 294
    } else {
        y
    };
    (adj_x, adj_y)
}

} // verus!
