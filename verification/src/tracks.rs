//! Naming rules of the analysis folder: audio files in `music/`, analysis
//! JSON in `output/` (or `output_ja/` for the localized version), label
//! overrides in `output/overrides/`, stems in `music/stems/{stem}/`.
//! A track's key ("stem") is its audio file name without the extension.

use vstd::prelude::*;
use vstd::utf8::encode_utf8;
use crate::text::{lowercase, same_text, to_lowercase};

verus! {

broadcast use vstd::seq_lib::group_to_multiset_ensures;

/// A free-text description of the whole track produced by the analysis: the
/// prompt file and text that were used, and the response.
#[derive(Debug)]
pub struct OverallDescription {
    pub prompt_file: String,
    pub prompt_text: String,
    pub response: String,
}

/// The audio file extensions, in the order they are tried.
pub open spec fn audio_ext(k: int) -> Seq<char> {
    if k == 0 {
        ".mp3"@
    } else if k == 1 {
        ".flac"@
    } else if k == 2 {
        ".wav"@
    } else if k == 3 {
        ".ogg"@
    } else {
        ".m4a"@
    }
}

/// Number of audio file extensions.
pub open spec fn audio_ext_count() -> int {
    5
}

fn audio_ext_str(k: usize) -> (r: &'static str)
    requires
        k < 5,
    ensures
        r@ == audio_ext(k as int),
{
    match k {
        0 => ".mp3",
        1 => ".flac",
        2 => ".wav",
        3 => ".ogg",
        _ => ".m4a",
    }
}

/// `s` ends with `suffix`.
pub open spec fn ends_with(s: Seq<char>, suffix: Seq<char>) -> bool {
    s.len() >= suffix.len() && s.subrange(s.len() - suffix.len(), s.len() as int) == suffix
}

/// Stem of an audio file name, trying the extensions from number `k` on:
/// the first extension that the lower-cased name ends with is cut off the
/// name (when the name is that long).
pub open spec fn audio_stem_from(name: Seq<char>, k: int) -> Option<Seq<char>>
    decreases 5 - k,
{
    if k < 0 || k >= 5 {
        None
    } else if ends_with(lowercase(name), audio_ext(k)) {
        if name.len() >= audio_ext(k).len() {
            Some(name.take(name.len() - audio_ext(k).len()))
        } else {
            None
        }
    } else {
        audio_stem_from(name, k + 1)
    }
}

fn text_ends_with(s: &str, suffix: &str) -> (r: bool)
    ensures
        r == ends_with(s@, suffix@),
{
    let n = s.unicode_len();
    let m = suffix.unicode_len();
    if n < m {
        return false;
    }
    same_text(s.substring_char(n - m, n), suffix)
}

/// The stem of an audio file name: the name without its audio extension
/// (".mp3", ".flac", ".wav", ".ogg" or ".m4a", matched without regard to
/// case), or `None` when the name is not an audio file.
pub fn audio_file_stem(name: &str) -> (r: Option<String>)
    ensures
        match r {
            Some(s) => audio_stem_from(name@, 0) == Some(s@),
            None => audio_stem_from(name@, 0) is None,
        },
{
    let lower = to_lowercase(name);
    let mut k: usize = 0;
    while k < 5
        invariant
            k <= 5,
            lower@ == lowercase(name@),
            audio_stem_from(name@, k as int) == audio_stem_from(name@, 0),
        decreases 5 - k,
    {
        let ext = audio_ext_str(k);
        if text_ends_with(lower.as_str(), ext) {
            let n = name.unicode_len();
            let m = ext.unicode_len();
            if n >= m {
                return Some(String::from_str(name.substring_char(0, n - m)));
            } else {
                return None;
            }
        }
        k = k + 1;
    }
    None
}

/// Candidate audio file names for a base name: the base followed by each audio
/// extension, in the order they are tried.
pub fn audio_file_candidates(base: &str) -> (r: Vec<String>)
    ensures
        r@.len() == 5,
        forall|k: int| 0 <= k < 5 ==> #[trigger] r@[k]@ == base@ + audio_ext(k),
{
    let mut out: Vec<String> = Vec::new();
    let mut k: usize = 0;
    while k < 5
        invariant
            k <= 5,
            out@.len() == k,
            forall|j: int| 0 <= j < k ==> #[trigger] out@[j]@ == base@ + audio_ext(j),
        decreases 5 - k,
    {
        let mut s = String::from_str(base);
        s.append(audio_ext_str(k));
        out.push(s);
        k = k + 1;
    }
    out
}

/// File name of a track's analysis JSON in `output/`: "{stem}.json".
pub fn track_json_file(stem: &str) -> (r: String)
    ensures
        r@ == stem@ + ".json"@,
{
    let mut s = String::from_str(stem);
    s.append(".json");
    s
}

/// File name of a track's localized analysis JSON in `output_ja/`: "{stem}_ja.json".
pub fn localized_json_file(stem: &str) -> (r: String)
    ensures
        r@ == stem@ + "_ja.json"@,
{
    let mut s = String::from_str(stem);
    s.append("_ja.json");
    s
}

/// File name of a track's label overrides in `output/overrides/`:
/// "{stem}_overrides.json".
pub fn overrides_file(stem: &str) -> (r: String)
    ensures
        r@ == stem@ + "_overrides.json"@,
{
    let mut s = String::from_str(stem);
    s.append("_overrides.json");
    s
}

/// The stem tracks that can be asked for.
pub open spec fn is_stem_track(name: Seq<char>) -> bool {
    name == "vocals"@ || name == "drums"@ || name == "bass"@ || name == "other"@
}

/// Error text for a stem track name that is not one of the four.
pub open spec fn invalid_track_message(name: Seq<char>) -> Seq<char> {
    "Invalid track: "@ + name + ". Must be one of [\"vocals\", \"drums\", \"bass\", \"other\"]"@
}

/// Accepts the four stem track names ("vocals", "drums", "bass", "other") and
/// refuses any other with an error message that names it.
pub fn validate_stem_track(name: &str) -> (r: Result<(), String>)
    ensures
        r is Ok <==> is_stem_track(name@),
        r matches Err(msg) ==> msg@ == invalid_track_message(name@),
{
    if same_text(name, "vocals") || same_text(name, "drums") || same_text(name, "bass") || same_text(
        name,
        "other",
    ) {
        Ok(())
    } else {
        let mut msg = String::from_str("Invalid track: ");
        msg.append(name);
        msg.append(". Must be one of [\"vocals\", \"drums\", \"bass\", \"other\"]");
        Err(msg)
    }
}

/// Lexicographic order of byte strings (a proper prefix comes first).
pub open spec fn bytes_lt(a: Seq<u8>, b: Seq<u8>) -> bool
    decreases a.len(),
{
    if a.len() == 0 {
        b.len() > 0
    } else if b.len() == 0 {
        false
    } else if a[0] < b[0] {
        true
    } else if a[0] > b[0] {
        false
    } else {
        bytes_lt(a.drop_first(), b.drop_first())
    }
}

/// Order of texts: by their UTF-8 bytes, as `String` is ordered.
pub open spec fn text_lt(a: Seq<char>, b: Seq<char>) -> bool {
    bytes_lt(encode_utf8(a), encode_utf8(b))
}

/// Texts in ascending order.
pub open spec fn sorted_texts(s: Seq<String>) -> bool {
    forall|i: int, j: int| 0 <= i < j < s.len() ==> !text_lt(#[trigger] s[j]@, #[trigger] s[i]@)
}

pub proof fn lemma_bytes_lt_asym(a: Seq<u8>, b: Seq<u8>)
    ensures
        bytes_lt(a, b) ==> !bytes_lt(b, a),
    decreases a.len(),
{
    if a.len() > 0 && b.len() > 0 && a[0] == b[0] {
        lemma_bytes_lt_asym(a.drop_first(), b.drop_first());
    }
}

pub proof fn lemma_bytes_lt_trans(a: Seq<u8>, b: Seq<u8>, c: Seq<u8>)
    ensures
        bytes_lt(a, b) && bytes_lt(b, c) ==> bytes_lt(a, c),
    decreases a.len(),
{
    if a.len() > 0 && b.len() > 0 && c.len() > 0 && a[0] == b[0] && b[0] == c[0] {
        lemma_bytes_lt_trans(a.drop_first(), b.drop_first(), c.drop_first());
    }
}

pub proof fn lemma_bytes_lt_total(a: Seq<u8>, b: Seq<u8>)
    ensures
        a != b ==> bytes_lt(a, b) || bytes_lt(b, a),
    decreases a.len(),
{
    if a.len() > 0 && b.len() > 0 && a[0] == b[0] {
        lemma_bytes_lt_total(a.drop_first(), b.drop_first());
        if a.drop_first() == b.drop_first() {
            assert(a =~= seq![a[0]] + a.drop_first());
            assert(b =~= seq![b[0]] + b.drop_first());
        }
    } else if a.len() == 0 && b.len() == 0 {
        assert(a =~= b);
    }
}

/// Whether byte string `a` comes before `b`.
fn bytes_less(a: &[u8], b: &[u8]) -> (r: bool)
    ensures
        r == bytes_lt(a@, b@),
{
    let mut i: usize = 0;
    assert(a@.skip(0) =~= a@);
    assert(b@.skip(0) =~= b@);
    while i < a.len() && i < b.len()
        invariant
            i <= a@.len(),
            i <= b@.len(),
            bytes_lt(a@.skip(i as int), b@.skip(i as int)) == bytes_lt(a@, b@),
        decreases a@.len() - i,
    {
        if a[i] < b[i] {
            return true;
        }
        if a[i] > b[i] {
            return false;
        }
        assert(a@.skip(i as int).drop_first() =~= a@.skip(i + 1));
        assert(b@.skip(i as int).drop_first() =~= b@.skip(i + 1));
        i = i + 1;
    }
    i < b.len()
}

pub fn text_less(a: &String, b: &String) -> (r: bool)
    ensures
        r == text_lt(a@, b@),
{
    bytes_less(a.as_str().as_bytes(), b.as_str().as_bytes())
}

/// Sorts stems in ascending order (by their UTF-8 bytes, as `String` orders),
/// keeping every stem exactly as often as it was given.
pub fn sort_stems(stems: Vec<String>) -> (r: Vec<String>)
    ensures
        r@.to_multiset() == stems@.to_multiset(),
        sorted_texts(r@),
{
    let mut out: Vec<String> = Vec::new();
    let mut i: usize = 0;
    while i < stems.len()
        invariant
            i <= stems@.len(),
            out@.to_multiset() == stems@.take(i as int).to_multiset(),
            sorted_texts(out@),
        decreases stems@.len() - i,
    {
        let x = stems[i].clone();
        let mut p: usize = 0;
        while p < out.len() && !text_less(&x, &out[p])
            invariant
                p <= out@.len(),
                forall|q: int| 0 <= q < p ==> !text_lt(x@, #[trigger] out@[q]@),
            decreases out@.len() - p,
        {
            p = p + 1;
        }
        let ghost before = out@;
        proof {
            assert forall|j: int| p <= j < before.len() implies text_lt(x@, #[trigger] before[j]@) by {
                if j > p {
                    lemma_bytes_lt_total(encode_utf8(before[p as int]@), encode_utf8(before[j]@));
                    lemma_bytes_lt_trans(
                        encode_utf8(x@),
                        encode_utf8(before[p as int]@),
                        encode_utf8(before[j]@),
                    );
                }
            }
        }
        out.insert(p, x);
        proof {
            let after = out@;
            assert(after =~= before.insert(p as int, x));
            assert forall|a: int, b: int| 0 <= a < b < after.len() implies !text_lt(
                #[trigger] after[b]@,
                #[trigger] after[a]@,
            ) by {
                if a < p && b < p {
                    assert(after[a] == before[a] && after[b] == before[b]);
                } else if a < p && b == p {
                    assert(after[a] == before[a]);
                } else if a < p && b > p {
                    assert(after[a] == before[a] && after[b] == before[b - 1]);
                } else if a == p {
                    assert(after[b] == before[b - 1]);
                    lemma_bytes_lt_asym(encode_utf8(x@), encode_utf8(before[b - 1]@));
                } else {
                    assert(after[a] == before[a - 1] && after[b] == before[b - 1]);
                }
            }
            assert(stems@.take(i + 1) =~= stems@.take(i as int).push(stems@[i as int]));
        }
        i = i + 1;
    }
    assert(stems@.take(i as int) =~= stems@);
    out
}

} // verus!
