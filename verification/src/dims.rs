//! Which files are probed for image dimensions: a file's lowercased
//! extension is its key, and once probing fails for a key, files with that
//! key are not probed again.

use vstd::prelude::*;
use vstd::utf8::{valid_utf8, decode_utf8};
use crate::names::{file_name_of, file_name_bytes};

verus! {

/// The position of the last `.` in `s`, or -1.
pub open spec fn last_dot(s: Seq<u8>) -> int
    decreases s.len(),
{
    if s.len() == 0 {
        -1
    } else if s.last() == 46 {
        s.len() - 1
    } else {
        last_dot(s.drop_last())
    }
}

/// The extension of a path (`Path::extension`): what follows the last `.`
/// of its file name, unless that dot starts the name or there is none.
pub open spec fn extension_of(p: Seq<u8>) -> Option<Seq<u8>> {
    match file_name_of(p) {
        Some(n) => {
            let d = last_dot(n);
            if d <= 0 {
                None
            } else {
                Some(n.skip(d + 1))
            }
        },
        None => None,
    }
}

/// The Unicode lowercase of a text (`str::to_lowercase`).
pub uninterp spec fn lowercase(s: Seq<char>) -> Seq<char>;

/// The key under which probing outcomes are remembered: the path's
/// extension, when it is valid UTF-8, lowercased.
pub open spec fn dimension_key_of(p: Seq<u8>) -> Option<Seq<char>> {
    match extension_of(p) {
        Some(e) => if valid_utf8(e) {
            Some(lowercase(decode_utf8(e)))
        } else {
            None
        },
        None => None,
    }
}

/// Decodes bytes that are valid UTF-8 (`std::str::from_utf8`, its error
/// turned into `None`). Trusted, as std documents it: `None` exactly for
/// invalid UTF-8, and the decoded text otherwise.
#[verifier::external_body]
fn utf8_str<'a>(bytes: &'a [u8]) -> (r: Option<&'a str>)
    ensures
        r is Some == valid_utf8(bytes@),
        r matches Some(s) ==> s@ == decode_utf8(bytes@),
{
    std::str::from_utf8(bytes).ok()
}

/// Lowercases a text (`str::to_lowercase`). Trusted: the result is the
/// named `lowercase` of the text.
#[verifier::external_body]
fn to_lowercase(s: &str) -> (r: String)
    ensures
        r@ == lowercase(s@),
{
    s.to_lowercase()
}

fn last_dot_exec(s: &Vec<u8>) -> (d: Option<usize>)
    ensures
        d matches Some(i) ==> i == last_dot(s@) && i < s@.len(),
        d is None ==> last_dot(s@) == -1,
{
    let mut end = s.len();
    assert(s@.take(end as int) =~= s@);
    while end > 0 && s[end - 1] != 46
        invariant
            end <= s@.len(),
            last_dot(s@) == last_dot(s@.take(end as int)),
        decreases end,
    {
        assert(s@.take(end as int).drop_last() =~= s@.take(end - 1));
        end = end - 1;
    }
    if end == 0 {
        None
    } else {
        Some(end - 1)
    }
}

/// The key under which a path's probing outcome is remembered.
pub fn dimension_key(path: &[u8]) -> (k: Option<String>)
    ensures
        k matches Some(s) ==> dimension_key_of(path@) == Some(s@),
        k is None ==> dimension_key_of(path@) is None,
{
    let name = match file_name_bytes(path) {
        Some(n) => n,
        None => return None,
    };
    let d = match last_dot_exec(&name) {
        Some(d) => d,
        None => return None,
    };
    if d == 0 {
        return None;
    }
    let n = name.len();
    assert(d < n);
    let mut ext: Vec<u8> = Vec::new();
    let mut i = d + 1;
    while i < name.len()
        invariant
            d < i <= name@.len(),
            ext@ == name@.subrange(d + 1, i as int),
        decreases name@.len() - i,
    {
        ext.push(name[i]);
        i = i + 1;
        assert(ext@ =~= name@.subrange(d + 1, i as int));
    }
    assert(ext@ =~= name@.skip(d + 1));
    match utf8_str(ext.as_slice()) {
        Some(s) => Some(to_lowercase(s)),
        None => None,
    }
}

/// Whether a file with this key is probed, given the keys whose probing
/// has failed.
pub open spec fn probes(failed: Set<Seq<char>>, key: Option<Seq<char>>) -> bool {
    match key {
        Some(k) => !failed.contains(k),
        None => true,
    }
}

/// The failed keys after a probe with this outcome.
pub open spec fn after_probe(
    failed: Set<Seq<char>>,
    key: Option<Seq<char>>,
    outcome: Option<(usize, usize)>,
) -> Set<Seq<char>> {
    match (key, outcome) {
        (Some(k), None) => failed.insert(k),
        _ => failed,
    }
}

/// The text of a key.
pub open spec fn key_view(key: Option<String>) -> Option<Seq<char>> {
    match key {
        Some(s) => Some(s@),
        None => None,
    }
}

/// The keys whose probing has failed.
pub struct DimensionCache {
    failed: Vec<String>,
}

impl DimensionCache {
    /// The keys whose probing has failed.
    pub closed spec fn failed_keys(self) -> Set<Seq<char>> {
        self.failed@.map_values(|s: String| s@).to_set()
    }

    /// A cache in which nothing has failed yet.
    pub fn new() -> (c: Self)
        ensures
            c.failed_keys() == Set::<Seq<char>>::empty(),
    {
        let c = DimensionCache { failed: Vec::new() };
        assert(c.failed_keys() =~= Set::<Seq<char>>::empty());
        c
    }

    /// Whether a file with this key is to be probed.
    pub fn should_probe(&self, key: &Option<String>) -> (r: bool)
        ensures
            r == probes(self.failed_keys(), key_view(*key)),
    {
        match key {
            None => true,
            Some(k) => {
                let ghost view = self.failed@.map_values(|s: String| s@);
                let mut i: usize = 0;
                while i < self.failed.len()
                    invariant
                        i <= self.failed@.len(),
                        view == self.failed@.map_values(|s: String| s@),
                        key_view(*key) == Some(k@),
                        forall|m: int| 0 <= m < i ==> view[m] != k@,
                    decreases self.failed@.len() - i,
                {
                    if self.failed[i] == *k {
                        assert(view[i as int] == k@);
                        assert(view.contains(k@));
                        assert(self.failed_keys().contains(k@));
                        return false;
                    }
                    i = i + 1;
                }
                assert(!view.contains(k@));
                assert(!self.failed_keys().contains(k@));
                true
            },
        }
    }

    /// Records the outcome of probing a file with this key, and hands the
    /// outcome back.
    pub fn record(&mut self, key: Option<String>, outcome: Option<(usize, usize)>) -> (r: Option<(usize, usize)>)
        ensures
            r == outcome,
            final(self).failed_keys() == after_probe(old(self).failed_keys(), key_view(key), outcome),
    {
        if outcome.is_none() {
            if let Some(k) = key {
                let ghost before = self.failed@;
                self.failed.push(k);
                assert(self.failed@.map_values(|s: String| s@) =~= before.map_values(
                    |s: String| s@,
                ).push(k@));
                let ghost nv = self.failed@.map_values(|s: String| s@);
                let ghost ov = before.map_values(|s: String| s@);
                assert forall|a: Seq<char>| nv.contains(a) <==> ov.contains(a) || a == k@ by {
                    if nv.contains(a) {
                        let m = choose|m: int| 0 <= m < nv.len() && nv[m] == a;
                        if m < ov.len() {
                            assert(ov[m] == a);
                        }
                    }
                    if ov.contains(a) {
                        let m = choose|m: int| 0 <= m < ov.len() && ov[m] == a;
                        assert(nv[m] == a);
                    }
                    if a == k@ {
                        assert(nv[ov.len() as int] == a);
                    }
                }
                assert(self.failed_keys() =~= old(self).failed_keys().insert(k@));
            }
        }
        outcome
    }
}

/// Once probing fails for a key, no later file with that key is probed,
/// whatever other outcomes are recorded afterwards.
pub proof fn lemma_failure_is_remembered(
    failed: Set<Seq<char>>,
    k: Seq<char>,
    later: Seq<(Option<Seq<char>>, Option<(usize, usize)>)>,
)
    ensures
        !probes(replay(after_probe(failed, Some(k), None), later), Some(k)),
    decreases later.len(),
{
    if later.len() > 0 {
        lemma_failure_is_remembered(failed, k, later.drop_last());
        lemma_replay_grows(after_probe(failed, Some(k), None), later);
    }
}

/// The failed keys after a series of probes.
pub open spec fn replay(
    failed: Set<Seq<char>>,
    probes_seen: Seq<(Option<Seq<char>>, Option<(usize, usize)>)>,
) -> Set<Seq<char>>
    decreases probes_seen.len(),
{
    if probes_seen.len() == 0 {
        failed
    } else {
        let last = probes_seen.last();
        after_probe(replay(failed, probes_seen.drop_last()), last.0, last.1)
    }
}

/// Recording outcomes never forgets a failed key.
pub proof fn lemma_replay_grows(
    failed: Set<Seq<char>>,
    probes_seen: Seq<(Option<Seq<char>>, Option<(usize, usize)>)>,
)
    ensures
        failed.subset_of(replay(failed, probes_seen)),
    decreases probes_seen.len(),
{
    if probes_seen.len() > 0 {
        lemma_replay_grows(failed, probes_seen.drop_last());
    }
}

} // verus!

verus! {

/// The width and height that imagesize reads from the header of an image
/// held in `data`, or none where it recognises no image there.
pub uninterp spec fn image_size_of(data: Seq<u8>) -> Option<(usize, usize)>;

/// Reads an image's width and height from its bytes
/// (`imagesize::blob_size`, the parse that `imagesize::size` runs on a
/// file's contents; its error turned into `None`). Trusted: the result is
/// the named `image_size_of` of the bytes. It returns on every input: its
/// parsers read only within lengths they have checked and report short or
/// malformed data as an error.
#[verifier::external_body]
fn blob_dimensions(data: &[u8]) -> (r: Option<(usize, usize)>)
    ensures
        r == image_size_of(data@),
{
    imagesize::blob_size(data).ok().map(|s| (s.width, s.height))
}

/// The outcome of probing a file whose reading gave `contents` (none where
/// it could not be read): its image size, if any.
pub open spec fn probe_outcome(contents: Option<Seq<u8>>) -> Option<(usize, usize)> {
    match contents {
        Some(c) => image_size_of(c),
        None => None,
    }
}

/// The image dimensions of the file at `path`, given what reading it gave.
/// A file whose key has failed before is not probed: the result is none
/// and the cache unchanged. Otherwise the result is the image size read
/// from the contents, and a failure is remembered under the file's key.
pub fn get_dimensions(cache: &mut DimensionCache, path: &[u8], contents: &Option<Vec<u8>>) -> (r: Option<(usize, usize)>)
    ensures
        !probes(old(cache).failed_keys(), dimension_key_of(path@)) ==> r is None
            && final(cache).failed_keys() == old(cache).failed_keys(),
        probes(old(cache).failed_keys(), dimension_key_of(path@)) ==> r == probe_outcome(
            match contents {
                Some(c) => Some(c@),
                None => None,
            },
        ) && final(cache).failed_keys() == after_probe(
            old(cache).failed_keys(),
            dimension_key_of(path@),
            r,
        ),
{
    let key = dimension_key(path);
    assert(key_view(key) == dimension_key_of(path@));
    if !cache.should_probe(&key) {
        return None;
    }
    let outcome = match contents {
        Some(c) => blob_dimensions(c.as_slice()),
        None => None,
    };
    cache.record(key, outcome)
}

} // verus!
