//! The music-library scanner: recognising audio files by extension and
//! deriving a catalog record per file from its name.
//!
//! Paths are treated as plain strings whose components are separated by
//! `'/'`; the file name is everything after the last separator, and the
//! extension is everything after the last dot of the file name (a name
//! whose only dot is its first character has no extension).
use crate::strutil::{spec_dec, u64_to_dec};
use vstd::prelude::*;
use vstd::string::*;

verus! {

/// One discovered audio file. All metadata is derived from the file name;
/// no audio decoding takes place.
#[derive(Debug, Clone)]
pub struct Song {
    pub id: String,
    pub title: String,
    pub artist: String,
    pub album: String,
    /// Whole seconds; always zero here, a real duration would need decoding.
    pub duration: u64,
    pub path: String,
    pub cover: Option<String>,
}

/// Index of the last occurrence of `c` in `s`, or `-1` if there is none.
pub open spec fn last_pos(s: Seq<char>, c: char) -> int
    decreases s.len(),
{
    if s.len() == 0 {
        -1
    } else if s.last() == c {
        s.len() - 1
    } else {
        last_pos(s.drop_last(), c)
    }
}

pub proof fn lemma_last_pos_in_range(s: Seq<char>, c: char)
    ensures
        -1 <= last_pos(s, c) < s.len(),
        last_pos(s, c) >= 0 ==> s[last_pos(s, c)] == c,
    decreases s.len(),
{
    if s.len() > 0 && s.last() != c {
        lemma_last_pos_in_range(s.drop_last(), c);
    }
}

pub proof fn lemma_last_pos_found(s: Seq<char>, c: char, k: int)
    requires
        0 <= k < s.len(),
        s[k] == c,
        forall|j: int| k < j < s.len() ==> s[j] != c,
    ensures
        last_pos(s, c) == k,
    decreases s.len(),
{
    if k < s.len() - 1 {
        lemma_last_pos_found(s.drop_last(), c, k);
    }
}

pub proof fn lemma_last_pos_none(s: Seq<char>, c: char)
    requires
        forall|j: int| 0 <= j < s.len() ==> s[j] != c,
    ensures
        last_pos(s, c) == -1,
    decreases s.len(),
{
    if s.len() > 0 {
        lemma_last_pos_none(s.drop_last(), c);
    }
}

/// The file-name component of a path: everything after the last `'/'`.
pub open spec fn file_name_of(p: Seq<char>) -> Seq<char> {
    p.subrange(last_pos(p, '/') + 1, p.len() as int)
}

/// The file name without its extension.
pub open spec fn stem_of(name: Seq<char>) -> Seq<char> {
    let d = last_pos(name, '.');
    if d <= 0 {
        name
    } else {
        name.subrange(0, d)
    }
}

/// The extension of a file name, if it has one.
pub open spec fn ext_of(name: Seq<char>) -> Option<Seq<char>> {
    let d = last_pos(name, '.');
    if d <= 0 {
        None
    } else {
        Some(name.subrange(d + 1, name.len() as int))
    }
}

/// Case-insensitive equality of two characters, folding ASCII letters only.
pub open spec fn char_ci_eq(a: char, b: char) -> bool {
    ||| a == b
    ||| ('A' as int <= a as int <= 'Z' as int && a as int + 32 == b as int)
    ||| ('A' as int <= b as int <= 'Z' as int && b as int + 32 == a as int)
}

/// Case-insensitive equality of two character sequences.
pub open spec fn seq_ci_eq(a: Seq<char>, b: Seq<char>) -> bool {
    a.len() == b.len() && (forall|i: int| 0 <= i < a.len() ==> char_ci_eq(a[i], b[i]))
}

/// The recognised audio-file extensions, compared case-insensitively.
pub open spec fn is_music_ext(e: Seq<char>) -> bool {
    ||| seq_ci_eq(e, "mp3"@)
    ||| seq_ci_eq(e, "flac"@)
    ||| seq_ci_eq(e, "wav"@)
    ||| seq_ci_eq(e, "ogg"@)
    ||| seq_ci_eq(e, "m4a"@)
    ||| seq_ci_eq(e, "aac"@)
}

/// Whether a path names an audio file the scanner admits.
pub open spec fn is_music_path(p: Seq<char>) -> bool {
    match ext_of(file_name_of(p)) {
        Some(e) => is_music_ext(e),
        None => false,
    }
}

fn char_ci_eq_exec(a: char, b: char) -> (r: bool)
    ensures
        r == char_ci_eq(a, b),
{
    let au: u32 = a as u32;
    let bu: u32 = b as u32;
    au == bu || (65 <= au && au <= 90 && au + 32 == bu) || (65 <= bu && bu <= 90 && bu + 32 == au)
}

/// Copies the characters of a string into a vector for indexed scanning.
fn to_char_vec(s: &str) -> (v: Vec<char>)
    ensures
        v@ == s@,
{
    let n = s.unicode_len();
    let mut v: Vec<char> = Vec::new();
    let mut i: usize = 0;
    while i < n
        invariant
            i <= n,
            n == s@.len(),
            v@ == s@.subrange(0, i as int),
        decreases n - i,
    {
        let c = s.get_char(i);
        v.push(c);
        proof {
            assert(v@ =~= s@.subrange(0, i + 1));
        }
        i = i + 1;
    }
    proof {
        assert(v@ =~= s@);
    }
    v
}

/// Index of the last occurrence of `c` within `chars[lo..hi)`, if any.
fn rfind(chars: &Vec<char>, lo: usize, hi: usize, c: char) -> (r: Option<usize>)
    requires
        lo <= hi <= chars@.len(),
    ensures
        match r {
            Some(k) => {
                &&& lo <= k < hi
                &&& chars@[k as int] == c
                &&& forall|j: int| k < j < hi ==> chars@[j] != c
            },
            None => forall|j: int| lo <= j < hi ==> chars@[j] != c,
        },
{
    let mut i: usize = hi;
    while i > lo
        invariant
            lo <= i <= hi <= chars@.len(),
            forall|j: int| i <= j < hi ==> chars@[j] != c,
        decreases i,
    {
        i = i - 1;
        if chars[i] == c {
            return Some(i);
        }
    }
    None
}

/// Case-insensitive comparison of `chars[lo..hi)` against a literal.
fn range_ci_eq(chars: &Vec<char>, lo: usize, hi: usize, lit: &str) -> (r: bool)
    requires
        lo <= hi <= chars@.len(),
    ensures
        r == seq_ci_eq(chars@.subrange(lo as int, hi as int), lit@),
{
    let m = lit.unicode_len();
    if hi - lo != m {
        return false;
    }
    let mut i: usize = 0;
    while i < m
        invariant
            i <= m,
            m == lit@.len(),
            lo + m == hi,
            hi <= chars@.len(),
            forall|j: int| 0 <= j < i ==> char_ci_eq(chars@[lo + j], lit@[j]),
        decreases m - i,
    {
        if !char_ci_eq_exec(chars[lo + i], lit.get_char(i)) {
            assert(!char_ci_eq(chars@.subrange(lo as int, hi as int)[i as int], lit@[i as int]));
            return false;
        }
        i = i + 1;
    }
    assert forall|j: int| 0 <= j < m implies char_ci_eq(
        chars@.subrange(lo as int, hi as int)[j],
        lit@[j],
    ) by {
        assert(chars@.subrange(lo as int, hi as int)[j] == chars@[lo + j]);
    }
    true
}

/// Whether the path names a file with one of the recognised audio
/// extensions (case-insensitive).
pub fn is_music_file(path: &str) -> (r: bool)
    ensures
        r == is_music_path(path@),
{
    let chars = to_char_vec(path);
    let n = chars.len();
    let name_lo: usize = match rfind(&chars, 0, n, '/') {
        Some(k) => {
            proof {
                lemma_last_pos_found(path@, '/', k as int);
            }
            k + 1
        },
        None => {
            proof {
                lemma_last_pos_none(path@, '/');
            }
            0
        },
    };
    let ghost name = file_name_of(path@);
    proof {
        assert(name =~= path@.subrange(name_lo as int, n as int));
    }
    let dot = rfind(&chars, name_lo, n, '.');
    match dot {
        None => {
            proof {
                assert forall|j: int| 0 <= j < name.len() implies name[j] != '.' by {
                    assert(name[j] == path@[name_lo + j]);
                }
                lemma_last_pos_none(name, '.');
            }
            false
        },
        Some(k) => {
            proof {
                assert(name[k - name_lo] == path@[k as int]);
                assert forall|j: int| k - name_lo < j < name.len() implies name[j] != '.' by {
                    assert(name[j] == path@[name_lo + j]);
                }
                lemma_last_pos_found(name, '.', k - name_lo);
            }
            if k == name_lo {
                // the only dot is the leading character: no extension
                false
            } else {
                let ghost e = ext_of(name).unwrap();
                proof {
                    assert(e =~= chars@.subrange(k + 1, n as int));
                }
                let r = range_ci_eq(&chars, k + 1, n, "mp3") || range_ci_eq(&chars, k + 1, n, "flac")
                    || range_ci_eq(&chars, k + 1, n, "wav") || range_ci_eq(&chars, k + 1, n, "ogg")
                    || range_ci_eq(&chars, k + 1, n, "m4a") || range_ci_eq(&chars, k + 1, n, "aac");
                r
            }
        },
    }
}

/// Sum of the byte values of a string's UTF-8 encoding, accumulated into a
/// 64-bit unsigned value that wraps on overflow.
pub open spec fn spec_byte_sum(bytes: Seq<u8>) -> nat
    decreases bytes.len(),
{
    if bytes.len() == 0 {
        0
    } else {
        ((spec_byte_sum(bytes.drop_last()) + bytes.last()) % 0x1_0000_0000_0000_0000) as nat
    }
}

/// The id string of the song at path `p`: `"song-"` followed by the decimal
/// wrapping byte sum of the path. Cheap and deterministic, collision-prone
/// by design; callers may cache by it, so the scheme must stay as it is.
pub open spec fn spec_song_id(p: Seq<char>) -> Seq<char> {
    "song-"@ + spec_dec(spec_byte_sum(vstd::utf8::encode_utf8(p)))
}

fn byte_sum(bytes: &Vec<u8>) -> (r: u64)
    ensures
        r as nat == spec_byte_sum(bytes@),
{
    let mut acc: u64 = 0;
    let mut i: usize = 0;
    proof {
        assert(bytes@.subrange(0, 0) =~= Seq::<u8>::empty());
    }
    while i < bytes.len()
        invariant
            i <= bytes@.len(),
            acc as nat == spec_byte_sum(bytes@.subrange(0, i as int)),
        decreases bytes@.len() - i,
    {
        acc = acc.wrapping_add(bytes[i] as u64);
        proof {
            assert(bytes@.subrange(0, i + 1).drop_last() =~= bytes@.subrange(0, i as int));
            assert(bytes@.subrange(0, i + 1).last() == bytes@[i as int]);
        }
        i = i + 1;
    }
    proof {
        assert(bytes@.subrange(0, bytes@.len() as int) =~= bytes@);
    }
    acc
}

fn song_id(path: &str) -> (r: String)
    ensures
        r@ == spec_song_id(path@),
{
    let bytes = path.as_bytes_vec();
    let sum = byte_sum(&bytes);
    let mut r = "song-".to_owned();
    let digits = u64_to_dec(sum);
    r.append(digits.as_str());
    r
}

/// Whether the three-character separator `" - "` stands at position `i`.
pub open spec fn sep_at(s: Seq<char>, i: int) -> bool {
    &&& 0 <= i
    &&& i + 3 <= s.len()
    &&& s[i] == ' '
    &&& s[i + 1] == '-'
    &&& s[i + 2] == ' '
}

/// Position of the first `" - "` separator at or after `i`, or `-1`.
pub open spec fn first_sep_from(s: Seq<char>, i: int) -> int
    recommends
        0 <= i,
    decreases s.len() - i,
{
    if i + 3 > s.len() {
        -1
    } else if sep_at(s, i) {
        i
    } else {
        first_sep_from(s, i + 1)
    }
}

proof fn lemma_first_sep_found(s: Seq<char>, from: int, k: int)
    requires
        0 <= from <= k,
        sep_at(s, k),
        forall|j: int| from <= j < k ==> !sep_at(s, j),
    ensures
        first_sep_from(s, from) == k,
    decreases k - from,
{
    if from < k {
        lemma_first_sep_found(s, from + 1, k);
    }
}

proof fn lemma_first_sep_none(s: Seq<char>, from: int)
    requires
        0 <= from,
        forall|j: int| from <= j ==> !sep_at(s, j),
    ensures
        first_sep_from(s, from) == -1,
    decreases s.len() - from,
{
    if from + 3 <= s.len() {
        lemma_first_sep_none(s, from + 1);
    }
}

/// The title derived from a file-name stem: the part between the first
/// separator and the next one (or the end), or the whole stem if the stem
/// has no separator.
pub open spec fn spec_title(stem: Seq<char>) -> Seq<char> {
    let i = first_sep_from(stem, 0);
    if i < 0 {
        stem
    } else {
        let j = first_sep_from(stem, i + 3);
        if j < 0 {
            stem.subrange(i + 3, stem.len() as int)
        } else {
            stem.subrange(i + 3, j)
        }
    }
}

/// The artist derived from a file-name stem: the part before the first
/// separator, or the placeholder if the stem has no separator.
pub open spec fn spec_artist(stem: Seq<char>) -> Seq<char> {
    let i = first_sep_from(stem, 0);
    if i < 0 {
        "unknown artist"@
    } else {
        stem.subrange(0, i)
    }
}

/// The naming rule for a stem that holds the separator: the artist is what
/// stands before the first `" - "`, the title what stands between it and
/// the next separator, or the stem's end when there is no second one. Any
/// parts beyond the second are ignored.
pub proof fn lemma_split_names(stem: Seq<char>, i: int)
    requires
        sep_at(stem, i),
        forall|j: int| 0 <= j < i ==> !sep_at(stem, j),
    ensures
        spec_artist(stem) == stem.subrange(0, i),
        first_sep_from(stem, i + 3) < 0 ==> spec_title(stem) == stem.subrange(
            i + 3,
            stem.len() as int,
        ),
        first_sep_from(stem, i + 3) >= 0 ==> spec_title(stem) == stem.subrange(
            i + 3,
            first_sep_from(stem, i + 3),
        ),
{
    lemma_first_sep_found(stem, 0, i);
}

/// The naming rule for a stem without the separator: the whole stem is the
/// title, and the artist is the placeholder.
pub proof fn lemma_fallback_names(stem: Seq<char>)
    requires
        forall|j: int| !(#[trigger] sep_at(stem, j)),
    ensures
        spec_title(stem) == stem,
        spec_artist(stem) == "unknown artist"@,
{
    lemma_first_sep_none(stem, 0);
}

/// Every field of `s` holds what the scanner derives for the file at `p`.
pub open spec fn song_matches(s: Song, p: Seq<char>) -> bool {
    let stem = stem_of(file_name_of(p));
    &&& s.path@ == p
    &&& s.title@ == spec_title(stem)
    &&& s.artist@ == spec_artist(stem)
    &&& s.album@ == "unknown album"@
    &&& s.id@ == spec_song_id(p)
    &&& s.duration == 0
    &&& s.cover is None
}

/// Finds the first `" - "` separator within `chars[lo..hi)`, where a match
/// must fit entirely before `hi`.
fn find_sep(chars: &Vec<char>, lo: usize, hi: usize) -> (r: Option<usize>)
    requires
        lo <= hi <= chars@.len(),
    ensures
        match r {
            Some(k) => {
                &&& lo <= k
                &&& k + 3 <= hi
                &&& chars@[k as int] == ' '
                &&& chars@[k + 1] == '-'
                &&& chars@[k + 2] == ' '
                &&& forall|j: int|
                    lo <= j < k ==> !((#[trigger] chars@[j]) == ' ' && chars@[j + 1] == '-'
                        && chars@[j + 2] == ' ')
            },
            None => forall|j: int|
                lo <= j && j + 3 <= hi ==> !((#[trigger] chars@[j]) == ' ' && chars@[j + 1] == '-'
                    && chars@[j + 2] == ' '),
        },
{
    let mut i: usize = lo;
    while i < hi && hi - i >= 3
        invariant
            lo <= i,
            hi <= chars@.len(),
            forall|j: int|
                lo <= j < i ==> !((#[trigger] chars@[j]) == ' ' && chars@[j + 1] == '-'
                    && chars@[j + 2] == ' '),
        decreases hi - i,
    {
        if chars[i] == ' ' && chars[i + 1] == '-' && chars[i + 2] == ' ' {
            return Some(i);
        }
        i = i + 1;
    }
    None
}

/// Locates the file-name and stem boundaries of `path`: the file name is
/// `path[r.0..]` and the stem is `path[r.0..r.1]`.
fn locate_stem(path: &str, chars: &Vec<char>) -> (r: (usize, usize))
    requires
        chars@ == path@,
    ensures
        r.0 <= r.1 <= path@.len(),
        file_name_of(path@) == path@.subrange(r.0 as int, path@.len() as int),
        stem_of(file_name_of(path@)) == path@.subrange(r.0 as int, r.1 as int),
{
    let n = chars.len();
    let name_lo: usize = match rfind(chars, 0, n, '/') {
        Some(k) => {
            proof {
                lemma_last_pos_found(path@, '/', k as int);
            }
            k + 1
        },
        None => {
            proof {
                lemma_last_pos_none(path@, '/');
            }
            0
        },
    };
    let ghost name = file_name_of(path@);
    proof {
        assert(name =~= path@.subrange(name_lo as int, n as int));
    }
    // The stem ends at the last dot of the name, unless that dot is the
    // name's first character or the name has no dot at all.
    let stem_hi: usize = match rfind(chars, name_lo, n, '.') {
        Some(k) => {
            proof {
                assert(name[k - name_lo] == path@[k as int]);
                assert forall|j: int| k - name_lo < j < name.len() implies name[j] != '.' by {
                    assert(name[j] == path@[name_lo + j]);
                }
                lemma_last_pos_found(name, '.', k - name_lo);
            }
            if k == name_lo {
                n
            } else {
                k
            }
        },
        None => {
            proof {
                assert forall|j: int| 0 <= j < name.len() implies name[j] != '.' by {
                    assert(name[j] == path@[name_lo + j]);
                }
                lemma_last_pos_none(name, '.');
            }
            n
        },
    };
    proof {
        assert(stem_of(name) =~= path@.subrange(name_lo as int, stem_hi as int));
    }
    (name_lo, stem_hi)
}

/// Splits a stem on the first `" - "` into artist and title, with the
/// placeholder artist when the stem has no separator.
fn derive_names(path: &str, chars: &Vec<char>, name_lo: usize, stem_hi: usize) -> (r: (
    String,
    String,
))
    requires
        chars@ == path@,
        name_lo <= stem_hi <= path@.len(),
    ensures
        r.0@ == spec_artist(path@.subrange(name_lo as int, stem_hi as int)),
        r.1@ == spec_title(path@.subrange(name_lo as int, stem_hi as int)),
{
    let ghost stem = path@.subrange(name_lo as int, stem_hi as int);
    match find_sep(chars, name_lo, stem_hi) {
        Some(a) => {
            proof {
                assert(sep_at(stem, a - name_lo));
                assert forall|j: int| 0 <= j < a - name_lo implies !sep_at(stem, j) by {
                    assert(stem[j] == chars@[name_lo + j]);
                    assert(stem[j + 1] == chars@[name_lo + j + 1]);
                    assert(stem[j + 2] == chars@[name_lo + j + 2]);
                }
                lemma_first_sep_found(stem, 0, a - name_lo);
            }
            let artist = path.substring_char(name_lo, a).to_owned();
            let title_hi: usize = match find_sep(chars, a + 3, stem_hi) {
                Some(b) => {
                    proof {
                        assert(sep_at(stem, b - name_lo));
                        assert forall|j: int|
                            a + 3 - name_lo <= j < b - name_lo implies !sep_at(stem, j) by {
                            assert(stem[j] == chars@[name_lo + j]);
                            assert(stem[j + 1] == chars@[name_lo + j + 1]);
                            assert(stem[j + 2] == chars@[name_lo + j + 2]);
                        }
                        lemma_first_sep_found(stem, a + 3 - name_lo, b - name_lo);
                    }
                    b
                },
                None => {
                    proof {
                        assert forall|j: int| a + 3 - name_lo <= j implies !sep_at(stem, j) by {
                            if j + 3 <= stem.len() {
                                assert(stem[j] == chars@[name_lo + j]);
                                assert(stem[j + 1] == chars@[name_lo + j + 1]);
                                assert(stem[j + 2] == chars@[name_lo + j + 2]);
                            }
                        }
                        lemma_first_sep_none(stem, a + 3 - name_lo);
                    }
                    stem_hi
                },
            };
            let title = path.substring_char(a + 3, title_hi).to_owned();
            proof {
                assert(artist@ =~= spec_artist(stem));
                assert(title@ =~= spec_title(stem));
            }
            (artist, title)
        },
        None => {
            proof {
                assert forall|j: int| 0 <= j implies !sep_at(stem, j) by {
                    if j + 3 <= stem.len() {
                        assert(stem[j] == chars@[name_lo + j]);
                        assert(stem[j + 1] == chars@[name_lo + j + 1]);
                        assert(stem[j + 2] == chars@[name_lo + j + 2]);
                    }
                }
                lemma_first_sep_none(stem, 0);
            }
            let title = path.substring_char(name_lo, stem_hi).to_owned();
            let artist = "unknown artist".to_owned();
            proof {
                assert(title@ =~= spec_title(stem));
            }
            (artist, title)
        },
    }
}

/// Derives the catalog record for the file at `path`. Returns `None` only
/// when the path has an empty file-name component.
pub fn extract_song_info(path: &str) -> (r: Option<Song>)
    ensures
        r is Some <==> file_name_of(path@).len() > 0,
        r is Some ==> song_matches(r.unwrap(), path@),
{
    let chars = to_char_vec(path);
    let (name_lo, stem_hi) = locate_stem(path, &chars);
    if name_lo == chars.len() {
        return None;
    }
    let (artist, title) = derive_names(path, &chars, name_lo, stem_hi);
    let id = song_id(path);
    Some(
        Song {
            id,
            title,
            artist,
            album: "unknown album".to_owned(),
            duration: 0,
            path: path.to_owned(),
            cover: None,
        },
    )
}

/// Why a scan failed.
///
/// Mid-walk enumeration failures abort the whole scan (the propagating
/// policy; there is no partial-result mode): the host stops feeding the
/// walk and reports `TraversalIo`.
#[derive(Debug, Clone)]
pub enum ScanError {
    /// The scan root does not exist or is not a directory.
    InvalidDirectory { path: String },
    /// Enumerating a directory failed mid-walk (permissions, device errors).
    TraversalIo { detail: String },
}

impl ScanError {
    /// The view of `message()`, for stating contracts about wrapped text.
    pub open spec fn message_view(&self) -> Seq<char> {
        match self {
            ScanError::InvalidDirectory { path } => "Invalid directory path: "@ + path@,
            ScanError::TraversalIo { detail } => "Directory traversal failed: "@ + detail@,
        }
    }

    /// A human-readable description of the failure.
    pub fn message(&self) -> (r: String)
        ensures
            r@ == self.message_view(),
    {
        match self {
            ScanError::InvalidDirectory { path } => {
                let mut r = "Invalid directory path: ".to_owned();
                r.append(path.as_str());
                r
            },
            ScanError::TraversalIo { detail } => {
                let mut r = "Directory traversal failed: ".to_owned();
                r.append(detail.as_str());
                r
            },
        }
    }
}

/// The message shown at the host boundary when a scan fails.
pub fn scan_failure_message(e: &ScanError) -> (r: String)
    ensures
        r@ == "Error scanning directory: "@ + e.message_view(),
{
    let mut r = "Error scanning directory: ".to_owned();
    let m = e.message();
    r.append(m.as_str());
    r
}

/// Whether visiting the file at `p` adds a song to the scan.
pub open spec fn spec_collects(p: Seq<char>) -> bool {
    is_music_path(p)
}

/// An admitted audio path always has a non-empty file name (its extension
/// sits after a dot that is not the name's first character).
pub proof fn lemma_music_path_has_name(p: Seq<char>)
    requires
        is_music_path(p),
    ensures
        file_name_of(p).len() > 0,
{
    lemma_last_pos_in_range(file_name_of(p), '.');
}

/// One in-progress traversal: a depth-first work stack of directories still
/// to enumerate, and the songs discovered so far. The host enumerates each
/// popped directory and feeds every entry back through `visit_entry`.
#[derive(Debug)]
pub struct Scan {
    pending: Vec<String>,
    songs: Vec<Song>,
}

impl Scan {
    /// The directories still awaiting enumeration, last one next.
    pub closed spec fn pending_dirs(self) -> Seq<Seq<char>> {
        self.pending.deep_view()
    }

    /// The songs discovered so far, in visit order.
    pub closed spec fn found_songs(self) -> Seq<Song> {
        self.songs@
    }

    /// Begins a traversal rooted at `root`.
    pub fn new(root: &str) -> (s: Scan)
        ensures
            s.pending_dirs() == seq![root@],
            s.found_songs() == Seq::<Song>::empty(),
    {
        let mut pending: Vec<String> = Vec::new();
        pending.push(root.to_owned());
        let s = Scan { pending, songs: Vec::new() };
        proof {
            assert(s.pending_dirs() =~= seq![root@]);
        }
        s
    }

    /// Takes the next directory to enumerate, depth-first.
    pub fn next_dir(&mut self) -> (r: Option<String>)
        ensures
            final(self).found_songs() == old(self).found_songs(),
            match r {
                Some(d) => {
                    &&& old(self).pending_dirs().len() > 0
                    &&& d@ == old(self).pending_dirs().last()
                    &&& final(self).pending_dirs() == old(self).pending_dirs().drop_last()
                },
                None => {
                    &&& old(self).pending_dirs().len() == 0
                    &&& final(self).pending_dirs() == old(self).pending_dirs()
                },
            },
    {
        let r = self.pending.pop();
        proof {
            if old(self).pending_dirs().len() > 0 {
                assert(self.pending_dirs() =~= old(self).pending_dirs().drop_last());
            } else {
                assert(self.pending_dirs() =~= old(self).pending_dirs());
            }
        }
        r
    }

    /// Handles one directory entry: a subdirectory joins the work stack; an
    /// audio file contributes a song; everything else is skipped silently.
    pub fn visit_entry(&mut self, path: &str, is_dir: bool)
        ensures
            is_dir ==> {
                &&& final(self).pending_dirs() == old(self).pending_dirs().push(path@)
                &&& final(self).found_songs() == old(self).found_songs()
            },
            !is_dir ==> final(self).pending_dirs() == old(self).pending_dirs(),
            !is_dir && spec_collects(path@) ==> {
                &&& final(self).found_songs().len() == old(self).found_songs().len() + 1
                &&& final(self).found_songs().drop_last() == old(self).found_songs()
                &&& song_matches(final(self).found_songs().last(), path@)
            },
            !is_dir && !spec_collects(path@) ==> final(self).found_songs() == old(
                self,
            ).found_songs(),
    {
        if is_dir {
            self.pending.push(path.to_owned());
            proof {
                assert(self.pending_dirs() =~= old(self).pending_dirs().push(path@));
            }
        } else if is_music_file(path) {
            proof {
                lemma_music_path_has_name(path@);
            }
            let song = extract_song_info(path);
            match song {
                Some(s) => {
                    self.songs.push(s);
                    proof {
                        assert(self.found_songs().drop_last() =~= old(self).found_songs());
                    }
                },
                None => {
                    // unreachable: an admitted audio path has a file name
                    proof {
                        assert(false);
                    }
                },
            }
        }
    }

    /// Whether the traversal has no directories left to enumerate.
    pub fn done(&self) -> (r: bool)
        ensures
            r == (self.pending_dirs().len() == 0),
    {
        self.pending.len() == 0
    }

    /// Hands the collected songs to the caller, ending the traversal.
    pub fn into_songs(self) -> (r: Vec<Song>)
        ensures
            r@ == self.found_songs(),
    {
        self.songs
    }
}

/// Validates the scan root and opens the traversal. `exists` and `is_dir`
/// report what the filesystem says of `path`; the scan is refused, with
/// `InvalidDirectory` and no partial traversal, unless `path` names an
/// existing directory.
pub fn begin_scan(path: &str, exists: bool, is_dir: bool) -> (r: Result<Scan, ScanError>)
    ensures
        r is Ok <==> exists && is_dir,
        r is Ok ==> {
            &&& r.unwrap().pending_dirs() == seq![path@]
            &&& r.unwrap().found_songs() == Seq::<Song>::empty()
        },
        r is Err ==> (r.unwrap_err() matches ScanError::InvalidDirectory { path: p } && p@
            == path@),
{
    if exists && is_dir {
        Ok(Scan::new(path))
    } else {
        Err(ScanError::InvalidDirectory { path: path.to_owned() })
    }
}

/// The file paths a traversal collects out of a sequence of visited
/// entries, each entry a path with its directory flag.
pub open spec fn collected_paths(entries: Seq<(Seq<char>, bool)>) -> Seq<Seq<char>>
    decreases entries.len(),
{
    if entries.len() == 0 {
        Seq::empty()
    } else {
        let rest = collected_paths(entries.drop_last());
        let e = entries.last();
        if !e.1 && spec_collects(e.0) {
            rest.push(e.0)
        } else {
            rest
        }
    }
}

/// A traversal that meets only non-audio files yields no songs, and the
/// traversal itself raises no error: every entry is merely skipped.
pub proof fn lemma_no_audio_no_songs(entries: Seq<(Seq<char>, bool)>)
    requires
        forall|i: int| 0 <= i < entries.len() ==> !is_music_path((#[trigger] entries[i]).0),
    ensures
        collected_paths(entries).len() == 0,
    decreases entries.len(),
{
    if entries.len() > 0 {
        lemma_no_audio_no_songs(entries.drop_last());
    }
}

} // verus!
