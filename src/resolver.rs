//! Finding the most recently modified save file that a request names.

use crate::error::{result_view, ErrorView, MapError};
use crate::text::{append_str, owned};
use vstd::prelude::*;

verus! {

/// The message of the error for a name that holds a forbidden character.
pub const INVALID_NAME_MESSAGE: &'static str = "invalid characters in name";

/// What precedes the pattern in the error for a pattern that matched nothing.
pub const NO_MATCH_PREFIX: &'static str = "no matching files found for pattern: ";

/// What precedes the directory walker's own words in the error for a pattern
/// that it could not parse.
pub const INVALID_PATTERN_PREFIX: &'static str = "Invalid pattern: ";

/// A character that would let a name leave the save directory or change the
/// pattern's extension.
pub open spec fn is_forbidden(c: char) -> bool {
    c == '/' || c == '\\' || c == '.'
}

/// A name that may be put into a pattern.
pub open spec fn name_is_valid(name: Seq<char>) -> bool {
    forall|i: int| 0 <= i < name.len() ==> !is_forbidden(#[trigger] name[i])
}

/// `<dir>/<name>*.sav`: the files of `dir`, not of its subdirectories, whose
/// name starts with `name` and ends in `.sav`.
pub open spec fn map_pattern_of(dir: Seq<char>, name: Seq<char>) -> Seq<char> {
    dir + "/"@ + name + "*.sav"@
}

/// A file that matched the pattern, with its last-modified time in nanoseconds
/// from the Unix epoch (negative before it); `None` where its metadata could
/// not be read.
#[derive(Debug)]
pub struct SaveCandidate {
    pub path: String,
    pub modified: Option<i128>,
}

/// The candidate at `i` has a readable time, no candidate is newer, and every
/// candidate before it is strictly older: the first of the newest.
pub open spec fn is_latest(s: Seq<SaveCandidate>, i: int) -> bool {
    &&& 0 <= i < s.len()
    &&& s[i].modified is Some
    &&& forall|j: int|
        0 <= j < s.len() && (#[trigger] s[j].modified) is Some ==> s[j].modified->0
            <= s[i].modified->0
    &&& forall|j: int|
        0 <= j < i && (#[trigger] s[j].modified) is Some ==> s[j].modified->0
            < s[i].modified->0
}

/// No candidate has a readable time.
pub open spec fn none_readable(s: Seq<SaveCandidate>) -> bool {
    forall|j: int| 0 <= j < s.len() ==> (#[trigger] s[j].modified) is None
}

/// A walk's outcome, seen through the views of its strings.
pub open spec fn listing_view(listing: Result<Vec<SaveCandidate>, String>) -> Result<
    Seq<SaveCandidate>,
    Seq<char>,
> {
    match listing {
        Ok(c) => Ok(c@),
        Err(m) => Err(m@),
    }
}

/// What a request answers once the directory has been walked with `pattern`:
/// the path of the first of the newest candidates; `NotFound` naming the
/// pattern where none has a readable time; `BadRequest` with the walker's
/// message where it refused the pattern.
pub open spec fn selection(
    pattern: Seq<char>,
    listing: Result<Seq<SaveCandidate>, Seq<char>>,
) -> Result<Seq<char>, ErrorView> {
    match listing {
        Err(m) => Err(ErrorView::BadRequest(INVALID_PATTERN_PREFIX@ + m)),
        Ok(s) => if none_readable(s) {
            Err(ErrorView::NotFound(NO_MATCH_PREFIX@ + pattern))
        } else {
            Ok(s[choose|i: int| is_latest(s, i)].path@)
        },
    }
}

/// What a request for `name` in `dir` answers, given what the walk of the
/// directory with the pattern gave. A name with a forbidden character is
/// refused before any walk, so `listing` plays no part then.
pub open spec fn resolution(
    dir: Seq<char>,
    name: Seq<char>,
    listing: Result<Seq<SaveCandidate>, Seq<char>>,
) -> Result<Seq<char>, ErrorView> {
    if !name_is_valid(name) {
        Err(ErrorView::BadRequest(INVALID_NAME_MESSAGE@))
    } else {
        selection(map_pattern_of(dir, name), listing)
    }
}

/// Whether `name` holds `/`, `\` or `.`.
pub fn has_invalid_chars(name: &str) -> (r: bool)
    ensures
        r == !name_is_valid(name@),
{
    let mut found = false;
    for c in it: name.chars()
        invariant
            it.seq() == name@,
            found == exists|i: int| 0 <= i < it.index() && is_forbidden(#[trigger] name@[i]),
    {
        if c == '/' || c == '\\' || c == '.' {
            found = true;
        }
    }
    found
}

/// The pattern `<dir>/<name>*.sav`, built without any check.
pub fn map_pattern(save_dir: &str, name: &str) -> (r: String)
    ensures
        r@ == map_pattern_of(save_dir@, name@),
{
    let mut s = owned(save_dir);
    append_str(&mut s, "/");
    append_str(&mut s, name);
    append_str(&mut s, "*.sav");
    s
}

/// The pattern to walk the save directory with for a request of `name`, or
/// `BadRequest` where the name holds a forbidden character.
pub fn checked_map_pattern(save_dir: &str, name: &str) -> (r: Result<String, MapError>)
    ensures
        name_is_valid(name@) ==> result_view(r) == Ok::<Seq<char>, ErrorView>(
            map_pattern_of(save_dir@, name@),
        ),
        !name_is_valid(name@) ==> result_view(r) == Err::<Seq<char>, ErrorView>(
            ErrorView::BadRequest(INVALID_NAME_MESSAGE@),
        ),
{
    if has_invalid_chars(name) {
        Err(MapError::BadRequest(owned(INVALID_NAME_MESSAGE)))
    } else {
        Ok(map_pattern(save_dir, name))
    }
}

/// The index of the first of the most recently modified candidates, or `None`
/// where no candidate has a readable time.
pub fn latest_candidate(cands: &Vec<SaveCandidate>) -> (r: Option<usize>)
    ensures
        r is None <==> none_readable(cands@),
        r matches Some(i) ==> is_latest(cands@, i as int),
{
    let mut best: Option<usize> = None;
    let mut best_time: i128 = 0;
    for i in 0..cands.len()
        invariant
            best is None ==> forall|j: int|
                0 <= j < i ==> (#[trigger] cands@[j].modified) is None,
            best matches Some(b) ==> {
                &&& b < i
                &&& cands@[b as int].modified == Some(best_time)
                &&& forall|j: int|
                    0 <= j < i && (#[trigger] cands@[j].modified) is Some
                        ==> cands@[j].modified->0 <= best_time
                &&& forall|j: int|
                    0 <= j < b && (#[trigger] cands@[j].modified) is Some
                        ==> cands@[j].modified->0 < best_time
            },
    {
        match cands[i].modified {
            Some(t) => {
                if best.is_none() || t > best_time {
                    best = Some(i);
                    best_time = t;
                }
            },
            None => {},
        }
    }
    best
}

/// The error for a pattern that the directory walker refused, with its words.
pub fn pattern_refused(walker_message: &str) -> (r: MapError)
    ensures
        r@ == ErrorView::BadRequest(INVALID_PATTERN_PREFIX@ + walker_message@),
{
    let mut msg = owned(INVALID_PATTERN_PREFIX);
    append_str(&mut msg, walker_message);
    MapError::BadRequest(msg)
}

/// What the request answers once the directory has been walked with `pattern`.
pub fn choose_latest_save(pattern: &str, listing: &Result<Vec<SaveCandidate>, String>) -> (r:
    Result<String, MapError>)
    ensures
        result_view(r) == selection(pattern@, listing_view(*listing)),
{
    match listing {
        Err(m) => Err(pattern_refused(m.as_str())),
        Ok(cands) => match latest_candidate(cands) {
            Some(i) => {
                proof {
                    lemma_latest_is_unique(cands@, i as int, choose|k: int| is_latest(cands@, k));
                }
                Ok(cands[i].path.clone())
            },
            None => {
                let mut msg = owned(NO_MATCH_PREFIX);
                append_str(&mut msg, pattern);
                Err(MapError::NotFound(msg))
            },
        },
    }
}

/// At most one candidate is the first of the newest: the file a request
/// serves is fixed by the directory's contents, so asking twice over an
/// unchanged directory serves the same file.
pub proof fn lemma_latest_is_unique(s: Seq<SaveCandidate>, i: int, j: int)
    requires
        is_latest(s, i),
        is_latest(s, j),
    ensures
        i == j,
{
    if i < j {
        assert(s[i].modified is Some);
    } else if j < i {
        assert(s[j].modified is Some);
    }
}

/// A name that holds `/`, `\` or `.` is refused with `BadRequest`, whatever
/// the directory holds: the answer does not depend on any walk of it.
pub proof fn lemma_forbidden_name_is_refused(
    dir: Seq<char>,
    name: Seq<char>,
    listing: Result<Seq<SaveCandidate>, Seq<char>>,
    other: Result<Seq<SaveCandidate>, Seq<char>>,
)
    requires
        exists|i: int| 0 <= i < name.len() && is_forbidden(#[trigger] name[i]),
    ensures
        resolution(dir, name, listing) == Err::<Seq<char>, ErrorView>(
            ErrorView::BadRequest(INVALID_NAME_MESSAGE@),
        ),
        resolution(dir, name, listing) == resolution(dir, name, other),
{
}

/// Where no file matches, the answer is `NotFound`, and its message ends with
/// the pattern that was walked, as it was built.
pub proof fn lemma_no_match_reports_pattern(
    dir: Seq<char>,
    name: Seq<char>,
    s: Seq<SaveCandidate>,
)
    requires
        name_is_valid(name),
        none_readable(s),
    ensures
        resolution(dir, name, Ok(s)) matches Err(ErrorView::NotFound(m)) && m.subrange(
            NO_MATCH_PREFIX@.len() as int,
            m.len() as int,
        ) == map_pattern_of(dir, name),
{
    let m = NO_MATCH_PREFIX@ + map_pattern_of(dir, name);
    assert(m.subrange(NO_MATCH_PREFIX@.len() as int, m.len() as int) =~= map_pattern_of(dir, name));
}

} // verus!
