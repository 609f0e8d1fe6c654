//! Selection of directory entries: an entry is extracted exactly when it has
//! a retrievable name whose lowercase form ends with the event-log suffix.

use vstd::prelude::*;
use vstd::string::StrSliceExecFns;
use vstd::string::StringExecFns;

verus! {

/// The lowercase form of a character sequence, as Unicode case mapping
/// defines it. Only the facts stated by the trusted wrapper below are
/// known about it.
pub uninterp spec fn lower_of(s: Seq<char>) -> Seq<char>;

/// Relies on `str::to_lowercase` from std: the result is the Unicode
/// lowercase mapping of the input and depends on the characters alone.
#[verifier::external_body]
fn to_lower(s: &str) -> (r: String)
    ensures
        r@ == lower_of(s@),
{
    s.to_lowercase()
}

/// A character sequence ends with the five characters `.evtx`.
pub open spec fn evtx_suffix(t: Seq<char>) -> bool {
    &&& t.len() >= 5
    &&& t[t.len() - 5] == '.'
    &&& t[t.len() - 4] == 'e'
    &&& t[t.len() - 3] == 'v'
    &&& t[t.len() - 2] == 't'
    &&& t[t.len() - 1] == 'x'
}

/// A name is selected for extraction when its lowercase form ends with
/// the target suffix. Only the suffix comparison is case-insensitive;
/// the name itself is used unchanged elsewhere.
pub open spec fn artifact_name_matches(name: Seq<char>) -> bool {
    evtx_suffix(lower_of(name))
}

/// Whether a character sequence ends with `.evtx`, case-sensitively.
fn ends_with_evtx(t: &str) -> (r: bool)
    ensures
        r == evtx_suffix(t@),
{
    let n = t.unicode_len();
    n >= 5 && t.get_char(n - 5) == '.' && t.get_char(n - 4) == 'e' && t.get_char(n - 3) == 'v'
        && t.get_char(n - 2) == 't' && t.get_char(n - 1) == 'x'
}

/// Whether a directory-entry name is selected for extraction: its
/// lowercase form must end with the target suffix.
pub fn name_matches(name: &str) -> (r: bool)
    ensures
        r == artifact_name_matches(name@),
{
    let lowered = to_lower(name);
    ends_with_evtx(lowered.as_str())
}

/// The path of an entry's output artifact: the entry's name, unchanged,
/// directly under the output directory.
pub fn output_path(dir: &str, name: &str) -> (r: String)
    ensures
        r@ == dir@ + "/"@ + name@,
{
    let mut r = String::from_str(dir);
    r.append("/");
    r.append(name);
    r
}

/// A directory entry as the traversal yields it: a name that may be
/// absent, and a reference to the entry's metadata.
pub struct DirEntry {
    /// The entry's name; an entry with no retrievable name is skipped
    /// silently, it is never an error.
    pub name: Option<String>,
    /// The inode-like reference used to open the entry's content.
    pub inode: u64,
}

/// An entry is selected exactly when its name is present and matches.
pub open spec fn entry_selected(e: DirEntry) -> bool {
    match e.name {
        Some(n) => artifact_name_matches(n@),
        None => false,
    }
}

/// Whether one directory entry is selected: a present, matching name.
pub fn is_selected(e: &DirEntry) -> (r: bool)
    ensures
        r == entry_selected(*e),
{
    match &e.name {
        Some(n) => name_matches(n.as_str()),
        None => false,
    }
}

/// Selects the entries to extract, as indices into the listing, in the
/// listing's order. An index is in the result exactly when its entry has
/// a present name whose lowercase form ends with the target suffix; no
/// index appears twice.
pub fn select_artifacts(entries: &Vec<DirEntry>) -> (plan: Vec<usize>)
    ensures
        forall|j: int|
            0 <= j < plan@.len() ==> plan@[j] < entries@.len() && entry_selected(
                entries@[plan@[j] as int],
            ),
        forall|j: int, k: int| 0 <= j < k < plan@.len() ==> plan@[j] < plan@[k],
        forall|i: int|
            0 <= i < entries@.len() && entry_selected(entries@[i]) ==> exists|j: int|
                0 <= j < plan@.len() && plan@[j] == i,
{
    let mut plan: Vec<usize> = Vec::new();
    let n = entries.len();
    let mut i: usize = 0;
    while i < n
        invariant
            n == entries@.len(),
            i <= n,
            forall|j: int|
                0 <= j < plan@.len() ==> plan@[j] < i && entry_selected(
                    entries@[plan@[j] as int],
                ),
            forall|j: int, k: int| 0 <= j < k < plan@.len() ==> plan@[j] < plan@[k],
            forall|m: int|
                0 <= m < i && entry_selected(entries@[m]) ==> exists|j: int|
                    0 <= j < plan@.len() && plan@[j] == m,
        decreases n - i,
    {
        let ghost prev = plan@;
        if is_selected(&entries[i]) {
            plan.push(i);
            proof {
                assert forall|m: int| 0 <= m < i && entry_selected(entries@[m]) implies exists|
                    j: int,
                |
                    0 <= j < plan@.len() && plan@[j] == m by {
                    let j = choose|j: int| 0 <= j < prev.len() && prev[j] == m;
                    assert(plan@[j] == m);
                }
                assert(plan@[plan@.len() - 1] == i);
            }
        }
        i = i + 1;
    }
    plan
}

} // verus!
