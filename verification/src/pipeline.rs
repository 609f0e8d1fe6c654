//! The traversal-and-copy engine over one artifact directory: selects the
//! entries whose name matches, streams each one to the output directory,
//! isolates per-entry failures, and aborts the run on a short read.

use vstd::prelude::*;
use vstd::pervasive::VecAdditionalExecFns;
use vstd::string::StringExecFns;
use crate::artifacts::artifact_name_matches;
use crate::artifacts::name_matches;
use crate::source::str_content_eq;
use crate::traverse::description_matches;
use crate::traverse::has_fs_marker;
use crate::stream::copy_content;
use crate::stream::lemma_chunk_bounds;
use crate::stream::written_len;
use crate::stream::CopyFailure;

verus! {

/// One directory entry together with what the filesystem holds behind
/// it: whether its metadata and content handle open, the size its
/// content handle declares, and the bytes its content stream can
/// actually yield.
pub struct EntryModel {
    /// The entry's name; absent names are skipped silently.
    pub name: Option<String>,
    /// Whether the entry's metadata and content handle open.
    pub meta_ok: bool,
    /// The byte length the content handle declares.
    pub declared: u64,
    /// The bytes the content stream yields, in order, before it is
    /// exhausted. A faithful handle yields exactly `declared` bytes;
    /// fewer model corruption.
    pub content: Vec<u8>,
}

/// The entry's name, empty when absent.
pub open spec fn model_name(e: EntryModel) -> Seq<char> {
    match e.name {
        Some(n) => n@,
        None => Seq::empty(),
    }
}

/// The entry is selected: its name is present and matches.
pub open spec fn model_selected(e: EntryModel) -> bool {
    match e.name {
        Some(n) => artifact_name_matches(n@),
        None => false,
    }
}

/// The entry is selected but its handle fails to open: it is skipped
/// and the run continues.
pub open spec fn model_skipped(e: EntryModel) -> bool {
    model_selected(e) && !e.meta_ok
}

/// The entry is selected and its handle opens: an output artifact is
/// created for it.
pub open spec fn model_writes(e: EntryModel) -> bool {
    model_selected(e) && e.meta_ok
}

/// The entry's copy hits a short read: the stream is exhausted before
/// the declared size. This aborts the whole run.
pub open spec fn model_fatal(e: EntryModel) -> bool {
    model_writes(e) && e.content@.len() < e.declared
}

/// The entry's copy completes.
pub open spec fn model_ok(e: EntryModel) -> bool {
    model_writes(e) && e.declared <= e.content@.len()
}

/// The bytes a completed copy writes for the entry.
pub open spec fn artifact_bytes(e: EntryModel) -> Seq<u8> {
    e.content@.subrange(0, written_len(e.content@.len() as int, e.declared as int))
}

/// One entry's effect on the output directory: a completed copy binds
/// the entry's name to its artifact, every other entry leaves the
/// directory untouched.
pub open spec fn step_entry(m: Map<Seq<char>, Seq<u8>>, e: EntryModel) -> Map<Seq<char>, Seq<u8>> {
    if model_ok(e) {
        m.insert(model_name(e), artifact_bytes(e))
    } else {
        m
    }
}

/// The output directory after the engine has processed a listing in
/// order, starting from `m`, with no short read among the entries.
pub open spec fn dir_after(m: Map<Seq<char>, Seq<u8>>, s: Seq<EntryModel>) -> Map<
    Seq<char>,
    Seq<u8>,
>
    decreases s.len(),
{
    if s.len() == 0 {
        m
    } else {
        step_entry(dir_after(m, s.drop_last()), s.last())
    }
}

/// The artifact the listing's last completed copy binds to `k`, if any
/// entry writes `k` at all.
pub open spec fn last_writer_bytes(s: Seq<EntryModel>, k: Seq<char>) -> Option<Seq<u8>>
    decreases s.len(),
{
    if s.len() == 0 {
        None
    } else if model_ok(s.last()) && model_name(s.last()) == k {
        Some(artifact_bytes(s.last()))
    } else {
        last_writer_bytes(s.drop_last(), k)
    }
}

/// What the engine leaves at one name: the last completed copy of that
/// name decides it, and a name no entry writes keeps its prior binding.
proof fn lemma_dir_after_at(m: Map<Seq<char>, Seq<u8>>, s: Seq<EntryModel>, k: Seq<char>)
    ensures
        match last_writer_bytes(s, k) {
            Some(v) => dir_after(m, s).contains_key(k) && dir_after(m, s)[k] == v,
            None => dir_after(m, s).contains_key(k) == m.contains_key(k) && (m.contains_key(k)
                ==> dir_after(m, s)[k] == m[k]),
        },
    decreases s.len(),
{
    if s.len() > 0 {
        lemma_dir_after_at(m, s.drop_last(), k);
    }
}

/// Idempotence of extraction: running the engine twice over the same
/// listing leaves the output directory exactly as one run leaves it.
/// Each artifact is overwritten with identical bytes, never appended to
/// or duplicated.
pub proof fn lemma_extraction_idempotent(m: Map<Seq<char>, Seq<u8>>, s: Seq<EntryModel>)
    ensures
        dir_after(dir_after(m, s), s) == dir_after(m, s),
{
    let once = dir_after(m, s);
    let twice = dir_after(once, s);
    assert forall|k: Seq<char>| twice.dom().contains(k) == once.dom().contains(k) by {
        lemma_dir_after_at(m, s, k);
        lemma_dir_after_at(once, s, k);
    }
    assert(twice.dom() =~= once.dom());
    assert forall|k: Seq<char>| once.dom().contains(k) implies twice[k] == once[k] by {
        lemma_dir_after_at(m, s, k);
        lemma_dir_after_at(once, s, k);
    }
    assert(twice =~= once);
}

/// Round trip: a faithful content handle yields exactly the bytes it
/// declares, and the artifact written for such an entry is its content,
/// whose length is the declared size.
pub proof fn lemma_round_trip(e: EntryModel)
    requires
        e.content@.len() == e.declared,
    ensures
        artifact_bytes(e).len() == e.declared,
        artifact_bytes(e) == e.content@,
{
    lemma_chunk_bounds(e.declared as int, 0);
    assert(artifact_bytes(e) =~= e.content@);
}

/// The association of artifact names to bytes that a sequence of output
/// files establishes; the entry written last decides a name.
pub open spec fn spec_lookup(s: Seq<(String, Vec<u8>)>, k: Seq<char>) -> Option<Seq<u8>>
    decreases s.len(),
{
    if s.len() == 0 {
        None
    } else if s.last().0@ == k {
        Some(s.last().1@)
    } else {
        spec_lookup(s.drop_last(), k)
    }
}

/// Replacing the bytes of one file, when names are unique, rebinds that
/// file's name and nothing else.
proof fn lemma_lookup_replace(s: Seq<(String, Vec<u8>)>, t: Seq<(String, Vec<u8>)>, j: int)
    requires
        s.len() == t.len(),
        0 <= j < s.len(),
        forall|a: int, b: int| 0 <= a < b < s.len() ==> s[a].0@ != s[b].0@,
        forall|x: int| 0 <= x < s.len() && x != j ==> t[x] == s[x],
        t[j].0@ == s[j].0@,
    ensures
        forall|k: Seq<char>|
            spec_lookup(t, k) == if k == s[j].0@ {
                Some(t[j].1@)
            } else {
                spec_lookup(s, k)
            },
    decreases s.len(),
{
    if j == s.len() - 1 {
        assert(t.drop_last() =~= s.drop_last());
        assert forall|k: Seq<char>|
            spec_lookup(t, k) == (if k == s[j].0@ {
                Some(t[j].1@)
            } else {
                spec_lookup(s, k)
            }) by {
            if k == s[j].0@ {
                assert(t.last().0@ == k);
            } else {
                assert(spec_lookup(t, k) == spec_lookup(t.drop_last(), k));
                assert(spec_lookup(s, k) == spec_lookup(s.drop_last(), k));
            }
        }
    } else {
        assert(t.last() == s.last());
        lemma_lookup_replace(s.drop_last(), t.drop_last(), j);
        assert(s.drop_last()[j] == s[j]);
        assert(t.drop_last()[j] == t[j]);
        assert forall|k: Seq<char>|
            spec_lookup(t, k) == (if k == s[j].0@ {
                Some(t[j].1@)
            } else {
                spec_lookup(s, k)
            }) by {
            if k == s.last().0@ {
                assert(s[s.len() - 1].0@ != s[j].0@);
                assert(spec_lookup(t, k) == Some(t.last().1@));
                assert(spec_lookup(s, k) == Some(s.last().1@));
            } else {
                assert(spec_lookup(t, k) == spec_lookup(t.drop_last(), k));
                assert(spec_lookup(s, k) == spec_lookup(s.drop_last(), k));
            }
        }
    }
}

/// With unique names, the file at any index decides its own name.
proof fn lemma_lookup_found(s: Seq<(String, Vec<u8>)>, j: int)
    requires
        0 <= j < s.len(),
        forall|a: int, b: int| 0 <= a < b < s.len() ==> s[a].0@ != s[b].0@,
    ensures
        spec_lookup(s, s[j].0@) == Some(s[j].1@),
    decreases s.len(),
{
    if j < s.len() - 1 {
        lemma_lookup_found(s.drop_last(), j);
        assert(s.drop_last()[j] == s[j]);
    }
}

/// A name no file carries is not bound.
proof fn lemma_lookup_absent(s: Seq<(String, Vec<u8>)>, k: Seq<char>)
    requires
        forall|x: int| 0 <= x < s.len() ==> s[x].0@ != k,
    ensures
        spec_lookup(s, k) is None,
    decreases s.len(),
{
    if s.len() > 0 {
        lemma_lookup_absent(s.drop_last(), k);
    }
}

/// The output directory: one file per artifact name, directly under it,
/// and a flag recording whether the directory itself has been created.
/// Creation is lazy, at most once per run, on the first entry that
/// opens; a file written again is overwritten, never appended to.
pub struct OutputDir {
    files: Vec<(String, Vec<u8>)>,
    created: bool,
}

impl View for OutputDir {
    type V = Map<Seq<char>, Seq<u8>>;

    closed spec fn view(&self) -> Map<Seq<char>, Seq<u8>> {
        Map::new(
            |k: Seq<char>| spec_lookup(self.files@, k) is Some,
            |k: Seq<char>|
                match spec_lookup(self.files@, k) {
                    Some(v) => v,
                    None => Seq::empty(),
                },
        )
    }
}

impl OutputDir {
    /// Each artifact name occurs at most once.
    pub closed spec fn wf(&self) -> bool {
        forall|a: int, b: int|
            0 <= a < b < self.files@.len() ==> self.files@[a].0@ != self.files@[b].0@
    }

    /// Whether the directory itself has been created yet.
    pub closed spec fn is_created(&self) -> bool {
        self.created
    }

    /// An output location with no directory created and no files.
    pub fn new() -> (d: OutputDir)
        ensures
            d.wf(),
            d@ == Map::<Seq<char>, Seq<u8>>::empty(),
            !d.is_created(),
    {
        let d = OutputDir { files: Vec::new(), created: false };
        proof {
            assert(d@ =~= Map::<Seq<char>, Seq<u8>>::empty());
        }
        d
    }

    /// Whether the directory itself has been created yet.
    pub fn created(&self) -> (r: bool)
        ensures
            r == self.is_created(),
    {
        self.created
    }

    /// Creates the directory, with any missing ancestors; idempotent,
    /// and it changes no file.
    pub fn create_dir(&mut self)
        requires
            old(self).wf(),
        ensures
            final(self).wf(),
            final(self)@ == old(self)@,
            final(self).is_created(),
    {
        self.created = true;
        proof {
            assert(self@ =~= old(self)@);
        }
    }

    /// Writes one artifact: the name is bound to exactly these bytes,
    /// truncating any file already there, and every other name keeps
    /// its bytes.
    pub fn put(&mut self, name: &str, bytes: Vec<u8>)
        requires
            old(self).wf(),
        ensures
            final(self).wf(),
            final(self)@ == old(self)@.insert(name@, bytes@),
            final(self).is_created() == old(self).is_created(),
    {
        let n = self.files.len();
        let mut j: usize = 0;
        while j < n
            invariant
                n == self.files@.len(),
                j <= n,
                self.files@ == old(self).files@,
                self.created == old(self).created,
                old(self).wf(),
                forall|t: int| 0 <= t < j ==> self.files@[t].0@ != name@,
            decreases n - j,
        {
            if str_content_eq(self.files[j].0.as_str(), name) {
                let ghost prev = self.files@;
                let pair = (String::from_str(name), bytes);
                self.files.set(j, pair);
                proof {
                    lemma_lookup_replace(prev, self.files@, j as int);
                    assert(self@ =~= old(self)@.insert(name@, bytes@));
                }
                return ;
            }
            j = j + 1;
        }
        let ghost prev = self.files@;
        let pair = (String::from_str(name), bytes);
        self.files.push(pair);
        proof {
            assert(self.files@.drop_last() =~= prev);
            assert forall|k: Seq<char>| k != name@ implies spec_lookup(self.files@, k)
                == spec_lookup(prev, k) by {}
            assert(self@ =~= old(self)@.insert(name@, bytes@));
        }
    }

    /// The bytes written for a name, if any artifact carries it.
    pub fn artifact(&self, name: &str) -> (r: Option<&Vec<u8>>)
        requires
            self.wf(),
        ensures
            match r {
                Some(v) => self@.contains_key(name@) && v@ == self@[name@],
                None => !self@.contains_key(name@),
            },
    {
        let n = self.files.len();
        let mut j: usize = 0;
        while j < n
            invariant
                n == self.files@.len(),
                j <= n,
                self.wf(),
                forall|t: int| 0 <= t < j ==> self.files@[t].0@ != name@,
            decreases n - j,
        {
            if str_content_eq(self.files[j].0.as_str(), name) {
                proof {
                    lemma_lookup_found(self.files@, j as int);
                }
                return Some(&self.files[j].1);
            }
            j = j + 1;
        }
        proof {
            lemma_lookup_absent(self.files@, name@);
        }
        None
    }
}

/// A short read that aborted the run: the entry it happened at, and the
/// offset the copy had reached when a read yielded no bytes.
#[derive(Clone, Copy, Debug, PartialEq, Eq, Structural)]
pub struct DirFailure {
    /// Index of the entry whose copy hit the short read.
    pub entry: usize,
    /// The offset at which a read yielded zero bytes.
    pub offset: u64,
}

/// Copies a byte vector.
fn clone_bytes(v: &Vec<u8>) -> (r: Vec<u8>)
    ensures
        r@ == v@,
{
    let n = v.len();
    let mut r: Vec<u8> = Vec::new();
    let mut i: usize = 0;
    while i < n
        invariant
            n == v@.len(),
            i <= n,
            r@ == v@.subrange(0, i as int),
        decreases n - i,
    {
        r.push(v[i]);
        proof {
            assert(r@ =~= v@.subrange(0, i as int + 1));
        }
        i = i + 1;
    }
    proof {
        assert(r@ =~= v@);
    }
    r
}

/// Processes one artifact directory's listing in order. Every selected
/// entry whose handle opens gets an artifact; a selected entry whose
/// handle fails to open is skipped, reported in the returned indices,
/// and the run continues; an entry with no retrievable name contributes
/// nothing and is no error. A short read aborts the run at its entry,
/// leaving that artifact holding the bytes read so far; everything
/// before it is already written. The output directory is created lazily,
/// at the first entry that opens.
pub fn process_directory(entries: &Vec<EntryModel>, out: &mut OutputDir) -> (r: Result<
    Vec<usize>,
    DirFailure,
>)
    requires
        old(out).wf(),
    ensures
        final(out).wf(),
        r is Ok <==> (forall|i: int| 0 <= i < entries@.len() ==> !model_fatal(entries@[i])),
        r is Ok ==> final(out)@ == dir_after(old(out)@, entries@),
        r is Ok ==> final(out).is_created() == (old(out).is_created() || exists|i: int|
            0 <= i < entries@.len() && model_writes(entries@[i])),
        r is Ok ==> forall|j: int|
            0 <= j < r->Ok_0@.len() ==> r->Ok_0@[j] < entries@.len() && model_skipped(
                entries@[r->Ok_0@[j] as int],
            ),
        r is Ok ==> forall|j: int, k: int| 0 <= j < k < r->Ok_0@.len() ==> r->Ok_0@[j] < r->Ok_0@[k],
        r is Ok ==> forall|i: int|
            0 <= i < entries@.len() && model_skipped(entries@[i]) ==> exists|j: int|
                0 <= j < r->Ok_0@.len() && r->Ok_0@[j] == i,
        r is Err ==> r->Err_0.entry < entries@.len() && model_fatal(
            entries@[r->Err_0.entry as int],
        ),
        r is Err ==> forall|i: int| 0 <= i < r->Err_0.entry ==> !model_fatal(entries@[i]),
        r is Err ==> r->Err_0.offset == entries@[r->Err_0.entry as int].content@.len(),
        r is Err ==> final(out)@ == dir_after(
            old(out)@,
            entries@.subrange(0, r->Err_0.entry as int),
        ).insert(
            model_name(entries@[r->Err_0.entry as int]),
            entries@[r->Err_0.entry as int].content@,
        ),
        r is Err ==> final(out).is_created(),
{
    let mut skipped: Vec<usize> = Vec::new();
    let n = entries.len();
    let mut i: usize = 0;
    proof {
        assert(entries@.subrange(0, 0) =~= Seq::<EntryModel>::empty());
    }
    while i < n
        invariant
            old(out).wf(),
            out.wf(),
            n == entries@.len(),
            i <= n,
            out@ == dir_after(old(out)@, entries@.subrange(0, i as int)),
            out.is_created() == (old(out).is_created() || exists|t: int|
                0 <= t < i && model_writes(entries@[t])),
            forall|t: int| 0 <= t < i ==> !model_fatal(entries@[t]),
            forall|j: int|
                0 <= j < skipped@.len() ==> skipped@[j] < i && model_skipped(
                    entries@[skipped@[j] as int],
                ),
            forall|j: int, k: int| 0 <= j < k < skipped@.len() ==> skipped@[j] < skipped@[k],
            forall|m: int|
                0 <= m < i && model_skipped(entries@[m]) ==> exists|j: int|
                    0 <= j < skipped@.len() && skipped@[j] == m,
        decreases n - i,
    {
        let ghost pre = entries@.subrange(0, i as int);
        let ghost post = entries@.subrange(0, i as int + 1);
        proof {
            assert(post.drop_last() =~= pre);
            assert(post.last() == entries@[i as int]);
        }
        let e = &entries[i];
        let ghost prevsk = skipped@;
        match &e.name {
            None => {},
            Some(nm) => {
                if name_matches(nm.as_str()) {
                    if !e.meta_ok {
                        skipped.push(i);
                        proof {
                            assert forall|m: int|
                                0 <= m < i && model_skipped(entries@[m]) implies exists|j: int|
                                0 <= j < skipped@.len() && skipped@[j] == m by {
                                let j = choose|j: int| 0 <= j < prevsk.len() && prevsk[j] == m;
                                assert(skipped@[j] == m);
                            }
                            assert(skipped@[skipped@.len() - 1] == i);
                        }
                    } else {
                        out.create_dir();
                        match copy_content(&e.content, e.declared) {
                            Ok(done) => {
                                let (bytes, _chunks) = done;
                                out.put(nm.as_str(), bytes);
                            },
                            Err(failure) => {
                                let partial = clone_bytes(&e.content);
                                out.put(nm.as_str(), partial);
                                let offset = match failure {
                                    CopyFailure::ShortRead { offset } => offset,
                                };
                                return Err(DirFailure { entry: i, offset });
                            },
                        }
                    }
                }
            },
        }
        i = i + 1;
    }
    proof {
        assert(entries@.subrange(0, n as int) =~= entries@);
    }
    Ok(skipped)
}

/// One partition together with what opening it yields: whether a
/// filesystem opens at its start offset, and, within that filesystem,
/// the listing of the fixed artifact directory, absent when that
/// directory cannot be opened.
pub struct PartitionModel {
    /// The partition's description string.
    pub desc: String,
    /// The byte offset at which the partition starts.
    pub start: u64,
    /// Whether a filesystem opens at the partition's start offset; a
    /// matching partition where it does not is skipped, logged, and the
    /// run continues.
    pub fs_ok: bool,
    /// The artifact directory's listing; `None` when the directory
    /// cannot be opened, which aborts the run.
    pub dir: Option<Vec<EntryModel>>,
}

/// The partition's description carries the filesystem marker, so the
/// traversal attempts it.
pub open spec fn part_matching(p: PartitionModel) -> bool {
    has_fs_marker(p.desc@)
}

/// The partition's artifact-directory listing, empty when absent.
pub open spec fn part_entries(p: PartitionModel) -> Seq<EntryModel> {
    match p.dir {
        Some(v) => v@,
        None => Seq::empty(),
    }
}

/// The artifact directory of a matched, opened partition cannot be
/// opened: fatal to the whole run.
pub open spec fn part_dir_fatal(p: PartitionModel) -> bool {
    part_matching(p) && p.fs_ok && p.dir is None
}

/// Some entry of the partition's directory hits a short read: fatal to
/// the whole run.
pub open spec fn part_entry_fatal(p: PartitionModel) -> bool {
    &&& part_matching(p)
    &&& p.fs_ok
    &&& p.dir is Some
    &&& exists|e: int| 0 <= e < part_entries(p).len() && model_fatal(part_entries(p)[e])
}

/// The partition aborts the run.
pub open spec fn part_fatal(p: PartitionModel) -> bool {
    part_dir_fatal(p) || part_entry_fatal(p)
}

/// One partition's effect on the output directory: a matched partition
/// whose filesystem and directory open contributes its directory's
/// artifacts; every other partition contributes nothing.
pub open spec fn step_partition(m: Map<Seq<char>, Seq<u8>>, p: PartitionModel) -> Map<
    Seq<char>,
    Seq<u8>,
> {
    if part_matching(p) && p.fs_ok && p.dir is Some {
        dir_after(m, part_entries(p))
    } else {
        m
    }
}

/// The output directory after a run over a whole partition table, in
/// on-disk order, with no fatal partition.
pub open spec fn vol_after(m: Map<Seq<char>, Seq<u8>>, parts: Seq<PartitionModel>) -> Map<
    Seq<char>,
    Seq<u8>,
>
    decreases parts.len(),
{
    if parts.len() == 0 {
        m
    } else {
        step_partition(vol_after(m, parts.drop_last()), parts.last())
    }
}

/// The artifact the last completed copy anywhere in the volume binds to
/// `k`, if any partition's directory writes `k` at all.
pub open spec fn vol_last_writer(parts: Seq<PartitionModel>, k: Seq<char>) -> Option<Seq<u8>>
    decreases parts.len(),
{
    if parts.len() == 0 {
        None
    } else if part_matching(parts.last()) && parts.last().fs_ok && parts.last().dir is Some
        && last_writer_bytes(part_entries(parts.last()), k) is Some {
        last_writer_bytes(part_entries(parts.last()), k)
    } else {
        vol_last_writer(parts.drop_last(), k)
    }
}

/// What a whole run leaves at one name: the last completed copy of that
/// name anywhere in the volume decides it, and a name no partition
/// writes keeps its prior binding.
proof fn lemma_vol_after_at(m: Map<Seq<char>, Seq<u8>>, parts: Seq<PartitionModel>, k: Seq<char>)
    ensures
        match vol_last_writer(parts, k) {
            Some(v) => vol_after(m, parts).contains_key(k) && vol_after(m, parts)[k] == v,
            None => vol_after(m, parts).contains_key(k) == m.contains_key(k) && (m.contains_key(k)
                ==> vol_after(m, parts)[k] == m[k]),
        },
    decreases parts.len(),
{
    if parts.len() > 0 {
        let prev = vol_after(m, parts.drop_last());
        lemma_vol_after_at(m, parts.drop_last(), k);
        lemma_dir_after_at(prev, part_entries(parts.last()), k);
    }
}

/// Idempotence of a whole run: extracting the same volume twice into
/// the same output directory leaves it exactly as one run leaves it;
/// every artifact is overwritten with identical bytes.
pub proof fn lemma_run_idempotent(m: Map<Seq<char>, Seq<u8>>, parts: Seq<PartitionModel>)
    ensures
        vol_after(vol_after(m, parts), parts) == vol_after(m, parts),
{
    let once = vol_after(m, parts);
    let twice = vol_after(once, parts);
    assert forall|k: Seq<char>| twice.dom().contains(k) == once.dom().contains(k) by {
        lemma_vol_after_at(m, parts, k);
        lemma_vol_after_at(once, parts, k);
    }
    assert(twice.dom() =~= once.dom());
    assert forall|k: Seq<char>| once.dom().contains(k) implies twice[k] == once[k] by {
        lemma_vol_after_at(m, parts, k);
        lemma_vol_after_at(once, parts, k);
    }
    assert(twice =~= once);
}

/// A condition that aborts a run over a volume.
#[derive(Clone, Copy, Debug, PartialEq, Eq, Structural)]
pub enum RunFailure {
    /// The artifact directory of this matched partition did not open.
    DirectoryOpen { partition: usize },
    /// A copy in this matched partition hit a short read at this entry
    /// and offset.
    ShortRead { partition: usize, entry: usize, offset: u64 },
}

/// Runs the engine over a whole partition table: every partition whose
/// description carries the filesystem marker is attempted, in on-disk
/// order, each independently; one whose filesystem does not open is
/// skipped and the run continues; a matched partition whose artifact
/// directory does not open, or any short read, aborts the run.
pub fn run_volume(parts: &Vec<PartitionModel>, out: &mut OutputDir) -> (r: Result<(), RunFailure>)
    requires
        old(out).wf(),
    ensures
        final(out).wf(),
        r is Ok <==> (forall|i: int| 0 <= i < parts@.len() ==> !part_fatal(parts@[i])),
        r is Ok ==> final(out)@ == vol_after(old(out)@, parts@),
        match r {
            Ok(done) => done == (),
            Err(f) => match f {
                RunFailure::DirectoryOpen { partition } => {
                    &&& partition < parts@.len()
                    &&& (forall|t: int| 0 <= t < partition ==> !part_fatal(parts@[t]))
                    &&& part_dir_fatal(parts@[partition as int])
                    &&& final(out)@ == vol_after(old(out)@, parts@.subrange(0, partition as int))
                },
                RunFailure::ShortRead { partition, entry, offset } => {
                    &&& partition < parts@.len()
                    &&& (forall|t: int| 0 <= t < partition ==> !part_fatal(parts@[t]))
                    &&& part_matching(parts@[partition as int])
                    &&& parts@[partition as int].fs_ok
                    &&& parts@[partition as int].dir is Some
                    &&& entry < part_entries(parts@[partition as int]).len()
                    &&& model_fatal(part_entries(parts@[partition as int])[entry as int])
                    &&& (forall|t: int|
                        0 <= t < entry ==> !model_fatal(part_entries(parts@[partition as int])[t]))
                    &&& offset == part_entries(parts@[partition as int])[entry as int].content@.len()
                    &&& final(out)@ == dir_after(
                        vol_after(old(out)@, parts@.subrange(0, partition as int)),
                        part_entries(parts@[partition as int]).subrange(0, entry as int),
                    ).insert(
                        model_name(part_entries(parts@[partition as int])[entry as int]),
                        part_entries(parts@[partition as int])[entry as int].content@,
                    )
                    &&& final(out).is_created()
                },
            },
        },
{
    let n = parts.len();
    let mut i: usize = 0;
    proof {
        assert(parts@.subrange(0, 0) =~= Seq::<PartitionModel>::empty());
    }
    while i < n
        invariant
            old(out).wf(),
            out.wf(),
            n == parts@.len(),
            i <= n,
            out@ == vol_after(old(out)@, parts@.subrange(0, i as int)),
            forall|t: int| 0 <= t < i ==> !part_fatal(parts@[t]),
        decreases n - i,
    {
        let ghost pre = parts@.subrange(0, i as int);
        let ghost post = parts@.subrange(0, i as int + 1);
        proof {
            assert(post.drop_last() =~= pre);
            assert(post.last() == parts@[i as int]);
        }
        let p = &parts[i];
        if description_matches(p.desc.as_str()) {
            if p.fs_ok {
                match &p.dir {
                    None => {
                        return Err(RunFailure::DirectoryOpen { partition: i });
                    },
                    Some(entries) => {
                        match process_directory(entries, out) {
                            Ok(_) => {},
                            Err(df) => {
                                return Err(
                                    RunFailure::ShortRead {
                                        partition: i,
                                        entry: df.entry,
                                        offset: df.offset,
                                    },
                                );
                            },
                        }
                    },
                }
            }
        }
        i = i + 1;
    }
    proof {
        assert(parts@.subrange(0, n as int) =~= parts@);
    }
    Ok(())
}

} // verus!
