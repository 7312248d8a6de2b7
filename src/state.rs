use vstd::prelude::*;

use crate::text::{join_path, joined};

verus! {

/// The persisted record this library reads and updates.
pub struct RegistryRecord {
    /// The first-run bootstrap has been done.
    pub initialized: bool,
    /// The remembered installation directory.
    pub amongus_path: Option<String>,
    /// The installation has been copied into the cache.
    pub base_game_setup: bool,
}

/// The view of an optional text.
pub open spec fn text_view(p: Option<String>) -> Option<Seq<char>> {
    match p {
        Some(s) => Some(s@),
        None => None,
    }
}

/// A record as plain values: `initialized`, `amongus_path`, `base_game_setup`.
pub type RecordModel = (bool, Option<Seq<char>>, bool);

impl View for RegistryRecord {
    type V = RecordModel;

    open spec fn view(&self) -> RecordModel {
        (self.initialized, text_view(self.amongus_path), self.base_game_setup)
    }
}

impl RegistryRecord {
    /// The record of a first run: nothing stored yet.
    pub fn new() -> (r: RegistryRecord)
        ensures
            r@ == (false, None::<Seq<char>>, false),
    {
        RegistryRecord { initialized: false, amongus_path: None, base_game_setup: false }
    }
}

/// The text of a string in Rust's debug form: quoted, with escapes.
pub uninterp spec fn quoted_of(s: Seq<char>) -> Seq<char>;

/// Relies on the `Debug` formatting of `str`: the text in double quotes with
/// its special characters escaped, a function of the text alone.
#[verifier::external_body]
fn debug_quoted(s: &str) -> (r: String)
    ensures
        r@ == quoted_of(s@),
{
    format!("{:?}", s)
}

/// The optional path in Rust's debug form: `None` or `Some("...")`.
pub open spec fn debug_path(p: Option<Seq<char>>) -> Seq<char> {
    match p {
        None => "None"@,
        Some(s) => "Some("@ + quoted_of(s) + ")"@,
    }
}

/// The message of a bootstrap that recorded `p` as the installation path.
pub open spec fn init_message(p: Option<Seq<char>>) -> Seq<char> {
    "Initialized. Among Us: "@ + debug_path(p)
}

/// The bootstrap phase on a record: the new record and whether it must be saved.
/// An initialized record stays as it is; otherwise it is marked initialized,
/// keeps its path or takes the discovered one, and is not yet cached.
pub open spec fn bootstrap_model(rec: RecordModel, discovered: Option<Seq<char>>) -> (RecordModel, bool) {
    if rec.0 {
        (rec, false)
    } else {
        ((true, if rec.1 is Some { rec.1 } else { discovered }, false), true)
    }
}

/// Whether the bootstrap phase wants a resolution pass: only when the record
/// is not initialized and knows no path.
pub fn needs_discovery(record: &RegistryRecord) -> (r: bool)
    ensures
        r == (!record.initialized && record.amongus_path is None),
{
    !record.initialized && record.amongus_path.is_none()
}

/// The bootstrap phase: fills an uninitialized record, with `discovered` as its
/// path when it knows none. Returns whether the record must be saved, and the
/// phase's message, empty when the record was already initialized.
pub fn initialize_store_if_needed(record: &mut RegistryRecord, discovered: Option<String>) -> (r: (
    bool,
    String,
))
    ensures
        (final(record)@, r.0) == bootstrap_model(old(record)@, text_view(discovered)),
        r.1@ == if old(record).initialized {
            Seq::<char>::empty()
        } else {
            init_message(final(record)@.1)
        },
{
    if record.initialized {
        return (false, String::new());
    }
    if record.amongus_path.is_none() {
        record.amongus_path = discovered;
    }
    record.initialized = true;
    record.base_game_setup = false;
    let mut msg = String::from_str("Initialized. Among Us: ");
    match &record.amongus_path {
        None => msg.append("None"),
        Some(p) => {
            msg.append("Some(");
            let q = debug_quoted(p.as_str());
            msg.append(q.as_str());
            msg.append(")");
        },
    }
    (true, msg)
}

/// What became of the installation in the sync phase.
pub enum CacheOutcome {
    /// No installation path is known.
    NoPath,
    /// The known path does not exist on disk.
    SourceMissing,
    /// The installation at `version` is in the cache; `copied` tells whether
    /// this sync copied it there.
    Synced { version: String, copied: bool },
}

/// The sync phase on a record: the new record and whether it must be saved.
/// Only a synced installation marks the record cached, and only a change of
/// that flag asks for a save.
pub open spec fn sync_model(rec: RecordModel, outcome: CacheOutcome) -> (RecordModel, bool) {
    match outcome {
        CacheOutcome::Synced { .. } => ((rec.0, rec.1, true), !rec.2),
        _ => (rec, false),
    }
}

/// The sync phase's message: only a copy is reported.
pub open spec fn sync_message(outcome: CacheOutcome) -> Option<Seq<char>> {
    match outcome {
        CacheOutcome::Synced { version, copied } => if copied {
            Some("Cached base game v"@ + version@)
        } else {
            None
        },
        _ => None,
    }
}

/// The sync phase: records the outcome of bringing the cache up to date.
/// Returns whether the record must be saved, and the phase's message.
pub fn sync_base_game_cache(record: &mut RegistryRecord, outcome: CacheOutcome) -> (r: (
    bool,
    Option<String>,
))
    ensures
        (final(record)@, r.0) == sync_model(old(record)@, outcome),
        text_view(r.1) == sync_message(outcome),
{
    match outcome {
        CacheOutcome::Synced { version, copied } => {
            let dirty = !record.base_game_setup;
            record.base_game_setup = true;
            if copied {
                let mut msg = String::from_str("Cached base game v");
                msg.append(version.as_str());
                (dirty, Some(msg))
            } else {
                (dirty, None)
            }
        },
        _ => (false, None),
    }
}

/// The message of a whole startup: the bootstrap message, then the sync
/// message, with " | " between them when both are there.
pub open spec fn combined(first: Seq<char>, second: Option<Seq<char>>) -> Seq<char> {
    match second {
        None => first,
        Some(m) => if first.len() == 0 {
            m
        } else {
            first + " | "@ + m
        },
    }
}

/// Joins the bootstrap and the sync messages.
pub fn combine_messages(first: String, second: Option<String>) -> (r: String)
    ensures
        r@ == combined(first@, text_view(second)),
{
    match second {
        None => first,
        Some(m) => {
            if first.as_str().unicode_len() == 0 {
                m
            } else {
                let mut r = first;
                r.append(" | ");
                r.append(m.as_str());
                r
            }
        },
    }
}

/// The outcome of a sync that stops before looking at the installation: no
/// path is known, or the known path is missing on disk (`source_exists`
/// tells whether it exists). Nothing when the sync must go on.
pub open spec fn skipped_sync(path: Option<Seq<char>>, source_exists: bool) -> Option<CacheOutcome> {
    if path is None {
        Some(CacheOutcome::NoPath)
    } else if !source_exists {
        Some(CacheOutcome::SourceMissing)
    } else {
        None
    }
}

/// Decides whether the sync stops before looking at the installation at the
/// record's path, and with what outcome.
pub fn sync_skip(record: &RegistryRecord, source_exists: bool) -> (r: Option<CacheOutcome>)
    ensures
        r == skipped_sync(record@.1, source_exists),
{
    if record.amongus_path.is_none() {
        Some(CacheOutcome::NoPath)
    } else if !source_exists {
        Some(CacheOutcome::SourceMissing)
    } else {
        None
    }
}

/// The outcome of syncing the installation at `version`, given the names of
/// the cache's entries: it is copied exactly when the cache has no entry of it.
pub fn synced_outcome(entries: &Vec<String>, version: String) -> (r: CacheOutcome)
    ensures
        r == (CacheOutcome::Synced { version, copied: copy_needed(entry_set(entries@), version@) }),
{
    let copied = cache_needs_copy(entries, version.as_str());
    CacheOutcome::Synced { version, copied }
}

/// The versions present in the cache, given the names of its entries.
pub open spec fn entry_set(entries: Seq<String>) -> Set<Seq<char>> {
    Set::new(|v: Seq<char>| exists|i: int| 0 <= i < entries.len() && (#[trigger] entries[i])@ == v)
}

/// A sync of `version` copies exactly when the cache has no entry of it.
pub open spec fn copy_needed(cache: Set<Seq<char>>, version: Seq<char>) -> bool {
    !cache.contains(version)
}

/// The cache once a sync has had the given outcome: a synced version has its
/// entry, and nothing else changes.
pub open spec fn cache_after(cache: Set<Seq<char>>, outcome: CacheOutcome) -> Set<Seq<char>> {
    match outcome {
        CacheOutcome::Synced { version, .. } => cache.insert(version@),
        _ => cache,
    }
}

/// Whether `version` must be copied, given the names of the cache's entries.
pub fn cache_needs_copy(entries: &Vec<String>, version: &str) -> (r: bool)
    ensures
        r == copy_needed(entry_set(entries@), version@),
{
    let mut i: usize = 0;
    while i < entries.len()
        invariant
            i <= entries@.len(),
            forall|j: int| 0 <= j < i ==> (#[trigger] entries@[j])@ != version@,
        decreases entries@.len() - i,
    {
        if crate::text::same_text(entries[i].as_str(), version) {
            assert(entry_set(entries@).contains(version@)) by {
                assert((entries@[i as int])@ == version@);
            }
            return false;
        }
        i = i + 1;
    }
    true
}

/// The cache root under the app data directory.
pub open spec fn cache_root(data_dir: Seq<char>) -> Seq<char> {
    joined(joined(data_dir, "global"@), "amongus_base"@)
}

/// The cache entry of `version` under the app data directory.
pub open spec fn entry_path(data_dir: Seq<char>, version: Seq<char>) -> Seq<char> {
    joined(cache_root(data_dir), version)
}

/// The cache root under the app data directory.
pub fn cache_root_dir(data_dir: &str) -> (r: String)
    ensures
        r@ == cache_root(data_dir@),
{
    let g = join_path(data_dir, "global");
    join_path(g.as_str(), "amongus_base")
}

/// The directory that holds the cached copy of `version`.
pub fn cache_entry_dir(data_dir: &str, version: &str) -> (r: String)
    ensures
        r@ == entry_path(data_dir@, version@),
{
    let root = cache_root_dir(data_dir);
    join_path(root.as_str(), version)
}

/// The directories that must exist under the app data directory before
/// startup: the profiles, and the roots of the two caches.
pub fn app_directories() -> (r: Vec<&'static str>)
    ensures
        r@.len() == 3,
        r@[0]@ == "profiles"@,
        r@[1]@ == "global/amongus_base"@,
        r@[2]@ == "global/userdata_base"@,
{
    let mut r: Vec<&'static str> = Vec::new();
    r.push("profiles");
    r.push("global/amongus_base");
    r.push("global/userdata_base");
    r
}

/// The error of a forced setup, if there is one: already set up, no path
/// known, or the known path missing on disk (`source_exists` tells whether it
/// exists).
pub open spec fn setup_error(rec: RecordModel, source_exists: bool) -> Option<Seq<char>> {
    if rec.2 {
        Some("Base game already set up"@)
    } else if rec.1 is None {
        Some("Among Us path not found in registry"@)
    } else if !source_exists {
        Some("Among Us not found at: "@ + rec.1->0)
    } else {
        None
    }
}

/// Checks that a forced setup may go ahead, and gives the installation
/// directory to copy from. `source_exists` tells whether the record's path
/// exists on disk.
pub fn setup_base_game_source(record: &RegistryRecord, source_exists: bool) -> (r: Result<
    String,
    String,
>)
    ensures
        r is Err <==> setup_error(record@, source_exists) is Some,
        r matches Err(e) ==> Some(e@) == setup_error(record@, source_exists),
        r matches Ok(p) ==> record@.1 == Some(p@),
{
    if record.base_game_setup {
        return Err(String::from_str("Base game already set up"));
    }
    match &record.amongus_path {
        None => Err(String::from_str("Among Us path not found in registry")),
        Some(p) => {
            if !source_exists {
                let mut e = String::from_str("Among Us not found at: ");
                e.append(p.as_str());
                Err(e)
            } else {
                Ok(p.clone())
            }
        },
    }
}

/// Records a forced setup that copied `version`, and gives its message.
pub fn complete_base_game_setup(record: &mut RegistryRecord, version: &str) -> (r: String)
    ensures
        final(record)@ == (old(record)@.0, old(record)@.1, true),
        r@ == "Base game v"@ + version@ + " setup complete"@,
{
    record.base_game_setup = true;
    let mut r = String::from_str("Base game v");
    r.append(version);
    r.append(" setup complete");
    r
}

/// The remembered installation path.
pub fn get_among_us_path_from_store(record: &RegistryRecord) -> (r: Option<String>)
    ensures
        text_view(r) == record@.1,
{
    record.amongus_path.clone()
}

/// Remembers `new_path` as the installation path when it exists on disk
/// (`path_exists`), and marks the cache for a fresh look; otherwise fails and
/// leaves the record as it was.
pub fn update_among_us_path(record: &mut RegistryRecord, new_path: String, path_exists: bool) -> (r: Result<(), String>)
    ensures
        path_exists ==> r is Ok && final(record)@ == (old(record)@.0, Some(new_path@), false),
        !path_exists ==> final(record)@ == old(record)@,
        !path_exists ==> (r matches Err(e) && e@ == "Path does not exist: "@ + new_path@),
{
    if !path_exists {
        let mut e = String::from_str("Path does not exist: ");
        e.append(new_path.as_str());
        return Err(e);
    }
    record.amongus_path = Some(new_path);
    record.base_game_setup = false;
    Ok(())
}

/// A sync is idempotent: once a version has been synced, syncing it again
/// copies nothing, leaves the cache as it is, reports no copy, and does not
/// ask for the record to be saved.
pub proof fn lemma_sync_idempotent(cache: Set<Seq<char>>, rec: RecordModel, version: String, copied: bool)
    ensures
        ({
            let first = CacheOutcome::Synced { version, copied };
            let again = CacheOutcome::Synced { version, copied: false };
            let c1 = cache_after(cache, first);
            let r1 = sync_model(rec, first).0;
            &&& !copy_needed(c1, version@)
            &&& cache_after(c1, again) == c1
            &&& sync_model(r1, again) == (r1, false)
            &&& sync_message(again) is None
        }),
{
    let c1 = cache.insert(version@);
    assert(c1.insert(version@) =~= c1);
}

/// A sync whose source path is missing on disk succeeds with no change: the
/// cache, the record and the save flag stay as they were, and nothing is
/// reported.
pub proof fn lemma_missing_source_is_no_op(cache: Set<Seq<char>>, rec: RecordModel)
    ensures
        cache_after(cache, CacheOutcome::SourceMissing) == cache,
        sync_model(rec, CacheOutcome::SourceMissing) == (rec, false),
        sync_message(CacheOutcome::SourceMissing) is None,
{
}

proof fn lemma_joined_injective(base: Seq<char>, a: Seq<char>, b: Seq<char>)
    requires
        joined(base, a) == joined(base, b),
    ensures
        a == b,
{
    let p = if base.len() == 0 || base.last() == '/' || base.last() == '\\' {
        base
    } else {
        base + seq!['/']
    };
    assert(joined(base, a) == p + a);
    assert(joined(base, b) == p + b);
    assert(a =~= (p + a).subrange(p.len() as int, (p + a).len() as int));
    assert(b =~= (p + b).subrange(p.len() as int, (p + b).len() as int));
}

/// Two installations with different versions get two different cache
/// entries, and syncing one after the other leaves both in the cache.
pub proof fn lemma_versions_kept_apart(
    data_dir: Seq<char>,
    cache: Set<Seq<char>>,
    v1: String,
    c1: bool,
    v2: String,
    c2: bool,
)
    requires
        v1@ != v2@,
    ensures
        entry_path(data_dir, v1@) != entry_path(data_dir, v2@),
        ({
            let after = cache_after(
                cache_after(cache, CacheOutcome::Synced { version: v1, copied: c1 }),
                CacheOutcome::Synced { version: v2, copied: c2 },
            );
            after.contains(v1@) && after.contains(v2@)
        }),
{
    if entry_path(data_dir, v1@) == entry_path(data_dir, v2@) {
        lemma_joined_injective(cache_root(data_dir), v1@, v2@);
    }
}

/// The record is saved only when one of its fields changed: across the
/// bootstrap and sync phases a save is asked for exactly when the record
/// that results differs from the one read.
pub proof fn lemma_save_only_on_change(rec: RecordModel, discovered: Option<Seq<char>>, outcome: CacheOutcome)
    ensures
        ({
            let (b, d1) = bootstrap_model(rec, discovered);
            let (s, d2) = sync_model(b, outcome);
            (d1 || d2) == (s != rec)
        }),
{
}

} // verus!
