//! Versioned snapshot store: what a snapshot holds, where it lives, and the
//! decisions taken when one is read back (accept, reject, rebuild).
use vstd::prelude::*;
use crate::indexer::{MediaFile, Timestamp};
use crate::text::{chars_of, string_from_chars};

verus! {

/// Schema version written into every snapshot; a snapshot of another version
/// is never loaded.
pub const CACHE_VERSION: &'static str = "1.0.0";

/// File name of the snapshot inside the cache directory.
pub const CACHE_FILENAME: &'static str = "index.json";

/// Relies on `chrono::Utc::now`: the current time, split into seconds and
/// nanoseconds since the Unix epoch. Nothing is promised of the value.
#[verifier::external_body]
fn current_time() -> (r: Timestamp) {
    let now = chrono::Utc::now();
    Timestamp { seconds: now.timestamp(), nanos: now.timestamp_subsec_nanos() }
}

/// Snapshot of indexed media persisted to disk.
#[derive(Debug)]
pub struct CacheSnapshot {
    pub version: String,
    pub generated_at: Timestamp,
    pub media: Vec<MediaFile>,
}

impl CacheSnapshot {
    /// A snapshot of `media` at the current schema version, stamped now.
    pub fn new(media: Vec<MediaFile>) -> (r: CacheSnapshot)
        ensures
            r.version@ == CACHE_VERSION@,
            r.media@ == media@,
    {
        CacheSnapshot {
            version: string_from_chars(chars_of(CACHE_VERSION).as_slice()),
            generated_at: current_time(),
            media,
        }
    }

    /// Whether the snapshot was written with the current schema version.
    pub open spec fn is_current(&self) -> bool {
        self.version@ == CACHE_VERSION@
    }
}

/// Failures of the snapshot store.
#[derive(Debug)]
pub enum CacheError {
    /// The file exists but could not be read.
    Unreadable(String),
    /// The file exists but is not a snapshot.
    CorruptCache(String),
    /// The file holds a snapshot of another schema version.
    SchemaMismatch { found: String },
    /// Writing the snapshot failed.
    PersistFailure(String),
}

/// What reading the snapshot file produced, before any check.
#[derive(Debug)]
pub enum LoadOutcome {
    /// There is no snapshot file.
    Missing,
    /// Reading the file failed.
    Unreadable(String),
    /// The file could not be decoded.
    Unparsable(String),
    /// The file decoded to this snapshot.
    Parsed(CacheSnapshot),
}

/// What a read of the snapshot file amounts to.
pub open spec fn load_result_spec(outcome: LoadOutcome) -> Result<Option<CacheSnapshot>, CacheError> {
    match outcome {
        LoadOutcome::Missing => Ok(None),
        LoadOutcome::Unreadable(m) => Err(CacheError::Unreadable(m)),
        LoadOutcome::Unparsable(m) => Err(CacheError::CorruptCache(m)),
        LoadOutcome::Parsed(s) => if s.is_current() {
            Ok(Some(s))
        } else {
            Err(CacheError::SchemaMismatch { found: s.version })
        },
    }
}

/// The next step after a load: keep the loaded snapshot, or rebuild.
#[derive(Debug)]
pub enum SnapshotPlan {
    Reuse(CacheSnapshot),
    Rebuild,
}

pub open spec fn plan_spec(loaded: Result<Option<CacheSnapshot>, CacheError>) -> SnapshotPlan {
    match loaded {
        Ok(Some(s)) => SnapshotPlan::Reuse(s),
        _ => SnapshotPlan::Rebuild,
    }
}

/// `dir` joined with `name` by one `/`, as `PathBuf::push` joins a relative name.
pub open spec fn join_path(dir: Seq<char>, name: Seq<char>) -> Seq<char> {
    if dir.len() == 0 || dir.last() == '/' {
        dir + name
    } else {
        dir + seq!['/'] + name
    }
}

/// JSON cache store that manages the read/write lifecycle of the index snapshot.
#[derive(Debug)]
pub struct CacheStore {
    path: String,
}

impl CacheStore {
    pub closed spec fn path_view(&self) -> Seq<char> {
        self.path@
    }

    /// A store whose snapshot lives in `cache_dir`.
    pub fn new(cache_dir: &str) -> (r: CacheStore)
        ensures
            r.path_view() == join_path(cache_dir@, CACHE_FILENAME@),
    {
        let mut chars = chars_of(cache_dir);
        let n = chars.len();
        if n > 0 && chars[n - 1] != '/' {
            chars.push('/');
        }
        let name = chars_of(CACHE_FILENAME);
        let ghost before = chars@;
        let mut i: usize = 0;
        while i < name.len()
            invariant
                i <= name.len(),
                chars@ == before + name@.subrange(0, i as int),
            decreases name.len() - i,
        {
            chars.push(name[i]);
            i += 1;
            assert(chars@ =~= before + name@.subrange(0, i as int));
        }
        assert(name@.subrange(0, name.len() as int) =~= name@);
        assert(chars@ =~= join_path(cache_dir@, CACHE_FILENAME@));
        CacheStore { path: string_from_chars(chars.as_slice()) }
    }

    /// Where the snapshot file lives.
    pub fn path(&self) -> (r: &str)
        ensures
            r@ == self.path_view(),
    {
        self.path.as_str()
    }

    /// Classifies what reading the snapshot file produced: a missing file is
    /// no snapshot, an undecodable one is corrupt, and one of another schema
    /// version is rejected like a corrupt one.
    pub fn load_result(outcome: LoadOutcome) -> (r: Result<Option<CacheSnapshot>, CacheError>)
        ensures
            r == load_result_spec(outcome),
    {
        match outcome {
            LoadOutcome::Missing => Ok(None),
            LoadOutcome::Unreadable(m) => Err(CacheError::Unreadable(m)),
            LoadOutcome::Unparsable(m) => Err(CacheError::CorruptCache(m)),
            LoadOutcome::Parsed(s) => {
                let expected = chars_of(CACHE_VERSION);
                let found = chars_of(s.version.as_str());
                if vec_chars_eq(&expected, &found) {
                    Ok(Some(s))
                } else {
                    Err(CacheError::SchemaMismatch { found: s.version })
                }
            },
        }
    }

    /// After a load: reuse a good snapshot, rebuild on absence or any error.
    pub fn plan(loaded: Result<Option<CacheSnapshot>, CacheError>) -> (r: SnapshotPlan)
        ensures
            r == plan_spec(loaded),
    {
        match loaded {
            Ok(Some(s)) => SnapshotPlan::Reuse(s),
            _ => SnapshotPlan::Rebuild,
        }
    }

    /// The snapshot that persisting `media` writes: the records as given, at
    /// the current schema version.
    pub fn snapshot_for(media: Vec<MediaFile>) -> (r: CacheSnapshot)
        ensures
            r.is_current(),
            r.media@ == media@,
    {
        CacheSnapshot::new(media)
    }
}

/// Whether two character vectors are equal.
pub fn vec_chars_eq(a: &Vec<char>, b: &Vec<char>) -> (r: bool)
    ensures
        r == (a@ == b@),
{
    if a.len() != b.len() {
        return false;
    }
    let mut i: usize = 0;
    while i < a.len()
        invariant
            i <= a.len() == b.len(),
            forall|j: int| 0 <= j < i ==> a@[j] == b@[j],
        decreases a.len() - i,
    {
        if a[i] != b[i] {
            return false;
        }
        i += 1;
    }
    assert(a@ =~= b@);
    true
}

/// Persisting a set of records and loading the file back yields a snapshot
/// with the same records, at the writer's schema version: whatever
/// `snapshot_for` writes for `records` is accepted by `load_result` as it is.
pub proof fn persisted_records_load_back(records: Seq<MediaFile>, written: CacheSnapshot)
    requires
        written.is_current(),
        written.media@ == records,
    ensures
        load_result_spec(LoadOutcome::Parsed(written)) == Ok::<Option<CacheSnapshot>, CacheError>(
            Some(written),
        ),
        load_result_spec(LoadOutcome::Parsed(written))->Ok_0->0.media@ == records,
        load_result_spec(LoadOutcome::Parsed(written))->Ok_0->0.version@ == CACHE_VERSION@,
{
}

/// When the cache file holds a snapshot of the current schema version, the
/// store reuses it and never asks for a rebuild.
pub proof fn valid_cache_is_never_rebuilt(s: CacheSnapshot)
    requires
        s.is_current(),
    ensures
        plan_spec(load_result_spec(LoadOutcome::Parsed(s))) == SnapshotPlan::Reuse(s),
        !(plan_spec(load_result_spec(LoadOutcome::Parsed(s))) is Rebuild),
{
}

} // verus!
