//! Building a collection from walked files: naming each file, accounting
//! progress, folding the store's per-file staging stream, and sealing the
//! sorted collection.
//!
//! The walk itself and the store calls are I/O and stay with the caller;
//! every decision they feed comes from here.

use crate::collection::{Collection, CollectionEntry, ContentId};
use crate::nums::{saturating_sum_from, sum_sat};
use crate::paths::{canonicalized_path_to_string, encode_ok, encoded_name};
use crate::status::SendStatus;
use vstd::prelude::*;
use vstd::string::*;

verus! {

/// Why an import failed.
#[derive(Debug, Clone)]
pub enum ImportError {
    /// The requested path does not exist.
    NotFound,
    /// Enumerating the tree failed before any file could be listed.
    WalkError(String),
    /// A walked file's relative path could not become a collection name.
    InvalidName { path: String },
    /// The store reported an error while staging the named file.
    Staging { name: String, cause: String },
    /// The store's staging stream closed before reporting completion.
    StreamEnded { name: String },
}

/// Computes the collection name of every walked file from its path relative
/// to the import root, in walk order; the first unencodable path fails the
/// whole import, so no partial collection can form.
pub fn plan_names(rel_paths: &Vec<String>) -> (r: Result<Vec<String>, ImportError>)
    ensures
        r is Ok <==> (forall|i: int|
            0 <= i < rel_paths@.len() ==> encode_ok(#[trigger] rel_paths@[i]@, true)),
        r matches Ok(names) ==> names@.len() == rel_paths@.len() && (forall|i: int|
            0 <= i < names@.len() ==> #[trigger] names@[i]@ == encoded_name(rel_paths@[i]@)),
        r matches Err(ImportError::InvalidName { path }) ==> exists|i: int|
            0 <= i < rel_paths@.len() && path@ == #[trigger] rel_paths@[i]@ && !encode_ok(
                rel_paths@[i]@,
                true,
            ),
        r is Err ==> r matches Err(ImportError::InvalidName { .. }),
{
    let mut names: Vec<String> = Vec::new();
    let mut i: usize = 0;
    while i < rel_paths.len()
        invariant
            i <= rel_paths@.len(),
            names@.len() == i,
            forall|k: int| 0 <= k < i ==> encode_ok(#[trigger] rel_paths@[k]@, true),
            forall|k: int| 0 <= k < i ==> #[trigger] names@[k]@ == encoded_name(rel_paths@[k]@),
        decreases rel_paths@.len() - i,
    {
        match canonicalized_path_to_string(rel_paths[i].as_str(), true) {
            Ok(name) => {
                names.push(name);
            },
            Err(_) => {
                return Err(ImportError::InvalidName { path: rel_paths[i].clone() });
            },
        }
        i += 1;
    }
    Ok(names)
}

/// Progress accounting across one import: totals fixed by the metadata
/// pre-pass, done counts growing monotonically as files finish staging.
pub struct ImportTracker {
    /// Files found by the walk.
    pub total_files: usize,
    /// Files fully staged so far.
    pub done_files: usize,
    /// Sum of sizes the metadata pre-pass reported.
    pub total_size: u64,
    /// Bytes fully staged so far.
    pub done_size: u64,
}

impl ImportTracker {
    /// A fresh tracker with nothing staged yet.
    pub fn new(total_files: usize, total_size: u64) -> (t: ImportTracker)
        ensures
            t.total_files == total_files,
            t.total_size == total_size,
            t.done_files == 0,
            t.done_size == 0,
    {
        ImportTracker { total_files, done_files: 0, total_size, done_size: 0 }
    }

    /// The event emitted before each file is staged.
    pub fn importing_status(&self) -> (st: SendStatus)
        ensures
            st == (SendStatus::Importing {
                total_files: self.total_files,
                done_files: self.done_files,
                total_size: self.total_size,
                done_size: self.done_size,
            }),
    {
        SendStatus::Importing {
            total_files: self.total_files,
            done_files: self.done_files,
            total_size: self.total_size,
            done_size: self.done_size,
        }
    }

    /// Accounts one fully staged file; progress only ever grows.
    pub fn record_file(&mut self, item_size: u64)
        requires
            old(self).done_files < old(self).total_files,
        ensures
            final(self).done_files == old(self).done_files + 1,
            final(self).done_size == if old(self).done_size + item_size > u64::MAX {
                u64::MAX as int
            } else {
                old(self).done_size + item_size
            },
            final(self).total_files == old(self).total_files,
            final(self).total_size == old(self).total_size,
            final(self).done_size >= old(self).done_size,
    {
        self.done_files += 1;
        self.done_size = self.done_size.saturating_add(item_size);
    }
}

/// One event from the store while staging a single file.
#[derive(Debug, Clone)]
pub enum AddEvent {
    /// The store learned the file's size.
    Size(u64),
    /// The file is fully staged.
    Done,
    /// Staging failed with the given cause.
    Error(String),
    /// Any other progress notice; ignored.
    Other,
}

/// Folds the store's staging stream for one file: remembers the last
/// reported size, finishes on `Done`, and makes any stream error fatal to
/// the whole import.
pub struct AddTracker {
    /// The size last reported by the store.
    pub size: u64,
    /// A `Done` event arrived.
    pub finished: bool,
}

impl AddTracker {
    /// A tracker for a file whose staging just began.
    pub fn new() -> (t: AddTracker)
        ensures
            t.size == 0,
            !t.finished,
    {
        AddTracker { size: 0, finished: false }
    }

    /// Consumes one stream event; `Ok(true)` means the file is done.
    pub fn on_event(&mut self, name: &str, event: AddEvent) -> (r: Result<bool, ImportError>)
        requires
            !old(self).finished,
        ensures
            match event {
                AddEvent::Size(n) => r == Ok::<bool, ImportError>(false) && final(self).size == n
                    && !final(self).finished,
                AddEvent::Done => r == Ok::<bool, ImportError>(true) && final(self).finished
                    && final(self).size == old(self).size,
                AddEvent::Error(cause) => (r matches Err(ImportError::Staging {
                    name: n2,
                    cause: c2,
                }) && n2@ == name@ && c2@ == cause@) && *final(self) == *old(self),
                AddEvent::Other => r == Ok::<bool, ImportError>(false) && *final(self) == *old(
                    self,
                ),
            },
    {
        match event {
            AddEvent::Size(n) => {
                self.size = n;
                Ok(false)
            },
            AddEvent::Done => {
                self.finished = true;
                Ok(true)
            },
            AddEvent::Error(cause) => Err(
                ImportError::Staging { name: String::from_str(name), cause },
            ),
            AddEvent::Other => Ok(false),
        }
    }

    /// The staged size once the stream has closed; a stream that closes
    /// without `Done` fails the import.
    pub fn into_size(self, name: &str) -> (r: Result<u64, ImportError>)
        ensures
            self.finished ==> r == Ok::<u64, ImportError>(self.size),
            !self.finished ==> (r matches Err(ImportError::StreamEnded { name: n }) && n@
                == name@),
    {
        if self.finished {
            Ok(self.size)
        } else {
            Err(ImportError::StreamEnded { name: String::from_str(name) })
        }
    }
}

/// A staged file: its collection name, content identifier, and the size the
/// store actually staged.
pub struct StagedFile {
    /// The traversal-safe relative name.
    pub name: String,
    /// The digest the store assigned.
    pub id: ContentId,
    /// Bytes staged.
    pub size: u64,
}

/// The collection entry a staged file becomes.
pub open spec fn entry_of(f: StagedFile) -> CollectionEntry {
    CollectionEntry { name: f.name, id: f.id }
}

/// A staged file's size.
pub open spec fn size_of(f: StagedFile) -> u64 {
    f.size
}

/// After every file is staged: totals the staged sizes and seals the
/// collection, sorted by name, with exactly one entry per staged file.
pub fn assemble_collection(staged: Vec<StagedFile>) -> (r: (Collection, u64))
    ensures
        r.0.wf(),
        r.0@.len() == staged@.len(),
        r.0@.to_multiset() == staged@.map_values(|f: StagedFile| entry_of(f)).to_multiset(),
        r.1 == sum_sat(staged@.map_values(|f: StagedFile| size_of(f)), 0),
{
    let ghost orig = staged@;
    let mut rest = staged;
    let mut sizes: Vec<u64> = Vec::new();
    let mut entries: Vec<CollectionEntry> = Vec::new();
    while rest.len() > 0
        invariant
            entries@.len() == sizes@.len(),
            entries@.len() + rest@.len() == orig.len(),
            rest@ =~= orig.subrange(entries@.len() as int, orig.len() as int),
            entries@ =~= orig.subrange(0, entries@.len() as int).map_values(
                |f: StagedFile| entry_of(f),
            ),
            sizes@ =~= orig.subrange(0, sizes@.len() as int).map_values(
                |f: StagedFile| size_of(f),
            ),
        decreases rest@.len(),
    {
        let ghost k = entries@.len() as int;
        let f = rest.remove(0);
        proof {
            assert(f == orig[k]);
            assert(rest@ =~= orig.subrange(k + 1, orig.len() as int));
        }
        sizes.push(f.size);
        entries.push(CollectionEntry { name: f.name, id: f.id });
        proof {
            assert(entries@ =~= orig.subrange(0, k + 1).map_values(|f: StagedFile| entry_of(f)));
            assert(sizes@ =~= orig.subrange(0, k + 1).map_values(|f: StagedFile| size_of(f)));
        }
    }
    proof {
        assert(orig.subrange(0, orig.len() as int) =~= orig);
        assert(entries@ =~= orig.map_values(|f: StagedFile| entry_of(f)));
        assert(sizes@ =~= orig.map_values(|f: StagedFile| size_of(f)));
    }
    let total = saturating_sum_from(&sizes, 0);
    let collection = Collection::from_entries(entries);
    (collection, total)
}

} // verus!
