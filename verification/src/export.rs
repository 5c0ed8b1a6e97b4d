//! Materializing a collection back onto the filesystem, one entry at a
//! time, in published order.
//!
//! The names in a received collection come from an untrusted peer, so every
//! entry's destination goes through the traversal check — not only once at
//! import time — and an existing destination fails the export rather than
//! being overwritten. The caller does the disk writes; every decision about
//! them comes from here.

use crate::collection::{Collection, ContentId};
use crate::paths::{export_path, get_export_path, parts_ok};
use crate::status::ReceiveStatus;
use vstd::prelude::*;
use vstd::string::*;

verus! {

/// Why an export failed.
#[derive(Debug, Clone)]
pub enum ExportError {
    /// An entry's name failed the traversal checks.
    InvalidName { name: String },
    /// The destination for an entry already exists; nothing is overwritten.
    DestinationExists { target: String },
    /// The store failed while materializing the named entry.
    Materialize { name: String, cause: String },
}

/// One event from the store while materializing a single entry.
#[derive(Debug, Clone)]
pub enum ExportEvent {
    /// Materialization failed with the given cause.
    Error(String),
    /// Any other progress notice; ignored.
    Other,
}

/// Walks a collection in published order, deciding each entry's destination
/// and the event to emit before writing it.
pub struct ExportSession {
    /// The output root every destination stays under.
    pub root: String,
    /// The collection being written.
    pub collection: Collection,
    /// Entries fully written so far.
    pub done: usize,
}

impl ExportSession {
    /// Progress stays within the collection.
    pub open spec fn wf(&self) -> bool {
        self.done <= self.collection@.len()
    }

    /// A session at the first entry.
    pub fn new(root: String, collection: Collection) -> (s: ExportSession)
        ensures
            s.root@ == root@,
            s.collection == collection,
            s.done == 0,
            s.wf(),
    {
        ExportSession { root, collection, done: 0 }
    }

    /// Every entry has been written.
    pub fn finished(&self) -> (b: bool)
        ensures
            b == (self.done == self.collection@.len()),
    {
        self.done == self.collection.len()
    }

    /// The event emitted before the current entry is written.
    pub fn exporting_status(&self) -> (st: ReceiveStatus)
        ensures
            st == (ReceiveStatus::Exporting {
                total_files: self.collection@.len() as u64,
                done_files: self.done as u64,
            }),
    {
        ReceiveStatus::Exporting {
            total_files: self.collection.len() as u64,
            done_files: self.done as u64,
        }
    }

    /// The traversal-checked destination of the current entry: exactly
    /// `root/name`, or a refusal that fails the whole export.
    pub fn current_target(&self) -> (r: Result<String, ExportError>)
        requires
            self.wf(),
            self.done < self.collection@.len(),
        ensures
            r is Ok <==> parts_ok(self.collection@[self.done as int].name@),
            r matches Ok(target) ==> target@ == export_path(
                self.root@,
                self.collection@[self.done as int].name@,
            ),
            r matches Err(ExportError::InvalidName { name }) ==> name@
                == self.collection@[self.done as int].name@,
            r is Err ==> r matches Err(ExportError::InvalidName { .. }),
    {
        let entry = self.collection.entry(self.done);
        match get_export_path(self.root.as_str(), entry.name.as_str()) {
            Ok(target) => Ok(target),
            Err(_) => Err(ExportError::InvalidName { name: entry.name.clone() }),
        }
    }

    /// The content identifier of the current entry.
    pub fn current_id(&self) -> (id: &ContentId)
        requires
            self.wf(),
            self.done < self.collection@.len(),
        ensures
            *id == self.collection@[self.done as int].id,
    {
        &self.collection.entry(self.done).id
    }

    /// Never overwrite: a destination that already exists fails the whole
    /// export before any byte is written to it.
    pub fn check_destination(&self, target: &str, target_exists: bool) -> (r: Result<
        (),
        ExportError,
    >)
        ensures
            r is Ok <==> !target_exists,
            r matches Err(ExportError::DestinationExists { target: t }) ==> t@ == target@,
            r is Err ==> r matches Err(ExportError::DestinationExists { .. }),
    {
        if target_exists {
            Err(ExportError::DestinationExists { target: String::from_str(target) })
        } else {
            Ok(())
        }
    }

    /// Consumes one store event for the current entry; any reported error
    /// aborts the whole export.
    pub fn on_event(&self, event: ExportEvent) -> (r: Result<(), ExportError>)
        requires
            self.wf(),
            self.done < self.collection@.len(),
        ensures
            match event {
                ExportEvent::Error(cause) => (r matches Err(ExportError::Materialize {
                    name,
                    cause: c,
                }) && name@ == self.collection@[self.done as int].name@ && c@ == cause@),
                ExportEvent::Other => r == Ok::<(), ExportError>(()),
            },
    {
        match event {
            ExportEvent::Error(cause) => {
                let entry = self.collection.entry(self.done);
                Err(ExportError::Materialize { name: entry.name.clone(), cause })
            },
            ExportEvent::Other => Ok(()),
        }
    }

    /// The current entry is fully on disk.
    pub fn entry_done(&mut self)
        requires
            old(self).wf(),
            old(self).done < old(self).collection@.len(),
        ensures
            final(self).done == old(self).done + 1,
            final(self).root == old(self).root,
            final(self).collection == old(self).collection,
            final(self).wf(),
    {
        let n = self.collection.len();
        assert(self.done < n);
        self.done += 1;
    }

    /// The single terminal event, once every entry is written.
    pub fn done_status(&self) -> (st: ReceiveStatus)
        requires
            self.done == self.collection@.len(),
        ensures
            st == ReceiveStatus::Done,
    {
        ReceiveStatus::Done
    }
}

} // verus!
