use std::time::SystemTime;
use vstd::prelude::*;

verus! {

#[verifier::external_type_specification]
#[verifier::external_body]
pub struct ExSystemTime(SystemTime);

/// Reads the system clock with `SystemTime::now`. Nothing is claimed of the
/// instant that comes back: it differs from call to call.
#[verifier::external_body]
pub(crate) fn clock_now() -> (now: SystemTime) {
    SystemTime::now()
}

/// Three independent access bits.
#[derive(Clone, Copy, Debug, PartialEq, Eq, Structural)]
pub struct Permissions {
    pub read: bool,
    pub write: bool,
    pub execute: bool,
}

/// The record attached to every node.
pub struct Metadata {
    pub created_at: SystemTime,
    pub modified_at: SystemTime,
    pub accessed_at: SystemTime,
    pub size: usize,
    pub permissions: Permissions,
    pub owner: String,
    pub group: String,
    pub is_read_only: bool,
    pub is_hidden: bool,
    pub mime_type: String,
    pub tags: Vec<String>,
}

/// What a `Metadata` holds, as plain mathematical values.
pub struct MetadataView {
    pub created_at: SystemTime,
    pub modified_at: SystemTime,
    pub accessed_at: SystemTime,
    pub size: nat,
    pub permissions: Permissions,
    pub owner: Seq<char>,
    pub group: Seq<char>,
    pub is_read_only: bool,
    pub is_hidden: bool,
    pub mime_type: Seq<char>,
    pub tags: Seq<Seq<char>>,
}

/// The texts of a list of strings.
pub open spec fn texts(v: Seq<String>) -> Seq<Seq<char>> {
    Seq::new(v.len(), |i: int| v[i]@)
}

impl MetadataView {
    /// The record of a node made at instant `now`, with the given MIME type:
    /// owned by root, readable and writable, not executable, untagged.
    pub open spec fn initial(now: SystemTime, mime_type: Seq<char>) -> MetadataView {
        MetadataView {
            created_at: now,
            modified_at: now,
            accessed_at: now,
            size: 0,
            permissions: Permissions { read: true, write: true, execute: false },
            owner: "root"@,
            group: "root"@,
            is_read_only: false,
            is_hidden: false,
            mime_type,
            tags: Seq::empty(),
        }
    }

    /// The record of a freshly created file or directory.
    pub open spec fn fresh(now: SystemTime) -> MetadataView {
        MetadataView::initial(now, "text/plain"@)
    }

    /// The record of the root directory.
    pub open spec fn root(now: SystemTime) -> MetadataView {
        MetadataView::initial(now, "directory"@)
    }

    /// The same record, modified at `now`.
    pub open spec fn modified(self, now: SystemTime) -> MetadataView {
        MetadataView { modified_at: now, ..self }
    }

    /// The same record, accessed at `now`.
    pub open spec fn accessed(self, now: SystemTime) -> MetadataView {
        MetadataView { accessed_at: now, ..self }
    }

    /// The same record with other permissions.
    pub open spec fn with_permissions(self, permissions: Permissions) -> MetadataView {
        MetadataView { permissions, ..self }
    }

    /// The same record with one more tag at the end.
    pub open spec fn tagged(self, tag: Seq<char>) -> MetadataView {
        MetadataView { tags: self.tags.push(tag), ..self }
    }

    /// Whether `tag` is among the tags.
    pub open spec fn has_tag(self, tag: Seq<char>) -> bool {
        self.tags.contains(tag)
    }
}

impl View for Metadata {
    type V = MetadataView;

    open spec fn view(&self) -> MetadataView {
        MetadataView {
            created_at: self.created_at,
            modified_at: self.modified_at,
            accessed_at: self.accessed_at,
            size: self.size as nat,
            permissions: self.permissions,
            owner: self.owner@,
            group: self.group@,
            is_read_only: self.is_read_only,
            is_hidden: self.is_hidden,
            mime_type: self.mime_type@,
            tags: texts(self.tags@),
        }
    }
}

impl Metadata {
    /// The record of a node made at `now` with MIME type `mime_type`.
    pub fn initial(now: SystemTime, mime_type: &str) -> (m: Metadata)
        ensures
            m@ == MetadataView::initial(now, mime_type@),
    {
        let m = Metadata {
            created_at: now,
            modified_at: now,
            accessed_at: now,
            size: 0,
            permissions: Permissions { read: true, write: true, execute: false },
            owner: "root".to_owned(),
            group: "root".to_owned(),
            is_read_only: false,
            is_hidden: false,
            mime_type: mime_type.to_owned(),
            tags: Vec::new(),
        };
        assert(m@.tags =~= Seq::empty());
        m
    }

    /// The record of a node created now. The three instants are one reading
    /// of the clock.
    pub fn default() -> (m: Metadata)
        ensures
            m@ == MetadataView::fresh(m@.created_at),
    {
        Metadata::initial(clock_now(), "text/plain")
    }

    /// Sets the instant of the last access to the clock's reading.
    pub fn update_accessed(&mut self)
        ensures
            final(self)@ == old(self)@.accessed(final(self)@.accessed_at),
    {
        self.accessed_at = clock_now();
    }

    /// Sets the instant of the last modification to the clock's reading.
    pub fn update_modified(&mut self)
        ensures
            final(self)@ == old(self)@.modified(final(self)@.modified_at),
    {
        self.modified_at = clock_now();
    }

    /// Sets the instant of the last modification to `now`.
    pub fn set_modified(&mut self, now: SystemTime)
        ensures
            final(self)@ == old(self)@.modified(now),
    {
        self.modified_at = now;
    }

    /// A copy with the same view.
    pub fn duplicate(&self) -> (m: Metadata)
        ensures
            m@ == self@,
    {
        let mut tags: Vec<String> = Vec::new();
        let mut i: usize = 0;
        while i < self.tags.len()
            invariant
                i <= self.tags.len(),
                tags@.len() == i,
                forall|j: int| 0 <= j < i ==> tags@[j]@ == self.tags@[j]@,
            decreases self.tags.len() - i,
        {
            tags.push(self.tags[i].clone());
            i = i + 1;
        }
        assert(texts(tags@) =~= texts(self.tags@));
        Metadata {
            created_at: self.created_at,
            modified_at: self.modified_at,
            accessed_at: self.accessed_at,
            size: self.size,
            permissions: self.permissions,
            owner: self.owner.clone(),
            group: self.group.clone(),
            is_read_only: self.is_read_only,
            is_hidden: self.is_hidden,
            mime_type: self.mime_type.clone(),
            tags,
        }
    }
}

} // verus!
