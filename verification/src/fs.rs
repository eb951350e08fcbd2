use crate::error::FsError;
use crate::lemmas::{
    lemma_graft, lemma_insert_wf, lemma_lookup_wf, lemma_remeta_wf, lemma_remove_wf,
    lemma_rename_wf, lemma_resolve_wf, lemma_write_wf,
};
use crate::metadata::{clock_now, texts, Metadata, Permissions};
use crate::model::{applied, DirectoryView, EntryView, NodeView};
use crate::node::{Directory, FSNode};
use crate::path::{components, split_path};
use crate::search::{Criterion, CriterionView};
use std::time::SystemTime;
use vstd::prelude::*;

verus! {

/// The tree store: one root directory and all that hangs below it.
pub struct FileSystem {
    root: Directory,
}

impl View for FileSystem {
    type V = DirectoryView;

    closed spec fn view(&self) -> DirectoryView {
        self.root@
    }
}

/// The bytes that a new file starts with.
pub open spec fn initial_bytes(content: Option<Vec<u8>>) -> Seq<u8> {
    match content {
        Some(bytes) => bytes@,
        None => Seq::empty(),
    }
}

/// Splits a path into the path of the parent and the name of the entry.
pub fn split_entry(path: &str) -> (r: Result<(Vec<String>, String), FsError>)
    ensures
        match r {
            Ok((prefix, leaf)) => {
                &&& components(path@).len() > 0
                &&& texts(prefix@) == components(path@).drop_last()
                &&& leaf@ == components(path@).last()
            },
            Err(e) => e == FsError::InvalidPath && components(path@).len() == 0,
        },
{
    let mut parts = split_path(path);
    let ghost all = parts@;
    match parts.pop() {
        None => Err(FsError::InvalidPath),
        Some(leaf) => {
            assert(texts(parts@) =~= texts(all).drop_last());
            assert(texts(all).last() == leaf@);
            Ok((parts, leaf))
        },
    }
}

impl FileSystem {
    /// No directory of the tree holds two entries of one name.
    pub open spec fn wf(&self) -> bool {
        self@.wf()
    }

    /// An empty store whose root is made at `now`.
    pub fn new_at(now: SystemTime) -> (fs: FileSystem)
        ensures
            fs.wf(),
            fs@ == DirectoryView::root(now),
    {
        let root = Directory {
            name: "/".to_owned(),
            nodes: Vec::new(),
            metadata: Metadata::initial(now, "directory"),
        };
        assert(root@.nodes =~= Seq::empty());
        FileSystem { root }
    }

    /// An empty store whose root is made now.
    pub fn new() -> (fs: FileSystem)
        ensures
            fs.wf(),
            fs@ == DirectoryView::root(fs@.metadata.created_at),
    {
        FileSystem::new_at(clock_now())
    }

    /// Walks down from the root along `parts` and hands out the directory
    /// found there, for changing it in place.
    pub fn navigate_to_directory(&mut self, parts: &Vec<String>) -> (r: Result<
        &mut Directory,
        FsError,
    >)
        ensures
            match r {
                Ok(d) => {
                    &&& old(self)@.resolve(texts(parts@)) == Ok::<DirectoryView, FsError>(d@)
                    &&& final(self)@ == old(self)@.replace(texts(parts@), final(d)@)
                },
                Err(e) => {
                    &&& old(self)@.resolve(texts(parts@)) == Err::<DirectoryView, FsError>(e)
                    &&& final(self)@ == old(self)@
                },
            },
    {
        assert(texts(parts@).skip(0) =~= texts(parts@));
        self.root.navigate_mut(parts, 0)
    }

    /// The parent directory and the name of the entry that `path` speaks
    /// of. The entry itself need not exist.
    pub fn find_node(&self, path: &str) -> (r: Result<(&Directory, String), FsError>)
        ensures
            match r {
                Ok((parent, leaf)) => {
                    &&& self@.resolve_entry(path@) is Ok
                    &&& self@.resolve_entry(path@)->Ok_0.parent == parent@
                    &&& self@.resolve_entry(path@)->Ok_0.leaf == leaf@
                },
                Err(e) => self@.resolve_entry(path@) == Err::<EntryView, FsError>(e),
            },
    {
        let (prefix, leaf) = match split_entry(path) {
            Err(e) => {
                return Err(e);
            },
            Ok(entry) => entry,
        };
        assert(texts(prefix@).skip(0) =~= texts(prefix@));
        match self.root.navigate(&prefix, 0) {
            Err(e) => Err(e),
            Ok(parent) => Ok((parent, leaf)),
        }
    }

    /// Creates at `path`, at the instant `now`, an empty directory or a file
    /// that holds `content`.
    pub fn create_at(
        &mut self,
        path: &str,
        content: Option<Vec<u8>>,
        is_directory: bool,
        now: SystemTime,
    ) -> (r: Result<(), FsError>)
        requires
            old(self).wf(),
        ensures
            final(self).wf(),
            applied(
                old(self)@.created(path@, initial_bytes(content), is_directory, now),
                old(self)@,
                final(self)@,
                r,
            ),
    {
        let (prefix, leaf) = match split_entry(path) {
            Err(e) => {
                return Err(e);
            },
            Ok(entry) => entry,
        };
        let bytes = match content {
            Some(bytes) => bytes,
            None => Vec::new(),
        };
        let node = FSNode::fresh(leaf, bytes, is_directory, now);
        proof {
            let root = self@;
            if root.resolve(texts(prefix@)) is Ok {
                let parent = root.resolve(texts(prefix@))->Ok_0;
                lemma_resolve_wf(root, texts(prefix@));
                if parent.insert_child(node@) is Ok {
                    lemma_insert_wf(parent, node@);
                }
                lemma_graft(root, texts(prefix@), parent.insert_child(node@));
            }
        }
        match self.navigate_to_directory(&prefix) {
            Err(e) => Err(e),
            Ok(parent) => parent.insert_child(node),
        }
    }

    /// Creates at `path` an empty directory or a file that holds `content`.
    /// The parent has to exist, and the name has to be free in it.
    pub fn create(&mut self, path: &str, content: Option<Vec<u8>>, is_directory: bool) -> (r:
        Result<(), FsError>)
        requires
            old(self).wf(),
        ensures
            final(self).wf(),
            exists|now: SystemTime|
                applied(
                    #[trigger] old(self)@.created(path@, initial_bytes(content), is_directory, now),
                    old(self)@,
                    final(self)@,
                    r,
                ),
    {
        self.create_at(path, content, is_directory, clock_now())
    }

    /// The bytes of the file at `path`. The read leaves no trace in the
    /// tree: the instant of the last access stays as it was.
    pub fn read_file(&self, path: &str) -> (r: Result<Vec<u8>, FsError>)
        ensures
            match r {
                Ok(bytes) => self@.read(path@) == Ok::<Seq<u8>, FsError>(bytes@),
                Err(e) => self@.read(path@) == Err::<Seq<u8>, FsError>(e),
            },
    {
        match self.find_node(path) {
            Err(e) => Err(e),
            Ok((parent, leaf)) => parent.read_child(&leaf),
        }
    }

    /// Writes to the file at `path` at the instant `now`, whatever its
    /// permissions.
    pub fn write_file_at(&mut self, path: &str, content: Vec<u8>, append: bool, now: SystemTime) -> (r:
        Result<(), FsError>)
        requires
            old(self).wf(),
        ensures
            final(self).wf(),
            applied(old(self)@.written(path@, content@, append, now), old(self)@, final(self)@, r),
    {
        let (prefix, leaf) = match split_entry(path) {
            Err(e) => {
                return Err(e);
            },
            Ok(entry) => entry,
        };
        proof {
            let root = self@;
            if root.resolve(texts(prefix@)) is Ok {
                let parent = root.resolve(texts(prefix@))->Ok_0;
                lemma_resolve_wf(root, texts(prefix@));
                lemma_write_wf(parent, leaf@, content@, append, now);
                lemma_graft(root, texts(prefix@), parent.write_child(leaf@, content@, append, now));
            }
        }
        match self.navigate_to_directory(&prefix) {
            Err(e) => Err(e),
            Ok(parent) => parent.write_child(&leaf, content, append, now),
        }
    }

    /// Writes to the file at `path`, whatever its permissions: `content`
    /// replaces what the file held or, with `append`, follows it.
    pub fn write_file(&mut self, path: &str, content: Vec<u8>, append: bool) -> (r: Result<
        (),
        FsError,
    >)
        requires
            old(self).wf(),
        ensures
            final(self).wf(),
            exists|now: SystemTime|
                applied(
                    #[trigger] old(self)@.written(path@, content@, append, now),
                    old(self)@,
                    final(self)@,
                    r,
                ),
    {
        self.write_file_at(path, content, append, clock_now())
    }

    /// The names of the entries of the directory at `path`, in the order in
    /// which they were added. A path without components is the root.
    pub fn list_directory(&self, path: &str) -> (r: Result<Vec<String>, FsError>)
        ensures
            match r {
                Ok(names) => self@.listing(path@) == Ok::<Seq<Seq<char>>, FsError>(texts(names@)),
                Err(e) => self@.listing(path@) == Err::<Seq<Seq<char>>, FsError>(e),
            },
    {
        let (prefix, leaf) = match split_entry(path) {
            Err(_) => {
                return Ok(self.root.names());
            },
            Ok(entry) => entry,
        };
        assert(texts(prefix@).skip(0) =~= texts(prefix@));
        let parent = match self.root.navigate(&prefix, 0) {
            Err(e) => {
                return Err(e);
            },
            Ok(parent) => parent,
        };
        match parent.position(&leaf) {
            None => Err(FsError::NotFound),
            Some(i) => match &parent.nodes[i] {
                FSNode::File(_) => Err(FsError::IsADirectory),
                FSNode::Directory(d) => Ok(d.names()),
            },
        }
    }

    /// Deletes the entry at `path`: a file, or a directory without entries.
    pub fn delete(&mut self, path: &str) -> (r: Result<(), FsError>)
        requires
            old(self).wf(),
        ensures
            final(self).wf(),
            applied(old(self)@.deleted(path@), old(self)@, final(self)@, r),
    {
        let (prefix, leaf) = match split_entry(path) {
            Err(e) => {
                return Err(e);
            },
            Ok(entry) => entry,
        };
        proof {
            let root = self@;
            if root.resolve(texts(prefix@)) is Ok {
                let parent = root.resolve(texts(prefix@))->Ok_0;
                lemma_resolve_wf(root, texts(prefix@));
                if parent.remove_child(leaf@) is Ok {
                    lemma_remove_wf(parent, leaf@);
                }
                lemma_graft(root, texts(prefix@), parent.remove_child(leaf@));
            }
        }
        match self.navigate_to_directory(&prefix) {
            Err(e) => Err(e),
            Ok(parent) => parent.remove_child(&leaf),
        }
    }

    /// Writes to the file at `path` at the instant `now`, if the file
    /// grants write permission.
    pub fn update_file_at(&mut self, path: &str, content: Vec<u8>, append: bool, now: SystemTime) -> (r:
        Result<(), FsError>)
        requires
            old(self).wf(),
        ensures
            final(self).wf(),
            applied(old(self)@.updated(path@, content@, append, now), old(self)@, final(self)@, r),
    {
        let (prefix, leaf) = match split_entry(path) {
            Err(e) => {
                return Err(e);
            },
            Ok(entry) => entry,
        };
        proof {
            let root = self@;
            if root.resolve(texts(prefix@)) is Ok {
                let parent = root.resolve(texts(prefix@))->Ok_0;
                lemma_resolve_wf(root, texts(prefix@));
                lemma_write_wf(parent, leaf@, content@, append, now);
                lemma_graft(root, texts(prefix@), parent.update_child(leaf@, content@, append, now));
            }
        }
        match self.navigate_to_directory(&prefix) {
            Err(e) => Err(e),
            Ok(parent) => parent.update_child(&leaf, content, append, now),
        }
    }

    /// Writes to the file at `path` as `write_file` does, but only if the
    /// file grants write permission.
    pub fn update_file(&mut self, path: &str, content: Vec<u8>, append: bool) -> (r: Result<
        (),
        FsError,
    >)
        requires
            old(self).wf(),
        ensures
            final(self).wf(),
            exists|now: SystemTime|
                applied(
                    #[trigger] old(self)@.updated(path@, content@, append, now),
                    old(self)@,
                    final(self)@,
                    r,
                ),
    {
        self.update_file_at(path, content, append, clock_now())
    }

    /// Sets the permissions of the entry at `path` at the instant `now`.
    pub fn change_permissions_at(&mut self, path: &str, permissions: Permissions, now: SystemTime) -> (r:
        Result<(), FsError>)
        requires
            old(self).wf(),
        ensures
            final(self).wf(),
            applied(
                old(self)@.with_permissions(path@, permissions, now),
                old(self)@,
                final(self)@,
                r,
            ),
    {
        let (prefix, leaf) = match split_entry(path) {
            Err(e) => {
                return Err(e);
            },
            Ok(entry) => entry,
        };
        proof {
            let root = self@;
            if root.resolve(texts(prefix@)) is Ok {
                let parent = root.resolve(texts(prefix@))->Ok_0;
                lemma_resolve_wf(root, texts(prefix@));
                if parent.child(leaf@) is Some {
                    lemma_remeta_wf(
                        parent,
                        leaf@,
                        parent.child(leaf@)->0.metadata().with_permissions(permissions).modified(now),
                    );
                }
                lemma_graft(root, texts(prefix@), parent.chmod_child(leaf@, permissions, now));
            }
        }
        match self.navigate_to_directory(&prefix) {
            Err(e) => Err(e),
            Ok(parent) => parent.chmod_child(&leaf, permissions, now),
        }
    }

    /// Sets the permissions of the entry at `path`.
    pub fn change_permissions(&mut self, path: &str, permissions: Permissions) -> (r: Result<
        (),
        FsError,
    >)
        requires
            old(self).wf(),
        ensures
            final(self).wf(),
            exists|now: SystemTime|
                applied(
                    #[trigger] old(self)@.with_permissions(path@, permissions, now),
                    old(self)@,
                    final(self)@,
                    r,
                ),
    {
        self.change_permissions_at(path, permissions, clock_now())
    }

    /// Adds `tag` to the tags of the entry at `path`.
    pub fn add_tag(&mut self, path: &str, tag: &str) -> (r: Result<(), FsError>)
        requires
            old(self).wf(),
        ensures
            final(self).wf(),
            applied(old(self)@.tagged(path@, tag@), old(self)@, final(self)@, r),
    {
        let (prefix, leaf) = match split_entry(path) {
            Err(e) => {
                return Err(e);
            },
            Ok(entry) => entry,
        };
        proof {
            let root = self@;
            if root.resolve(texts(prefix@)) is Ok {
                let parent = root.resolve(texts(prefix@))->Ok_0;
                lemma_resolve_wf(root, texts(prefix@));
                if parent.child(leaf@) is Some {
                    lemma_remeta_wf(parent, leaf@, parent.child(leaf@)->0.metadata().tagged(tag@));
                }
                lemma_graft(root, texts(prefix@), parent.tag_child(leaf@, tag@));
            }
        }
        match self.navigate_to_directory(&prefix) {
            Err(e) => Err(e),
            Ok(parent) => parent.tag_child(&leaf, tag.to_owned()),
        }
    }

    /// The files that carry `tag`, as a depth-first walk from the root meets
    /// them. Each is reported as the name of the directory that holds it,
    /// the separator, and its own name; the root is named by the separator.
    pub fn search_by_tag(&self, tag: &str) -> (r: Result<Vec<String>, FsError>)
        ensures
            r matches Ok(paths) && texts(paths@) == self@.search(CriterionView::Tag(tag@)),
    {
        let mut results: Vec<String> = Vec::new();
        let wanted = Criterion::Tag(tag.to_owned());
        self.root.collect(&wanted, &mut results);
        assert(texts(results@) =~= self@.search(wanted@));
        Ok(results)
    }

    /// The files whose MIME type is exactly `mime_type`, reported as
    /// `search_by_tag` reports them.
    pub fn search_by_mime_type(&self, mime_type: &str) -> (r: Result<Vec<String>, FsError>)
        ensures
            r matches Ok(paths) && texts(paths@) == self@.search(
                CriterionView::MimeType(mime_type@),
            ),
    {
        let mut results: Vec<String> = Vec::new();
        let wanted = Criterion::MimeType(mime_type.to_owned());
        self.root.collect(&wanted, &mut results);
        assert(texts(results@) =~= self@.search(wanted@));
        Ok(results)
    }

    /// A description of the entry at `path` for a reader: name, size,
    /// permissions and owner, and for a file its MIME type and tags.
    pub fn get_info(&self, path: &str) -> (r: Result<String, FsError>)
        ensures
            match r {
                Ok(text) => self@.lookup(path@) is Ok && text@ == self@.lookup(path@)->Ok_0.info(),
                Err(e) => self@.lookup(path@) == Err::<NodeView, FsError>(e),
            },
    {
        let (parent, leaf) = match self.find_node(path) {
            Err(e) => {
                return Err(e);
            },
            Ok(entry) => entry,
        };
        match parent.position(&leaf) {
            None => Err(FsError::NotFound),
            Some(i) => Ok(parent.nodes[i].info()),
        }
    }

    /// A copy of the record attached to the entry at `path`.
    pub fn metadata(&self, path: &str) -> (r: Result<Metadata, FsError>)
        ensures
            match r {
                Ok(m) => self@.lookup(path@) is Ok && m@ == self@.lookup(path@)->Ok_0.metadata(),
                Err(e) => self@.lookup(path@) == Err::<NodeView, FsError>(e),
            },
    {
        let (parent, leaf) = match self.find_node(path) {
            Err(e) => {
                return Err(e);
            },
            Ok(entry) => entry,
        };
        match parent.position(&leaf) {
            None => Err(FsError::NotFound),
            Some(i) => {
                assert(parent@.nodes[i as int] == parent.nodes@[i as int]@);
                match &parent.nodes[i] {
                    FSNode::File(f) => Ok(f.metadata.duplicate()),
                    FSNode::Directory(d) => Ok(d.metadata.duplicate()),
                }
            },
        }
    }

    /// Gives the entry at `old_path` the name `new_name` in the same
    /// directory. The entry keeps its content, its record and its place.
    pub fn rename(&mut self, old_path: &str, new_name: &str) -> (r: Result<(), FsError>)
        requires
            old(self).wf(),
        ensures
            final(self).wf(),
            applied(old(self)@.renamed(old_path@, new_name@), old(self)@, final(self)@, r),
    {
        let (prefix, leaf) = match split_entry(old_path) {
            Err(e) => {
                return Err(e);
            },
            Ok(entry) => entry,
        };
        proof {
            let root = self@;
            if root.resolve(texts(prefix@)) is Ok {
                let parent = root.resolve(texts(prefix@))->Ok_0;
                lemma_resolve_wf(root, texts(prefix@));
                if parent.rename_child(leaf@, new_name@) is Ok {
                    lemma_rename_wf(parent, leaf@, new_name@);
                }
                lemma_graft(root, texts(prefix@), parent.rename_child(leaf@, new_name@));
            }
        }
        match self.navigate_to_directory(&prefix) {
            Err(e) => Err(e),
            Ok(parent) => parent.rename_child(&leaf, new_name.to_owned()),
        }
    }

    /// Copies the entry at `source_path`, with all below it, into the parent
    /// directory of `target_path`. The copy keeps the name of the source:
    /// the last component of `target_path` only marks the place, and names
    /// nothing. The name has to be free in that directory.
    pub fn copy(&mut self, source_path: &str, target_path: &str) -> (r: Result<(), FsError>)
        requires
            old(self).wf(),
        ensures
            final(self).wf(),
            applied(old(self)@.copied(source_path@, target_path@), old(self)@, final(self)@, r),
    {
        let node = {
            let (parent, leaf) = match self.find_node(source_path) {
                Err(e) => {
                    return Err(e);
                },
                Ok(entry) => entry,
            };
            match parent.position(&leaf) {
                None => {
                    return Err(FsError::NotFound);
                },
                Some(i) => parent.nodes[i].duplicate(),
            }
        };
        let (prefix, _) = match split_entry(target_path) {
            Err(e) => {
                return Err(e);
            },
            Ok(entry) => entry,
        };
        proof {
            let root = self@;
            lemma_lookup_wf(root, source_path@);
            if root.resolve(texts(prefix@)) is Ok {
                let parent = root.resolve(texts(prefix@))->Ok_0;
                lemma_resolve_wf(root, texts(prefix@));
                if parent.insert_child(node@) is Ok {
                    lemma_insert_wf(parent, node@);
                }
                lemma_graft(root, texts(prefix@), parent.insert_child(node@));
            }
        }
        match self.navigate_to_directory(&prefix) {
            Err(e) => Err(e),
            Ok(parent) => parent.insert_child(node),
        }
    }
}

} // verus!
