use crate::error::FsError;
use crate::metadata::{MetadataView, Permissions};
use crate::path::components;
use std::time::SystemTime;
use vstd::prelude::*;

verus! {

/// A file, as plain mathematical values.
pub struct FileView {
    pub name: Seq<char>,
    pub content: Seq<u8>,
    pub metadata: MetadataView,
}

/// A directory, as plain mathematical values. The entries stand in the
/// order in which they were added.
pub struct DirectoryView {
    pub name: Seq<char>,
    pub nodes: Seq<NodeView>,
    pub metadata: MetadataView,
}

/// A node of the tree, as plain mathematical values.
pub enum NodeView {
    File(FileView),
    Directory(DirectoryView),
}

impl FileView {
    /// The file after a write at `now`: `content` replaces what the file
    /// held or, with `append`, follows it.
    pub open spec fn written(self, content: Seq<u8>, append: bool, now: SystemTime) -> FileView {
        FileView {
            content: if append {
                self.content + content
            } else {
                content
            },
            metadata: self.metadata.modified(now),
            ..self
        }
    }
}

impl NodeView {
    /// A node made at `now`: an empty directory, or a file that holds
    /// `content`.
    pub open spec fn fresh(
        name: Seq<char>,
        content: Seq<u8>,
        is_directory: bool,
        now: SystemTime,
    ) -> NodeView {
        if is_directory {
            NodeView::Directory(DirectoryView::empty(name, MetadataView::fresh(now)))
        } else {
            NodeView::File(FileView { name, content, metadata: MetadataView::fresh(now) })
        }
    }

    pub open spec fn name(self) -> Seq<char> {
        match self {
            NodeView::File(f) => f.name,
            NodeView::Directory(d) => d.name,
        }
    }

    pub open spec fn metadata(self) -> MetadataView {
        match self {
            NodeView::File(f) => f.metadata,
            NodeView::Directory(d) => d.metadata,
        }
    }

    /// The same node under another name.
    pub open spec fn renamed(self, name: Seq<char>) -> NodeView {
        match self {
            NodeView::File(f) => NodeView::File(FileView { name, ..f }),
            NodeView::Directory(d) => NodeView::Directory(DirectoryView { name, ..d }),
        }
    }

    /// The same node with another record attached.
    pub open spec fn with_metadata(self, metadata: MetadataView) -> NodeView {
        match self {
            NodeView::File(f) => NodeView::File(FileView { metadata, ..f }),
            NodeView::Directory(d) => NodeView::Directory(DirectoryView { metadata, ..d }),
        }
    }

    /// No directory at or below this node holds two entries of one name.
    pub open spec fn wf(self) -> bool
        decreases self,
    {
        match self {
            NodeView::File(_) => true,
            NodeView::Directory(d) => {
                &&& names_distinct(d.nodes)
                &&& forall|i: int| 0 <= i < d.nodes.len() ==> (#[trigger] d.nodes[i]).wf()
            },
        }
    }
}

/// No two of the nodes have the same name.
pub open spec fn names_distinct(nodes: Seq<NodeView>) -> bool {
    forall|i: int, j: int|
        0 <= i < j < nodes.len() ==> (#[trigger] nodes[i]).name() != (#[trigger] nodes[j]).name()
}

/// Whether `nodes[i]` is the first node named `name`.
pub open spec fn first_named(nodes: Seq<NodeView>, name: Seq<char>, i: int) -> bool {
    &&& 0 <= i < nodes.len()
    &&& nodes[i].name() == name
    &&& forall|j: int| 0 <= j < i ==> (#[trigger] nodes[j]).name() != name
}

impl DirectoryView {
    /// The root of a tree made at `now`: an empty directory named by the
    /// separator.
    pub open spec fn root(now: SystemTime) -> DirectoryView {
        DirectoryView::empty("/"@, MetadataView::root(now))
    }

    /// An empty directory.
    pub open spec fn empty(name: Seq<char>, metadata: MetadataView) -> DirectoryView {
        DirectoryView { name, nodes: Seq::empty(), metadata }
    }

    /// No directory of the tree holds two entries of one name.
    pub open spec fn wf(self) -> bool {
        NodeView::Directory(self).wf()
    }

    /// The place of the entry named `name`, if there is one.
    pub open spec fn find(self, name: Seq<char>) -> Option<int> {
        if exists|i: int| first_named(self.nodes, name, i) {
            Some(choose|i: int| first_named(self.nodes, name, i))
        } else {
            None
        }
    }

    /// The entry named `name`, if there is one.
    pub open spec fn child(self, name: Seq<char>) -> Option<NodeView> {
        match self.find(name) {
            Some(i) => Some(self.nodes[i]),
            None => None,
        }
    }

    /// The names of the entries, in order.
    pub open spec fn names(self) -> Seq<Seq<char>> {
        Seq::new(self.nodes.len(), |i: int| self.nodes[i].name())
    }

    /// The same directory with other entries.
    pub open spec fn with_nodes(self, nodes: Seq<NodeView>) -> DirectoryView {
        DirectoryView { nodes, ..self }
    }

    /// Walks down from this directory along `parts`. Every part has to name
    /// a directory.
    pub open spec fn resolve(self, parts: Seq<Seq<char>>) -> Result<DirectoryView, FsError>
        decreases parts.len(),
    {
        if parts.len() == 0 {
            Ok(self)
        } else {
            match self.child(parts[0]) {
                None => Err(FsError::NotFound),
                Some(NodeView::File(_)) => Err(FsError::NotADirectory),
                Some(NodeView::Directory(d)) => d.resolve(parts.skip(1)),
            }
        }
    }

    /// This tree with the directory at `parts` replaced by `new`. Where
    /// `parts` leads to no directory, the tree itself.
    pub open spec fn replace(self, parts: Seq<Seq<char>>, new: DirectoryView) -> DirectoryView
        decreases parts.len(),
    {
        if parts.len() == 0 {
            new
        } else {
            match self.find(parts[0]) {
                None => self,
                Some(i) => match self.nodes[i] {
                    NodeView::File(_) => self,
                    NodeView::Directory(d) => self.with_nodes(
                        self.nodes.update(
                            i,
                            NodeView::Directory(d.replace(parts.skip(1), new)),
                        ),
                    ),
                },
            }
        }
    }
}

/// The parent directory of an entry, the path that leads to it, and the
/// entry's own name.
pub struct EntryView {
    pub prefix: Seq<Seq<char>>,
    pub parent: DirectoryView,
    pub leaf: Seq<char>,
}

/// What an operation that changes the tree has to leave behind: on success
/// the tree that `expected` holds, on failure its error and the tree as it
/// was.
pub open spec fn applied(
    expected: Result<DirectoryView, FsError>,
    before: DirectoryView,
    after: DirectoryView,
    r: Result<(), FsError>,
) -> bool {
    match expected {
        Ok(tree) => r is Ok && after == tree,
        Err(e) => r == Err::<(), FsError>(e) && after == before,
    }
}

// Changes to the entries of one directory.
impl DirectoryView {
    /// Adds `node` as the last entry. Its name has to be free.
    pub open spec fn insert_child(self, node: NodeView) -> Result<DirectoryView, FsError> {
        if self.find(node.name()) is Some {
            Err(FsError::AlreadyExists)
        } else {
            Ok(self.with_nodes(self.nodes.push(node)))
        }
    }

    /// Removes the entry named `name`: a file, or a directory without
    /// entries.
    pub open spec fn remove_child(self, name: Seq<char>) -> Result<DirectoryView, FsError> {
        match self.find(name) {
            None => Err(FsError::NotFound),
            Some(i) => match self.nodes[i] {
                NodeView::Directory(d) if d.nodes.len() > 0 => Err(FsError::DirectoryNotEmpty),
                _ => Ok(self.with_nodes(self.nodes.remove(i))),
            },
        }
    }

    /// Gives the entry named `name` the name `new_name`, which has to be
    /// free. The entry keeps its place.
    pub open spec fn rename_child(self, name: Seq<char>, new_name: Seq<char>) -> Result<
        DirectoryView,
        FsError,
    > {
        match self.find(name) {
            None => Err(FsError::NotFound),
            Some(i) => if self.find(new_name) is Some {
                Err(FsError::AlreadyExists)
            } else {
                Ok(self.with_nodes(self.nodes.update(i, self.nodes[i].renamed(new_name))))
            },
        }
    }

    /// Writes to the file named `name`, whatever its permissions.
    pub open spec fn write_child(
        self,
        name: Seq<char>,
        content: Seq<u8>,
        append: bool,
        now: SystemTime,
    ) -> Result<DirectoryView, FsError> {
        match self.find(name) {
            None => Err(FsError::NotFound),
            Some(i) => match self.nodes[i] {
                NodeView::Directory(_) => Err(FsError::IsADirectory),
                NodeView::File(f) => Ok(
                    self.with_nodes(
                        self.nodes.update(i, NodeView::File(f.written(content, append, now))),
                    ),
                ),
            },
        }
    }

    /// Writes to the file named `name` if it grants write permission. A
    /// directory of that name counts as no file.
    pub open spec fn update_child(
        self,
        name: Seq<char>,
        content: Seq<u8>,
        append: bool,
        now: SystemTime,
    ) -> Result<DirectoryView, FsError> {
        match self.child(name) {
            Some(NodeView::File(f)) => if f.metadata.permissions.write {
                self.write_child(name, content, append, now)
            } else {
                Err(FsError::PermissionDenied)
            },
            _ => Err(FsError::NotFound),
        }
    }

    /// Replaces the record of the entry named `name`.
    pub open spec fn remeta_child(self, name: Seq<char>, metadata: MetadataView) -> DirectoryView {
        match self.find(name) {
            None => self,
            Some(i) => self.with_nodes(self.nodes.update(i, self.nodes[i].with_metadata(metadata))),
        }
    }

    /// Sets the permissions of the entry named `name` at `now`.
    pub open spec fn chmod_child(
        self,
        name: Seq<char>,
        permissions: Permissions,
        now: SystemTime,
    ) -> Result<DirectoryView, FsError> {
        match self.child(name) {
            None => Err(FsError::NotFound),
            Some(node) => Ok(
                self.remeta_child(
                    name,
                    node.metadata().with_permissions(permissions).modified(now),
                ),
            ),
        }
    }

    /// Adds `tag` to the tags of the entry named `name`.
    pub open spec fn tag_child(self, name: Seq<char>, tag: Seq<char>) -> Result<
        DirectoryView,
        FsError,
    > {
        match self.child(name) {
            None => Err(FsError::NotFound),
            Some(node) => Ok(self.remeta_child(name, node.metadata().tagged(tag))),
        }
    }

    /// The bytes of the file named `name`.
    pub open spec fn read_child(self, name: Seq<char>) -> Result<Seq<u8>, FsError> {
        match self.child(name) {
            None => Err(FsError::NotFound),
            Some(NodeView::Directory(_)) => Err(FsError::IsADirectory),
            Some(NodeView::File(f)) => Ok(f.content),
        }
    }
}

// Operations on the whole tree, by path.
impl DirectoryView {
    /// The parent directory and the name of the entry that `path` speaks
    /// of. The entry itself need not exist.
    pub open spec fn resolve_entry(self, path: Seq<char>) -> Result<EntryView, FsError> {
        let parts = components(path);
        if parts.len() == 0 {
            Err(FsError::InvalidPath)
        } else {
            match self.resolve(parts.drop_last()) {
                Err(e) => Err(e),
                Ok(parent) => Ok(EntryView { prefix: parts.drop_last(), parent, leaf: parts.last() }),
            }
        }
    }

    /// The entry that `path` speaks of.
    pub open spec fn lookup(self, path: Seq<char>) -> Result<NodeView, FsError> {
        match self.resolve_entry(path) {
            Err(e) => Err(e),
            Ok(entry) => match entry.parent.child(entry.leaf) {
                None => Err(FsError::NotFound),
                Some(node) => Ok(node),
            },
        }
    }

    /// Puts a changed directory back at `prefix`, or hands the error on.
    pub open spec fn graft(self, prefix: Seq<Seq<char>>, changed: Result<DirectoryView, FsError>) -> Result<
        DirectoryView,
        FsError,
    > {
        match changed {
            Ok(parent) => Ok(self.replace(prefix, parent)),
            Err(e) => Err(e),
        }
    }

    /// The tree after creating, at `now`, a directory or a file with
    /// `content` at `path`.
    pub open spec fn created(
        self,
        path: Seq<char>,
        content: Seq<u8>,
        is_directory: bool,
        now: SystemTime,
    ) -> Result<DirectoryView, FsError> {
        match self.resolve_entry(path) {
            Err(e) => Err(e),
            Ok(entry) => self.graft(
                entry.prefix,
                entry.parent.insert_child(NodeView::fresh(entry.leaf, content, is_directory, now)),
            ),
        }
    }

    /// The tree after deleting the entry at `path`.
    pub open spec fn deleted(self, path: Seq<char>) -> Result<DirectoryView, FsError> {
        match self.resolve_entry(path) {
            Err(e) => Err(e),
            Ok(entry) => self.graft(entry.prefix, entry.parent.remove_child(entry.leaf)),
        }
    }

    /// The tree after renaming the entry at `path` to `new_name`.
    pub open spec fn renamed(self, path: Seq<char>, new_name: Seq<char>) -> Result<
        DirectoryView,
        FsError,
    > {
        match self.resolve_entry(path) {
            Err(e) => Err(e),
            Ok(entry) => self.graft(entry.prefix, entry.parent.rename_child(entry.leaf, new_name)),
        }
    }

    /// The tree after an unconditional write to the file at `path`.
    pub open spec fn written(
        self,
        path: Seq<char>,
        content: Seq<u8>,
        append: bool,
        now: SystemTime,
    ) -> Result<DirectoryView, FsError> {
        match self.resolve_entry(path) {
            Err(e) => Err(e),
            Ok(entry) => self.graft(
                entry.prefix,
                entry.parent.write_child(entry.leaf, content, append, now),
            ),
        }
    }

    /// The tree after a write to the file at `path` that its permissions
    /// have to allow.
    pub open spec fn updated(
        self,
        path: Seq<char>,
        content: Seq<u8>,
        append: bool,
        now: SystemTime,
    ) -> Result<DirectoryView, FsError> {
        match self.resolve_entry(path) {
            Err(e) => Err(e),
            Ok(entry) => self.graft(
                entry.prefix,
                entry.parent.update_child(entry.leaf, content, append, now),
            ),
        }
    }

    /// The tree after setting the permissions of the entry at `path`.
    pub open spec fn with_permissions(
        self,
        path: Seq<char>,
        permissions: Permissions,
        now: SystemTime,
    ) -> Result<DirectoryView, FsError> {
        match self.resolve_entry(path) {
            Err(e) => Err(e),
            Ok(entry) => self.graft(
                entry.prefix,
                entry.parent.chmod_child(entry.leaf, permissions, now),
            ),
        }
    }

    /// The tree after adding `tag` to the entry at `path`.
    pub open spec fn tagged(self, path: Seq<char>, tag: Seq<char>) -> Result<
        DirectoryView,
        FsError,
    > {
        match self.resolve_entry(path) {
            Err(e) => Err(e),
            Ok(entry) => self.graft(entry.prefix, entry.parent.tag_child(entry.leaf, tag)),
        }
    }

    /// The tree after copying the entry at `source`, with all below it,
    /// into the parent directory of `target`. The copy keeps the name of the
    /// source; the last component of `target` names nothing.
    pub open spec fn copied(self, source: Seq<char>, target: Seq<char>) -> Result<
        DirectoryView,
        FsError,
    > {
        match self.lookup(source) {
            Err(e) => Err(e),
            Ok(node) => match self.resolve_entry(target) {
                Err(e) => Err(e),
                Ok(entry) => self.graft(entry.prefix, entry.parent.insert_child(node)),
            },
        }
    }

    /// The bytes of the file at `path`.
    pub open spec fn read(self, path: Seq<char>) -> Result<Seq<u8>, FsError> {
        match self.resolve_entry(path) {
            Err(e) => Err(e),
            Ok(entry) => entry.parent.read_child(entry.leaf),
        }
    }

    /// The names of the entries of the directory at `path`, in order. A
    /// path without components is the root.
    pub open spec fn listing(self, path: Seq<char>) -> Result<Seq<Seq<char>>, FsError> {
        if components(path).len() == 0 {
            Ok(self.names())
        } else {
            match self.lookup(path) {
                Err(e) => Err(e),
                Ok(NodeView::File(_)) => Err(FsError::IsADirectory),
                Ok(NodeView::Directory(d)) => Ok(d.names()),
            }
        }
    }
}

/// The first node named `name` is found at its place.
pub proof fn lemma_find_first(d: DirectoryView, name: Seq<char>, i: int)
    requires
        first_named(d.nodes, name, i),
    ensures
        d.find(name) == Some(i),
{
    let j = choose|j: int| first_named(d.nodes, name, j);
    assert(first_named(d.nodes, name, j));
    if j < i {
        assert(d.nodes[j].name() != name);
    }
    if i < j {
        assert(d.nodes[i].name() != name);
    }
}

/// A name that no node has is not found.
pub proof fn lemma_find_none(d: DirectoryView, name: Seq<char>)
    requires
        forall|j: int| 0 <= j < d.nodes.len() ==> (#[trigger] d.nodes[j]).name() != name,
    ensures
        d.find(name) is None,
{
}

/// What `find` returns, spelled out.
pub proof fn lemma_find(d: DirectoryView, name: Seq<char>)
    ensures
        match d.find(name) {
            Some(i) => first_named(d.nodes, name, i),
            None => forall|j: int| 0 <= j < d.nodes.len() ==> (#[trigger] d.nodes[j]).name() != name,
        },
{
    if d.find(name) is None {
        assert forall|j: int| 0 <= j < d.nodes.len() implies (#[trigger] d.nodes[j]).name()
            != name by {
            if d.nodes[j].name() == name {
                lemma_first_exists(d.nodes, name, j);
            }
        }
    }
}

proof fn lemma_first_exists(nodes: Seq<NodeView>, name: Seq<char>, j: int)
    requires
        0 <= j < nodes.len(),
        nodes[j].name() == name,
    ensures
        exists|i: int| first_named(nodes, name, i),
    decreases j,
{
    if forall|k: int| 0 <= k < j ==> (#[trigger] nodes[k]).name() != name {
        assert(first_named(nodes, name, j));
    } else {
        let k = choose|k: int| 0 <= k < j && (#[trigger] nodes[k]).name() == name;
        lemma_first_exists(nodes, name, k);
    }
}

} // verus!
