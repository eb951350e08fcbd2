use crate::error::FsError;
use crate::metadata::{texts, Metadata, Permissions};
use crate::model::{
    applied, lemma_find_first, lemma_find_none, DirectoryView, FileView, NodeView,
};
use std::time::SystemTime;
use vstd::prelude::*;

verus! {

/// A named sequence of bytes.
pub struct File {
    pub name: String,
    pub content: Vec<u8>,
    pub metadata: Metadata,
}

/// A named collection of nodes. No two entries share a name.
pub struct Directory {
    pub name: String,
    pub nodes: Vec<FSNode>,
    pub metadata: Metadata,
}

/// A file or a directory.
pub enum FSNode {
    File(File),
    Directory(Directory),
}

impl View for File {
    type V = FileView;

    open spec fn view(&self) -> FileView {
        FileView { name: self.name@, content: self.content@, metadata: self.metadata@ }
    }
}

impl FSNode {
    /// The node as plain mathematical values.
    pub open spec fn model(&self) -> NodeView
        decreases self,
    {
        match self {
            FSNode::File(f) => NodeView::File(f@),
            FSNode::Directory(d) => NodeView::Directory(d.model()),
        }
    }
}

/// The models of a list of nodes.
pub open spec fn models(nodes: Seq<FSNode>) -> Seq<NodeView>
    decreases nodes,
{
    Seq::new(
        nodes.len(),
        |i: int|
            if 0 <= i < nodes.len() {
                nodes[i].model()
            } else {
                arbitrary()
            },
    )
}

impl Directory {
    /// The directory as plain mathematical values.
    pub open spec fn model(&self) -> DirectoryView
        decreases self,
    {
        DirectoryView { name: self.name@, nodes: models(self.nodes@), metadata: self.metadata@ }
    }
}

impl View for Directory {
    type V = DirectoryView;

    open spec fn view(&self) -> DirectoryView {
        self.model()
    }
}

impl View for FSNode {
    type V = NodeView;

    open spec fn view(&self) -> NodeView {
        self.model()
    }
}

impl FSNode {
    /// The name of the node.
    pub fn name(&self) -> (name: &String)
        ensures
            name@ == self@.name(),
    {
        match self {
            FSNode::File(f) => &f.name,
            FSNode::Directory(d) => &d.name,
        }
    }

    /// The record attached to the node, for changing it in place.
    pub fn metadata(&mut self) -> (m: &mut Metadata)
        ensures
            m@ == old(self)@.metadata(),
            final(self)@ == old(self)@.with_metadata(final(m)@),
    {
        match self {
            FSNode::File(f) => &mut f.metadata,
            FSNode::Directory(d) => &mut d.metadata,
        }
    }
}

impl Directory {
    /// The place of the entry named `name`, if there is one.
    pub fn position(&self, name: &String) -> (place: Option<usize>)
        ensures
            match place {
                Some(i) => self@.find(name@) == Some(i as int),
                None => self@.find(name@) is None,
            },
    {
        let mut i: usize = 0;
        while i < self.nodes.len()
            invariant
                i <= self.nodes.len(),
                forall|j: int| 0 <= j < i ==> (#[trigger] self@.nodes[j]).name() != name@,
            decreases self.nodes.len() - i,
        {
            if *self.nodes[i].name() == *name {
                proof {
                    assert(self@.nodes[i as int].name() == name@);
                    lemma_find_first(self@, name@, i as int);
                }
                return Some(i);
            }
            i = i + 1;
        }
        proof {
            lemma_find_none(self@, name@);
        }
        None
    }

    /// Walks down from this directory along `parts[from..]`.
    pub fn navigate(&self, parts: &Vec<String>, from: usize) -> (r: Result<&Directory, FsError>)
        requires
            from <= parts.len(),
        ensures
            match r {
                Ok(d) => self@.resolve(texts(parts@).skip(from as int)) == Ok::<
                    DirectoryView,
                    FsError,
                >(d@),
                Err(e) => self@.resolve(texts(parts@).skip(from as int)) == Err::<
                    DirectoryView,
                    FsError,
                >(e),
            },
        decreases parts.len() - from,
    {
        let ghost rest = texts(parts@).skip(from as int);
        if from == parts.len() {
            return Ok(self);
        }
        assert(rest[0] == parts@[from as int]@);
        assert(rest.skip(1) =~= texts(parts@).skip(from + 1));
        match self.position(&parts[from]) {
            None => Err(FsError::NotFound),
            Some(i) => match &self.nodes[i] {
                FSNode::File(_) => Err(FsError::NotADirectory),
                FSNode::Directory(d) => d.navigate(parts, from + 1),
            },
        }
    }

    /// Walks down from this directory along `parts[from..]` and hands out
    /// the directory found there, for changing it in place.
    pub fn navigate_mut<'a>(&'a mut self, parts: &Vec<String>, from: usize) -> (r: Result<
        &'a mut Directory,
        FsError,
    >)
        requires
            from <= parts.len(),
        ensures
            match r {
                Ok(d) => {
                    &&& old(self)@.resolve(texts(parts@).skip(from as int)) == Ok::<
                        DirectoryView,
                        FsError,
                    >(d@)
                    &&& final(self)@ =~~= old(self)@.replace(
                        texts(parts@).skip(from as int),
                        final(d)@,
                    )
                },
                Err(e) => {
                    &&& old(self)@.resolve(texts(parts@).skip(from as int)) == Err::<
                        DirectoryView,
                        FsError,
                    >(e)
                    &&& final(self)@ =~~= old(self)@
                },
            },
        decreases parts.len() - from,
    {
        let ghost rest = texts(parts@).skip(from as int);
        if from == parts.len() {
            return Ok(self);
        }
        assert(rest[0] == parts@[from as int]@);
        assert(rest.skip(1) =~= texts(parts@).skip(from + 1));
        let i = match self.position(&parts[from]) {
            None => {
                return Err(FsError::NotFound);
            },
            Some(i) => i,
        };
        let is_file = match &self.nodes[i] {
            FSNode::File(_) => true,
            FSNode::Directory(_) => false,
        };
        if is_file {
            return Err(FsError::NotADirectory);
        }
        assert(self@.nodes.update(i as int, self@.nodes[i as int]) =~= self@.nodes);
        self.directory_mut(i).navigate_mut(parts, from + 1)
    }

    /// The directory at place `i`, for changing it in place.
    pub fn directory_mut(&mut self, i: usize) -> (d: &mut Directory)
        requires
            i < old(self).nodes.len(),
            old(self)@.nodes[i as int] is Directory,
        ensures
            NodeView::Directory(d@) == old(self)@.nodes[i as int],
            final(self)@.name == old(self)@.name,
            final(self)@.metadata == old(self)@.metadata,
            final(self)@.nodes =~= old(self)@.nodes.update(
                i as int,
                NodeView::Directory(final(d)@),
            ),
    {
        match &mut self.nodes[i] {
            FSNode::Directory(d) => d,
            FSNode::File(_) => unreached(),
        }
    }
}

impl FSNode {
    /// An empty directory or a file with `content`, made at `now`.
    pub fn fresh(name: String, content: Vec<u8>, is_directory: bool, now: SystemTime) -> (node:
        FSNode)
        ensures
            node@ == NodeView::fresh(name@, content@, is_directory, now),
    {
        let metadata = Metadata::initial(now, "text/plain");
        if is_directory {
            let d = Directory { name, nodes: Vec::new(), metadata };
            assert(d@.nodes =~= Seq::empty());
            FSNode::Directory(d)
        } else {
            FSNode::File(File { name, content, metadata })
        }
    }
}

impl File {
    /// A copy with the same view.
    pub fn duplicate(&self) -> (f: File)
        ensures
            f@ == self@,
    {
        File {
            name: self.name.clone(),
            content: self.content.clone(),
            metadata: self.metadata.duplicate(),
        }
    }
}

impl Directory {
    /// A copy of the directory and of all below it.
    pub fn duplicate(&self) -> (d: Directory)
        ensures
            d@ == self@,
        decreases self,
    {
        let mut nodes: Vec<FSNode> = Vec::new();
        let mut i: usize = 0;
        while i < self.nodes.len()
            invariant
                i <= self.nodes.len(),
                nodes@.len() == i,
                forall|j: int| 0 <= j < i ==> (#[trigger] nodes@[j])@ == self.nodes@[j]@,
            decreases self.nodes.len() - i,
        {
            let copy = match &self.nodes[i] {
                FSNode::File(f) => FSNode::File(f.duplicate()),
                FSNode::Directory(d) => FSNode::Directory(d.duplicate()),
            };
            nodes.push(copy);
            i = i + 1;
        }
        assert(models(nodes@) =~= models(self.nodes@));
        Directory { name: self.name.clone(), nodes, metadata: self.metadata.duplicate() }
    }
}

impl FSNode {
    /// A copy of the node and of all below it.
    pub fn duplicate(&self) -> (node: FSNode)
        ensures
            node@ == self@,
    {
        match self {
            FSNode::File(f) => FSNode::File(f.duplicate()),
            FSNode::Directory(d) => FSNode::Directory(d.duplicate()),
        }
    }

    /// Gives the node another name.
    pub fn rename(&mut self, name: String)
        ensures
            final(self)@ == old(self)@.renamed(name@),
    {
        match self {
            FSNode::File(f) => {
                f.name = name;
            },
            FSNode::Directory(d) => {
                d.name = name;
            },
        }
    }

    /// Writes to a file at `now`: `content` replaces what it held or, with
    /// `append`, follows it. A directory stays as it is.
    pub fn write(&mut self, content: Vec<u8>, append: bool, now: SystemTime)
        ensures
            final(self)@ == (match old(self)@ {
                NodeView::File(f) => NodeView::File(f.written(content@, append, now)),
                NodeView::Directory(d) => NodeView::Directory(d),
            }),
    {
        let mut content = content;
        match self {
            FSNode::File(f) => {
                if append {
                    f.content.append(&mut content);
                } else {
                    f.content = content;
                }
                f.metadata.set_modified(now);
            },
            FSNode::Directory(_) => {},
        }
    }
}

// Changes to the entries of one directory.
impl Directory {
    /// Adds `node` as the last entry, unless its name is taken.
    pub fn insert_child(&mut self, node: FSNode) -> (r: Result<(), FsError>)
        ensures
            applied(old(self)@.insert_child(node@), old(self)@, final(self)@, r),
    {
        if self.position(node.name()).is_some() {
            return Err(FsError::AlreadyExists);
        }
        self.nodes.push(node);
        assert(self@.nodes =~= old(self)@.nodes.push(node@));
        Ok(())
    }

    /// Removes the entry named `name`: a file, or a directory without
    /// entries.
    pub fn remove_child(&mut self, name: &String) -> (r: Result<(), FsError>)
        ensures
            applied(old(self)@.remove_child(name@), old(self)@, final(self)@, r),
    {
        let i = match self.position(name) {
            None => {
                return Err(FsError::NotFound);
            },
            Some(i) => i,
        };
        assert(self@.nodes[i as int] == self.nodes@[i as int]@);
        if let FSNode::Directory(d) = &self.nodes[i] {
            assert(d@.nodes.len() == d.nodes@.len());
            if d.nodes.len() > 0 {
                return Err(FsError::DirectoryNotEmpty);
            }
        }
        let _ = self.nodes.remove(i);
        assert(self@.nodes =~= old(self)@.nodes.remove(i as int));
        Ok(())
    }

    /// Gives the entry named `name` the name `new_name`, unless that is
    /// taken.
    pub fn rename_child(&mut self, name: &String, new_name: String) -> (r: Result<(), FsError>)
        ensures
            applied(old(self)@.rename_child(name@, new_name@), old(self)@, final(self)@, r),
    {
        let i = match self.position(name) {
            None => {
                return Err(FsError::NotFound);
            },
            Some(i) => i,
        };
        if self.position(&new_name).is_some() {
            return Err(FsError::AlreadyExists);
        }
        self.nodes[i].rename(new_name);
        assert(self@.nodes =~= old(self)@.nodes.update(
            i as int,
            old(self)@.nodes[i as int].renamed(new_name@),
        ));
        Ok(())
    }

    /// Writes to the file named `name`, whatever its permissions.
    pub fn write_child(&mut self, name: &String, content: Vec<u8>, append: bool, now: SystemTime) -> (r:
        Result<(), FsError>)
        ensures
            applied(
                old(self)@.write_child(name@, content@, append, now),
                old(self)@,
                final(self)@,
                r,
            ),
    {
        let i = match self.position(name) {
            None => {
                return Err(FsError::NotFound);
            },
            Some(i) => i,
        };
        if let FSNode::Directory(_) = &self.nodes[i] {
            return Err(FsError::IsADirectory);
        }
        self.nodes[i].write(content, append, now);
        assert(self@.nodes =~= old(self)@.nodes.update(
            i as int,
            NodeView::File(old(self)@.nodes[i as int]->File_0.written(content@, append, now)),
        ));
        Ok(())
    }

    /// Writes to the file named `name` if it grants write permission.
    pub fn update_child(&mut self, name: &String, content: Vec<u8>, append: bool, now: SystemTime) -> (r:
        Result<(), FsError>)
        ensures
            applied(
                old(self)@.update_child(name@, content@, append, now),
                old(self)@,
                final(self)@,
                r,
            ),
    {
        let i = match self.position(name) {
            None => {
                return Err(FsError::NotFound);
            },
            Some(i) => i,
        };
        match &self.nodes[i] {
            FSNode::Directory(_) => Err(FsError::NotFound),
            FSNode::File(f) => {
                if !f.metadata.permissions.write {
                    Err(FsError::PermissionDenied)
                } else {
                    self.write_child(name, content, append, now)
                }
            },
        }
    }

    /// Sets the permissions of the entry named `name` at `now`.
    pub fn chmod_child(&mut self, name: &String, permissions: Permissions, now: SystemTime) -> (r:
        Result<(), FsError>)
        ensures
            applied(
                old(self)@.chmod_child(name@, permissions, now),
                old(self)@,
                final(self)@,
                r,
            ),
    {
        let i = match self.position(name) {
            None => {
                return Err(FsError::NotFound);
            },
            Some(i) => i,
        };
        let m = self.nodes[i].metadata();
        m.permissions = permissions;
        m.set_modified(now);
        assert(self@.nodes =~= old(self)@.nodes.update(
            i as int,
            old(self)@.nodes[i as int].with_metadata(
                old(self)@.nodes[i as int].metadata().with_permissions(permissions).modified(now),
            ),
        ));
        Ok(())
    }

    /// Adds `tag` to the tags of the entry named `name`.
    pub fn tag_child(&mut self, name: &String, tag: String) -> (r: Result<(), FsError>)
        ensures
            applied(old(self)@.tag_child(name@, tag@), old(self)@, final(self)@, r),
    {
        let i = match self.position(name) {
            None => {
                return Err(FsError::NotFound);
            },
            Some(i) => i,
        };
        let m = self.nodes[i].metadata();
        let ghost tags = m.tags@;
        m.tags.push(tag);
        assert(texts(m.tags@) =~= texts(tags).push(tag@));
        assert(self@.nodes =~= old(self)@.nodes.update(
            i as int,
            old(self)@.nodes[i as int].with_metadata(
                old(self)@.nodes[i as int].metadata().tagged(tag@),
            ),
        ));
        Ok(())
    }

    /// The bytes of the file named `name`.
    pub fn read_child(&self, name: &String) -> (r: Result<Vec<u8>, FsError>)
        ensures
            match r {
                Ok(bytes) => self@.read_child(name@) == Ok::<Seq<u8>, FsError>(bytes@),
                Err(e) => self@.read_child(name@) == Err::<Seq<u8>, FsError>(e),
            },
    {
        match self.position(name) {
            None => Err(FsError::NotFound),
            Some(i) => match &self.nodes[i] {
                FSNode::Directory(_) => Err(FsError::IsADirectory),
                FSNode::File(f) => Ok(f.content.clone()),
            },
        }
    }

    /// The names of the entries, in order.
    pub fn names(&self) -> (names: Vec<String>)
        ensures
            texts(names@) == self@.names(),
    {
        let mut names: Vec<String> = Vec::new();
        let mut i: usize = 0;
        while i < self.nodes.len()
            invariant
                i <= self.nodes.len(),
                names@.len() == i,
                forall|j: int| 0 <= j < i ==> names@[j]@ == self@.nodes[j].name(),
            decreases self.nodes.len() - i,
        {
            names.push(self.nodes[i].name().clone());
            i = i + 1;
        }
        assert(texts(names@) =~= self@.names());
        names
    }
}

} // verus!
