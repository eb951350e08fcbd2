//! What holds of the operations taken together, stated over the model of
//! the tree and proved from its definitions.

use crate::error::FsError;
use crate::lemmas::{lemma_find_update, lemma_resolve_replace};
use crate::metadata::Permissions;
use crate::model::{
    first_named, lemma_find, lemma_find_first, DirectoryView, EntryView, NodeView,
};
use crate::path::{components, is_component, lemma_components_are_names};
use std::time::SystemTime;
use vstd::prelude::*;

verus! {

/// A walk along `parts` is a walk along all but the last part, and one step
/// more.
pub proof fn lemma_resolve_last(d: DirectoryView, parts: Seq<Seq<char>>)
    requires
        parts.len() > 0,
    ensures
        d.resolve(parts) == (match d.resolve(parts.drop_last()) {
            Err(e) => Err(e),
            Ok(p) => match p.child(parts.last()) {
                None => Err(FsError::NotFound),
                Some(NodeView::File(_)) => Err(FsError::NotADirectory),
                Some(NodeView::Directory(c)) => Ok(c),
            },
        }),
    decreases parts.len(),
{
    if parts.len() == 1 {
        assert(parts.drop_last() =~= Seq::empty());
        assert(parts.skip(1) =~= Seq::empty());
        if let Some(NodeView::Directory(c)) = d.child(parts[0]) {
            assert(c.resolve(parts.skip(1)) == Ok::<DirectoryView, FsError>(c));
        }
    } else {
        assert(parts.drop_last()[0] == parts[0]);
        assert(parts.drop_last().skip(1) =~= parts.skip(1).drop_last());
        if let Some(NodeView::Directory(c)) = d.child(parts[0]) {
            lemma_resolve_last(c, parts.skip(1));
        }
    }
}

/// A path of at least one component leads to a directory exactly when the
/// walk along its components ends in that directory.
pub proof fn lemma_lookup_directory(root: DirectoryView, path: Seq<char>)
    requires
        components(path).len() > 0,
    ensures
        root.lookup(path) matches Ok(NodeView::Directory(d)) ==> root.resolve(components(path))
            == Ok::<DirectoryView, FsError>(d),
        root.resolve(components(path)) matches Ok(d) ==> root.lookup(path) == Ok::<
            NodeView,
            FsError,
        >(NodeView::Directory(d)),
{
    lemma_resolve_last(root, components(path));
}

/// The listing of a path is the names in the directory that the walk along
/// its components ends in.
pub proof fn lemma_listing(root: DirectoryView, path: Seq<char>)
    requires
        root.resolve(components(path)) is Ok,
    ensures
        root.listing(path) == Ok::<Seq<Seq<char>>, FsError>(
            root.resolve(components(path))->Ok_0.names(),
        ),
{
    if components(path).len() > 0 {
        lemma_lookup_directory(root, path);
    }
}

/// After the parent of an entry was replaced by a directory of the same
/// name, the path of the entry leads into the new parent.
pub proof fn lemma_entry_replace(root: DirectoryView, path: Seq<char>, parent: DirectoryView)
    requires
        root.resolve_entry(path) is Ok,
        parent.name == root.resolve_entry(path)->Ok_0.parent.name,
    ensures
        root.replace(root.resolve_entry(path)->Ok_0.prefix, parent).resolve_entry(path) == Ok::<
            EntryView,
            FsError,
        >(EntryView { parent, ..root.resolve_entry(path)->Ok_0 }),
{
    lemma_resolve_replace(root, root.resolve_entry(path)->Ok_0.prefix, parent);
}

/// A new entry is created exactly where the parent exists and the name is
/// free. Its name is a single name: not empty, and without a separator. The
/// parent then lists the names it had, none of them the new one, and the new
/// name after them.
pub proof fn law_create_then_list(
    root: DirectoryView,
    path: Seq<char>,
    content: Seq<u8>,
    is_directory: bool,
    now: SystemTime,
    parent_path: Seq<char>,
)
    requires
        components(parent_path) == components(path).drop_last(),
    ensures
        root.created(path, content, is_directory, now) is Ok <==> root.resolve_entry(path) is Ok
            && root.lookup(path) is Err,
        root.created(path, content, is_directory, now) matches Ok(tree) ==> {
            &&& is_component(components(path).last())
            &&& root.listing(parent_path) is Ok
            &&& !root.listing(parent_path)->Ok_0.contains(components(path).last())
            &&& tree.listing(parent_path) == Ok::<Seq<Seq<char>>, FsError>(
                root.listing(parent_path)->Ok_0.push(components(path).last()),
            )
        },
{
    if let Ok(tree) = root.created(path, content, is_directory, now) {
        lemma_components_are_names(path);
        let entry = root.resolve_entry(path)->Ok_0;
        let node = NodeView::fresh(entry.leaf, content, is_directory, now);
        let parent = entry.parent.with_nodes(entry.parent.nodes.push(node));
        lemma_resolve_replace(root, entry.prefix, parent);
        lemma_listing(root, parent_path);
        lemma_listing(tree, parent_path);
        lemma_find(entry.parent, entry.leaf);
        assert(parent.names() =~= entry.parent.names().push(entry.leaf));
        assert forall|j: int| 0 <= j < entry.parent.names().len() implies entry.parent.names()[j]
            != entry.leaf by {
            assert(entry.parent.nodes[j].name() != entry.leaf);
        }
    }
}

/// Once an entry was created at a path, nothing more can be created there.
pub proof fn law_create_twice(
    root: DirectoryView,
    path: Seq<char>,
    content: Seq<u8>,
    is_directory: bool,
    now: SystemTime,
    content2: Seq<u8>,
    is_directory2: bool,
    now2: SystemTime,
)
    requires
        root.created(path, content, is_directory, now) is Ok,
    ensures
        root.created(path, content, is_directory, now)->Ok_0.created(
            path,
            content2,
            is_directory2,
            now2,
        ) == Err::<DirectoryView, FsError>(FsError::AlreadyExists),
{
    let entry = root.resolve_entry(path)->Ok_0;
    let node = NodeView::fresh(entry.leaf, content, is_directory, now);
    let parent = entry.parent.with_nodes(entry.parent.nodes.push(node));
    lemma_entry_replace(root, path, parent);
    lemma_find(entry.parent, entry.leaf);
    assert forall|j: int| 0 <= j < entry.parent.nodes.len() implies (#[trigger] parent.nodes[j]).name()
        != entry.leaf by {
        assert(entry.parent.nodes[j].name() != entry.leaf);
    }
    assert(first_named(parent.nodes, entry.leaf, entry.parent.nodes.len() as int));
    lemma_find_first(parent, entry.leaf, entry.parent.nodes.len() as int);
}

/// What a deletion comes to for every path: the error of the lookup; for a
/// directory with entries, `DirectoryNotEmpty`; for a file or a directory
/// without entries, success.
pub proof fn law_delete(root: DirectoryView, path: Seq<char>)
    ensures
        match root.lookup(path) {
            Err(e) => root.deleted(path) == Err::<DirectoryView, FsError>(e),
            Ok(NodeView::Directory(d)) => if d.nodes.len() > 0 {
                root.deleted(path) == Err::<DirectoryView, FsError>(FsError::DirectoryNotEmpty)
            } else {
                root.deleted(path) is Ok
            },
            Ok(NodeView::File(_)) => root.deleted(path) is Ok,
        },
{
}

/// Deleting an entry of a directory leaves the directory in place with that
/// one entry less: a directory whose entries were all deleted is empty, and
/// can be deleted.
pub proof fn law_delete_shrinks_parent(
    root: DirectoryView,
    directory_path: Seq<char>,
    entry_path: Seq<char>,
)
    requires
        components(entry_path).len() > 0,
        components(entry_path).drop_last() == components(directory_path),
        components(directory_path).len() > 0,
        root.deleted(entry_path) is Ok,
    ensures
        root.lookup(directory_path) matches Ok(NodeView::Directory(d)) && d.find(
            components(entry_path).last(),
        ) is Some && root.deleted(entry_path)->Ok_0.lookup(directory_path) == Ok::<
            NodeView,
            FsError,
        >(
            NodeView::Directory(
                d.with_nodes(d.nodes.remove(d.find(components(entry_path).last())->0)),
            ),
        ),
{
    let entry = root.resolve_entry(entry_path)->Ok_0;
    let tree = root.deleted(entry_path)->Ok_0;
    let parent = entry.parent.remove_child(entry.leaf)->Ok_0;
    lemma_resolve_replace(root, entry.prefix, parent);
    lemma_lookup_directory(root, directory_path);
    lemma_lookup_directory(tree, directory_path);
}

/// A write decides what the next read returns: the bytes written or, for an
/// appending write, the bytes read before followed by the bytes written.
pub proof fn law_write_then_read(
    root: DirectoryView,
    path: Seq<char>,
    content: Seq<u8>,
    append: bool,
    now: SystemTime,
)
    requires
        root.written(path, content, append, now) is Ok,
    ensures
        root.read(path) is Ok,
        root.written(path, content, append, now)->Ok_0.read(path) == Ok::<Seq<u8>, FsError>(
            if append {
                root.read(path)->Ok_0 + content
            } else {
                content
            },
        ),
{
    let entry = root.resolve_entry(path)->Ok_0;
    let parent = entry.parent.write_child(entry.leaf, content, append, now)->Ok_0;
    let i = entry.parent.find(entry.leaf)->0;
    lemma_find(entry.parent, entry.leaf);
    lemma_entry_replace(root, path, parent);
    lemma_find_update(entry.parent, i, parent.nodes[i], entry.leaf);
}

/// Two writes in a row, the second appending: the read returns the first
/// bytes followed by the second.
pub proof fn law_append(
    root: DirectoryView,
    path: Seq<char>,
    first: Seq<u8>,
    now: SystemTime,
    second: Seq<u8>,
    now2: SystemTime,
)
    requires
        root.written(path, first, false, now) is Ok,
    ensures
        root.written(path, first, false, now)->Ok_0.written(path, second, true, now2) is Ok,
        root.written(path, first, false, now)->Ok_0.written(path, second, true, now2)->Ok_0.read(
            path,
        ) == Ok::<Seq<u8>, FsError>(first + second),
{
    let tree = root.written(path, first, false, now)->Ok_0;
    law_write_then_read(root, path, first, false, now);
    law_write_is_owed(tree, path, second, true, now2);
    law_write_then_read(tree, path, second, true, now2);
}

/// A write succeeds exactly on the paths that can be read.
pub proof fn law_write_is_owed(
    root: DirectoryView,
    path: Seq<char>,
    content: Seq<u8>,
    append: bool,
    now: SystemTime,
)
    ensures
        root.written(path, content, append, now) is Ok <==> root.read(path) is Ok,
        root.written(path, content, append, now) matches Err(e) ==> root.read(path) == Err::<
            Seq<u8>,
            FsError,
        >(e),
{
}

/// After a rename the entry is found under its new name, with the content,
/// the record and the entries it had: it reads and lists as it did under
/// the old name. Under the old name nothing is found.
pub proof fn law_rename(
    root: DirectoryView,
    old_path: Seq<char>,
    new_name: Seq<char>,
    new_path: Seq<char>,
)
    requires
        root.wf(),
        root.renamed(old_path, new_name) is Ok,
        components(new_path) == components(old_path).drop_last().push(new_name),
    ensures
        root.lookup(old_path) is Ok,
        root.renamed(old_path, new_name)->Ok_0.lookup(new_path) == Ok::<NodeView, FsError>(
            root.lookup(old_path)->Ok_0.renamed(new_name),
        ),
        root.renamed(old_path, new_name)->Ok_0.read(new_path) == root.read(old_path),
        root.renamed(old_path, new_name)->Ok_0.listing(new_path) == root.listing(old_path),
        root.renamed(old_path, new_name)->Ok_0.lookup(old_path) == Err::<NodeView, FsError>(
            FsError::NotFound,
        ),
        root.renamed(old_path, new_name)->Ok_0.read(old_path) == Err::<Seq<u8>, FsError>(
            FsError::NotFound,
        ),
        root.renamed(old_path, new_name)->Ok_0.listing(old_path) == Err::<
            Seq<Seq<char>>,
            FsError,
        >(FsError::NotFound),
{
    let tree = root.renamed(old_path, new_name)->Ok_0;
    let entry = root.resolve_entry(old_path)->Ok_0;
    let i = entry.parent.find(entry.leaf)->0;
    let node = entry.parent.nodes[i].renamed(new_name);
    let parent = entry.parent.with_nodes(entry.parent.nodes.update(i, node));
    lemma_find(entry.parent, entry.leaf);
    lemma_find(entry.parent, new_name);
    crate::lemmas::lemma_resolve_wf(root, entry.prefix);
    lemma_entry_replace(root, old_path, parent);
    assert(components(new_path).drop_last() =~= entry.prefix);
    assert(components(new_path).last() == new_name);
    // Under the new name: the renamed node is the first of that name.
    assert forall|j: int| 0 <= j < i implies (#[trigger] parent.nodes[j]).name() != new_name by {
        assert(entry.parent.nodes[j].name() != new_name);
    }
    assert(first_named(parent.nodes, new_name, i));
    lemma_find_first(parent, new_name, i);
    // Under the old name: no node is left.
    assert forall|j: int| 0 <= j < parent.nodes.len() implies (#[trigger] parent.nodes[j]).name()
        != entry.leaf by {
        if j < i {
            assert(entry.parent.nodes[j].name() != entry.parent.nodes[i].name());
        } else if j > i {
            assert(entry.parent.nodes[i].name() != entry.parent.nodes[j].name());
        } else {
            assert(entry.parent.nodes[i].name() != new_name);
        }
    }
    assert(tree.lookup(new_path) == Ok::<NodeView, FsError>(node));
    match entry.parent.nodes[i] {
        NodeView::Directory(d) => {
            assert(node->Directory_0.names() =~= d.names());
        },
        NodeView::File(_) => {},
    }
}

/// A file whose write permission was taken away refuses the guarded write
/// and still takes the unguarded one.
pub proof fn law_revoked_write(
    root: DirectoryView,
    path: Seq<char>,
    permissions: Permissions,
    now: SystemTime,
    content: Seq<u8>,
    append: bool,
    now2: SystemTime,
)
    requires
        root.lookup(path) matches Ok(NodeView::File(_)),
        !permissions.write,
    ensures
        root.with_permissions(path, permissions, now) is Ok,
        root.with_permissions(path, permissions, now)->Ok_0.updated(path, content, append, now2)
            == Err::<DirectoryView, FsError>(FsError::PermissionDenied),
        root.with_permissions(path, permissions, now)->Ok_0.written(path, content, append, now2)
            is Ok,
{
    let entry = root.resolve_entry(path)->Ok_0;
    let i = entry.parent.find(entry.leaf)->0;
    lemma_find(entry.parent, entry.leaf);
    let parent = entry.parent.chmod_child(entry.leaf, permissions, now)->Ok_0;
    lemma_entry_replace(root, path, parent);
    lemma_find_update(entry.parent, i, parent.nodes[i], entry.leaf);
}

} // verus!
