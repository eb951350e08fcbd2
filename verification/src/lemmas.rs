use crate::error::FsError;
use crate::metadata::MetadataView;
use crate::model::{first_named, lemma_find, lemma_find_first, DirectoryView, NodeView};
use vstd::prelude::*;

verus! {

/// A well-formed directory has well-formed entries.
pub proof fn lemma_wf_child(d: DirectoryView, i: int)
    requires
        d.wf(),
        0 <= i < d.nodes.len(),
    ensures
        d.nodes[i].wf(),
        d.nodes[i] matches NodeView::Directory(c) ==> c.wf(),
{
}

/// Replacing an entry by one of the same name moves no name.
pub proof fn lemma_find_update(d: DirectoryView, i: int, node: NodeView, name: Seq<char>)
    requires
        0 <= i < d.nodes.len(),
        node.name() == d.nodes[i].name(),
    ensures
        d.with_nodes(d.nodes.update(i, node)).find(name) == d.find(name),
{
    let d2 = d.with_nodes(d.nodes.update(i, node));
    lemma_find(d, name);
    match d.find(name) {
        Some(k) => {
            assert forall|j: int| 0 <= j < k implies (#[trigger] d2.nodes[j]).name() != name by {
                assert(d.nodes[j].name() != name);
            }
            assert(first_named(d2.nodes, name, k));
            lemma_find_first(d2, name, k);
        },
        None => {
            assert forall|j: int| 0 <= j < d2.nodes.len() implies (#[trigger] d2.nodes[j]).name()
                != name by {
                assert(d.nodes[j].name() != name);
            }
        },
    }
}

/// The directory that a walk ends in, put back where it was found, gives
/// the tree itself.
pub proof fn lemma_replace_same(d: DirectoryView, parts: Seq<Seq<char>>)
    requires
        d.resolve(parts) is Ok,
    ensures
        d.replace(parts, d.resolve(parts)->Ok_0) == d,
    decreases parts.len(),
{
    if parts.len() > 0 {
        let i = d.find(parts[0])->0;
        let c = d.nodes[i]->Directory_0;
        lemma_find(d, parts[0]);
        lemma_replace_same(c, parts.skip(1));
        assert(d.nodes.update(i, d.nodes[i]) =~= d.nodes);
    }
}

/// A walk through a well-formed tree ends in a well-formed directory.
pub proof fn lemma_resolve_wf(d: DirectoryView, parts: Seq<Seq<char>>)
    requires
        d.wf(),
        d.resolve(parts) is Ok,
    ensures
        d.resolve(parts)->Ok_0.wf(),
    decreases parts.len(),
{
    if parts.len() > 0 {
        let i = d.find(parts[0])->0;
        lemma_find(d, parts[0]);
        lemma_wf_child(d, i);
        lemma_resolve_wf(d.nodes[i]->Directory_0, parts.skip(1));
    }
}

/// Replacing a directory by one of the same name leaves the walk to it
/// intact.
pub proof fn lemma_resolve_replace(d: DirectoryView, parts: Seq<Seq<char>>, new: DirectoryView)
    requires
        d.resolve(parts) is Ok,
        new.name == d.resolve(parts)->Ok_0.name,
    ensures
        d.replace(parts, new).resolve(parts) == Ok::<DirectoryView, FsError>(new),
        d.replace(parts, new).name == d.name,
        d.replace(parts, new).metadata == if parts.len() == 0 {
            new.metadata
        } else {
            d.metadata
        },
    decreases parts.len(),
{
    if parts.len() > 0 {
        let i = d.find(parts[0])->0;
        let c = d.nodes[i]->Directory_0;
        lemma_find(d, parts[0]);
        lemma_resolve_replace(c, parts.skip(1), new);
        let c2 = c.replace(parts.skip(1), new);
        lemma_find_update(d, i, NodeView::Directory(c2), parts[0]);
    }
}

/// Replacing a directory of a well-formed tree by a well-formed one of the
/// same name gives a well-formed tree.
pub proof fn lemma_replace_wf(d: DirectoryView, parts: Seq<Seq<char>>, new: DirectoryView)
    requires
        d.wf(),
        d.resolve(parts) is Ok,
        new.wf(),
        new.name == d.resolve(parts)->Ok_0.name,
    ensures
        d.replace(parts, new).wf(),
    decreases parts.len(),
{
    if parts.len() > 0 {
        let i = d.find(parts[0])->0;
        let c = d.nodes[i]->Directory_0;
        lemma_find(d, parts[0]);
        lemma_wf_child(d, i);
        lemma_replace_wf(c, parts.skip(1), new);
        lemma_resolve_replace(c, parts.skip(1), new);
        let c2 = c.replace(parts.skip(1), new);
        lemma_update_wf(d, i, NodeView::Directory(c2));
    }
}

/// Replacing an entry by a well-formed one of the same name keeps a
/// directory well-formed.
pub proof fn lemma_update_wf(d: DirectoryView, i: int, node: NodeView)
    requires
        d.wf(),
        0 <= i < d.nodes.len(),
        node.wf(),
        node.name() == d.nodes[i].name(),
    ensures
        d.with_nodes(d.nodes.update(i, node)).wf(),
{
    let nodes = d.nodes.update(i, node);
    assert forall|a: int, b: int| 0 <= a < b < nodes.len() implies (#[trigger] nodes[a]).name() != (
    #[trigger] nodes[b]).name() by {
        assert(d.nodes[a].name() != d.nodes[b].name());
    }
    assert forall|k: int| 0 <= k < nodes.len() implies (#[trigger] nodes[k]).wf() by {
        if k != i {
            assert(d.nodes[k].wf());
        }
    }
}

/// Adding a well-formed entry under a free name keeps a directory
/// well-formed.
pub proof fn lemma_insert_wf(d: DirectoryView, node: NodeView)
    requires
        d.wf(),
        node.wf(),
        d.insert_child(node) is Ok,
    ensures
        d.insert_child(node)->Ok_0.wf(),
{
    let nodes = d.nodes.push(node);
    lemma_find(d, node.name());
    assert forall|a: int, b: int| 0 <= a < b < nodes.len() implies (#[trigger] nodes[a]).name() != (
    #[trigger] nodes[b]).name() by {
        if b < d.nodes.len() {
            assert(d.nodes[a].name() != d.nodes[b].name());
        } else {
            assert(d.nodes[a].name() != node.name());
        }
    }
    assert forall|k: int| 0 <= k < nodes.len() implies (#[trigger] nodes[k]).wf() by {
        if k < d.nodes.len() {
            assert(d.nodes[k].wf());
        }
    }
}

/// Removing an entry keeps a directory well-formed.
pub proof fn lemma_remove_wf(d: DirectoryView, name: Seq<char>)
    requires
        d.wf(),
        d.remove_child(name) is Ok,
    ensures
        d.remove_child(name)->Ok_0.wf(),
{
    let i = d.find(name)->0;
    lemma_find(d, name);
    let nodes = d.nodes.remove(i);
    assert forall|a: int, b: int| 0 <= a < b < nodes.len() implies (#[trigger] nodes[a]).name() != (
    #[trigger] nodes[b]).name() by {
        let a0 = if a < i { a } else { a + 1 };
        let b0 = if b < i { b } else { b + 1 };
        assert(d.nodes[a0].name() != d.nodes[b0].name());
    }
    assert forall|k: int| 0 <= k < nodes.len() implies (#[trigger] nodes[k]).wf() by {
        let k0 = if k < i { k } else { k + 1 };
        assert(d.nodes[k0].wf());
    }
}

/// Renaming an entry to a free name keeps a directory well-formed.
pub proof fn lemma_rename_wf(d: DirectoryView, name: Seq<char>, new_name: Seq<char>)
    requires
        d.wf(),
        d.rename_child(name, new_name) is Ok,
    ensures
        d.rename_child(name, new_name)->Ok_0.wf(),
{
    let i = d.find(name)->0;
    lemma_find(d, name);
    lemma_find(d, new_name);
    let nodes = d.nodes.update(i, d.nodes[i].renamed(new_name));
    assert(d.nodes[i].wf());
    assert(d.nodes[i].renamed(new_name).wf());
    assert forall|a: int, b: int| 0 <= a < b < nodes.len() implies (#[trigger] nodes[a]).name() != (
    #[trigger] nodes[b]).name() by {
        assert(d.nodes[a].name() != d.nodes[b].name());
        assert(d.nodes[a].name() != new_name);
        assert(d.nodes[b].name() != new_name);
    }
    assert forall|k: int| 0 <= k < nodes.len() implies (#[trigger] nodes[k]).wf() by {
        if k != i {
            assert(d.nodes[k].wf());
        }
    }
}

/// Writing to a file keeps its directory well-formed.
pub proof fn lemma_write_wf(
    d: DirectoryView,
    name: Seq<char>,
    content: Seq<u8>,
    append: bool,
    now: std::time::SystemTime,
)
    requires
        d.wf(),
    ensures
        d.write_child(name, content, append, now) is Ok ==> d.write_child(
            name,
            content,
            append,
            now,
        )->Ok_0.wf(),
        d.update_child(name, content, append, now) is Ok ==> d.update_child(
            name,
            content,
            append,
            now,
        )->Ok_0.wf(),
{
    if d.write_child(name, content, append, now) is Ok {
        let i = d.find(name)->0;
        lemma_find(d, name);
        let f = d.nodes[i]->File_0;
        lemma_update_wf(d, i, NodeView::File(f.written(content, append, now)));
    }
}

/// Replacing the record of an entry keeps its directory well-formed.
pub proof fn lemma_remeta_wf(d: DirectoryView, name: Seq<char>, metadata: MetadataView)
    requires
        d.wf(),
    ensures
        d.remeta_child(name, metadata).wf(),
{
    if d.find(name) is Some {
        let i = d.find(name)->0;
        lemma_find(d, name);
        assert(d.nodes[i].wf());
        lemma_update_wf(d, i, d.nodes[i].with_metadata(metadata));
    }
}

/// An entry of a well-formed tree is well-formed.
pub proof fn lemma_lookup_wf(d: DirectoryView, path: Seq<char>)
    requires
        d.wf(),
        d.lookup(path) is Ok,
    ensures
        d.lookup(path)->Ok_0.wf(),
{
    let entry = d.resolve_entry(path)->Ok_0;
    lemma_resolve_wf(d, entry.prefix);
    lemma_find(entry.parent, entry.leaf);
    lemma_wf_child(entry.parent, entry.parent.find(entry.leaf)->0);
}

/// Putting back a directory that was changed in place keeps the tree
/// well-formed; putting back one that was not gives the tree as it was.
pub proof fn lemma_graft(d: DirectoryView, prefix: Seq<Seq<char>>, changed: Result<DirectoryView, FsError>)
    requires
        d.wf(),
        d.resolve(prefix) is Ok,
        changed matches Ok(p) ==> p.wf() && p.name == d.resolve(prefix)->Ok_0.name,
    ensures
        d.graft(prefix, changed) matches Ok(t) ==> t.wf(),
        d.replace(prefix, d.resolve(prefix)->Ok_0) == d,
{
    if let Ok(p) = changed {
        lemma_replace_wf(d, prefix, p);
    }
    lemma_replace_same(d, prefix);
}

} // verus!
