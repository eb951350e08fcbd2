use crate::metadata::{texts, Metadata};
use crate::model::{DirectoryView, FileView, NodeView};
use crate::node::{models, Directory, FSNode, File};
use vstd::prelude::*;
use vstd::string::*;

verus! {

/// What a search looks for in a file's record.
pub enum CriterionView {
    /// The tag is among the file's tags.
    Tag(Seq<char>),
    /// The MIME type is exactly this one.
    MimeType(Seq<char>),
}

/// What a search looks for in a file's record.
pub enum Criterion {
    Tag(String),
    MimeType(String),
}

impl View for Criterion {
    type V = CriterionView;

    open spec fn view(&self) -> CriterionView {
        match self {
            Criterion::Tag(tag) => CriterionView::Tag(tag@),
            Criterion::MimeType(mime_type) => CriterionView::MimeType(mime_type@),
        }
    }
}

impl FileView {
    /// Whether the file is what the search looks for.
    pub open spec fn meets(self, wanted: CriterionView) -> bool {
        match wanted {
            CriterionView::Tag(tag) => self.metadata.has_tag(tag),
            CriterionView::MimeType(mime_type) => self.metadata.mime_type == mime_type,
        }
    }
}

/// How a search reports a file: the name of the directory that holds it, the
/// separator, and the file's own name. Directories further up are not part
/// of it.
pub open spec fn entry_path(parent: Seq<char>, name: Seq<char>) -> Seq<char> {
    parent + seq!['/'] + name
}

/// What a depth-first walk over `nodes`, the entries of a directory named
/// `parent`, reports: for each entry in order, the file itself if it meets
/// `wanted`, or all that the walk reports below the directory.
pub open spec fn hits(parent: Seq<char>, nodes: Seq<NodeView>, wanted: CriterionView) -> Seq<
    Seq<char>,
>
    decreases nodes,
{
    if nodes.len() == 0 {
        Seq::empty()
    } else {
        hits(parent, nodes.drop_last(), wanted) + (match nodes.last() {
            NodeView::File(f) => if f.meets(wanted) {
                seq![entry_path(parent, f.name)]
            } else {
                Seq::empty()
            },
            NodeView::Directory(d) => hits(d.name, d.nodes, wanted),
        })
    }
}

impl DirectoryView {
    /// The files at or below this directory that meet `wanted`, as a
    /// depth-first walk reports them.
    pub open spec fn search(self, wanted: CriterionView) -> Seq<Seq<char>> {
        hits(self.name, self.nodes, wanted)
    }
}

impl Metadata {
    /// Whether `tag` is among the tags.
    pub fn has_tag(&self, tag: &String) -> (found: bool)
        ensures
            found == self@.has_tag(tag@),
    {
        let mut i: usize = 0;
        while i < self.tags.len()
            invariant
                i <= self.tags.len(),
                forall|j: int| 0 <= j < i ==> self@.tags[j] != tag@,
            decreases self.tags.len() - i,
        {
            if self.tags[i] == *tag {
                assert(self@.tags[i as int] == tag@);
                return true;
            }
            i = i + 1;
        }
        false
    }
}

impl File {
    /// Whether the file is what the search looks for.
    pub fn meets(&self, wanted: &Criterion) -> (found: bool)
        ensures
            found == self@.meets(wanted@),
    {
        match wanted {
            Criterion::Tag(tag) => self.metadata.has_tag(tag),
            Criterion::MimeType(mime_type) => self.metadata.mime_type == *mime_type,
        }
    }
}

/// The name of the holding directory, the separator, and the name.
pub fn join_entry_path(parent: &String, name: &String) -> (path: String)
    ensures
        path@ == entry_path(parent@, name@),
{
    proof {
        reveal_strlit("/");
    }
    let mut path = parent.clone();
    path.append("/");
    assert(path@ =~= parent@ + seq!['/']);
    path.append(name.as_str());
    path
}

impl Directory {
    /// Walks the directory depth-first and adds to `results` what the walk
    /// reports.
    pub fn collect(&self, wanted: &Criterion, results: &mut Vec<String>)
        ensures
            texts(final(results)@) == texts(old(results)@) + self@.search(wanted@),
        decreases self,
    {
        let ghost start = texts(results@);
        let mut i: usize = 0;
        assert(models(self.nodes@).take(0) =~= Seq::empty());
        assert(texts(results@) =~= start + Seq::empty());
        while i < self.nodes.len()
            invariant
                i <= self.nodes.len(),
                texts(results@) == start + hits(self@.name, self@.nodes.take(i as int), wanted@),
            decreases self.nodes.len() - i,
        {
            let ghost before = texts(results@);
            let ghost upto = self@.nodes.take(i + 1);
            assert(upto.drop_last() =~= self@.nodes.take(i as int));
            assert(upto.last() == self.nodes@[i as int]@);
            match &self.nodes[i] {
                FSNode::File(f) => {
                    if f.meets(wanted) {
                        let path = join_entry_path(&self.name, &f.name);
                        results.push(path);
                        assert(texts(results@) =~= before + seq![entry_path(self@.name, f@.name)]);
                    } else {
                        assert(before =~= before + Seq::<Seq<char>>::empty());
                    }
                },
                FSNode::Directory(d) => {
                    d.collect(wanted, results);
                },
            }
            assert(texts(results@) =~= start + hits(self@.name, upto, wanted@));
            i = i + 1;
        }
        assert(self@.nodes.take(self.nodes.len() as int) =~= self@.nodes);
    }
}

} // verus!
