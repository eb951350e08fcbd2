use vstd::prelude::*;
use vstd::string::*;

verus! {

/// The separator between the components of a path.
pub open spec fn is_separator(c: char) -> bool {
    c == '/'
}

/// The state of a scan of `s` from the left: the components that are
/// complete, and the characters read since the last separator.
pub open spec fn scan(s: Seq<char>) -> (Seq<Seq<char>>, Seq<char>)
    decreases s.len(),
{
    if s.len() == 0 {
        (Seq::empty(), Seq::empty())
    } else {
        let (done, current) = scan(s.drop_last());
        if is_separator(s.last()) {
            if current.len() > 0 {
                (done.push(current), Seq::empty())
            } else {
                (done, Seq::empty())
            }
        } else {
            (done, current.push(s.last()))
        }
    }
}

/// The components of a path: the maximal runs of characters other than the
/// separator, in order. Leading, trailing and repeated separators give no
/// component.
pub open spec fn components(s: Seq<char>) -> Seq<Seq<char>> {
    let (done, current) = scan(s);
    if current.len() > 0 {
        done.push(current)
    } else {
        done
    }
}

/// A single name: not empty, and without a separator.
pub open spec fn is_component(name: Seq<char>) -> bool {
    &&& name.len() > 0
    &&& forall|i: int| 0 <= i < name.len() ==> !is_separator(#[trigger] name[i])
}

/// Splits a path at the separator and drops the empty pieces.
pub fn split_path(path: &str) -> (parts: Vec<String>)
    ensures
        crate::metadata::texts(parts@) == components(path@),
{
    let n = path.unicode_len();
    let mut parts: Vec<String> = Vec::new();
    let mut start: usize = 0;
    let mut i: usize = 0;
    assert(path@.take(0) =~= Seq::empty());
    assert(crate::metadata::texts(parts@) =~= Seq::empty());
    assert(path@.subrange(0, 0) =~= Seq::empty());
    while i < n
        invariant
            n == path@.len(),
            start <= i <= n,
            scan(path@.take(i as int)) == (
                crate::metadata::texts(parts@),
                path@.subrange(start as int, i as int),
            ),
        decreases n - i,
    {
        let c = path.get_char(i);
        let ghost before = crate::metadata::texts(parts@);
        assert(path@.take(i + 1).drop_last() =~= path@.take(i as int));
        assert(path@.take(i + 1).last() == c);
        if c == '/' {
            if start < i {
                let piece = path.substring_char(start, i).to_owned();
                parts.push(piece);
                assert(crate::metadata::texts(parts@) =~= before.push(
                    path@.subrange(start as int, i as int),
                ));
            }
            start = i + 1;
            assert(path@.subrange(start as int, i + 1) =~= Seq::empty());
        } else {
            assert(path@.subrange(start as int, i + 1) =~= path@.subrange(
                start as int,
                i as int,
            ).push(c));
        }
        i = i + 1;
    }
    assert(path@.take(n as int) =~= path@);
    if start < n {
        let ghost before = crate::metadata::texts(parts@);
        let piece = path.substring_char(start, n).to_owned();
        parts.push(piece);
        assert(crate::metadata::texts(parts@) =~= before.push(
            path@.subrange(start as int, n as int),
        ));
    }
    parts
}

/// Every component of a path is a single name.
pub proof fn lemma_components_are_names(s: Seq<char>)
    ensures
        forall|k: int| 0 <= k < components(s).len() ==> is_component(#[trigger] components(s)[k]),
{
    lemma_scan_names(s);
}

proof fn lemma_scan_names(s: Seq<char>)
    ensures
        forall|k: int| 0 <= k < scan(s).0.len() ==> is_component(#[trigger] scan(s).0[k]),
        forall|i: int| 0 <= i < scan(s).1.len() ==> !is_separator(#[trigger] scan(s).1[i]),
    decreases s.len(),
{
    if s.len() > 0 {
        lemma_scan_names(s.drop_last());
        let (done, current) = scan(s.drop_last());
        let (done2, current2) = scan(s);
        assert forall|k: int| 0 <= k < done2.len() implies is_component(#[trigger] done2[k]) by {
            if k < done.len() {
                assert(done2[k] == done[k]);
            } else {
                assert(done2[k] == current);
                assert forall|i: int| 0 <= i < current.len() implies !is_separator(
                    #[trigger] current[i],
                ) by {}
            }
        }
        assert forall|i: int| 0 <= i < current2.len() implies !is_separator(
            #[trigger] current2[i],
        ) by {
            if i < current.len() {
                assert(current2[i] == current[i]);
            }
        }
    }
}

/// A single name is a path of one component, itself.
pub proof fn lemma_name_is_one_component(name: Seq<char>)
    requires
        is_component(name),
    ensures
        components(name) == seq![name],
{
    lemma_scan_plain(name);
    assert(seq![name] =~= Seq::<Seq<char>>::empty().push(name));
}

/// A path, the separator and a single name: the components of the path,
/// and the name after them.
pub proof fn lemma_components_join(parent: Seq<char>, name: Seq<char>)
    requires
        is_component(name),
    ensures
        components(parent + seq!['/'] + name) == components(parent).push(name),
{
    let cut = parent + seq!['/'];
    assert(cut.drop_last() =~= parent);
    assert(cut.last() == '/');
    assert(scan(cut) == (components(parent), Seq::<char>::empty()));
    lemma_scan_append(cut, name);
    assert(Seq::<char>::empty() + name =~= name);
}

proof fn lemma_scan_append(s: Seq<char>, t: Seq<char>)
    requires
        forall|i: int| 0 <= i < t.len() ==> !is_separator(#[trigger] t[i]),
    ensures
        scan(s + t) == (scan(s).0, scan(s).1 + t),
    decreases t.len(),
{
    if t.len() == 0 {
        assert(s + t =~= s);
        assert(scan(s).1 + t =~= scan(s).1);
    } else {
        lemma_scan_append(s, t.drop_last());
        assert((s + t).drop_last() =~= s + t.drop_last());
        assert((s + t).last() == t.last());
        assert((scan(s).1 + t.drop_last()).push(t.last()) =~= scan(s).1 + t);
    }
}

proof fn lemma_scan_plain(s: Seq<char>)
    requires
        forall|i: int| 0 <= i < s.len() ==> !is_separator(#[trigger] s[i]),
    ensures
        scan(s) == (Seq::<Seq<char>>::empty(), s),
    decreases s.len(),
{
    if s.len() > 0 {
        lemma_scan_plain(s.drop_last());
        assert(s.drop_last().push(s.last()) =~= s);
    } else {
        assert(s =~= Seq::empty());
    }
}

} // verus!
