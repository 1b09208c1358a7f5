//! Lists of strings, and the dotted paths of the configuration.

use vstd::prelude::*;

verus! {

/// The contents of a list of strings.
pub open spec fn strs(list: Seq<String>) -> Seq<Seq<char>> {
    list.map_values(|s: String| s@)
}

/// The segments of a dotted path: the pieces between its dots, in order.
///
/// A path without a dot is one segment, the empty path is one empty
/// segment, and a dot at either end or next to another dot bounds an empty
/// segment.
pub open spec fn split_path(path: Seq<char>) -> Seq<Seq<char>>
    decreases path.len(),
{
    if path.len() == 0 {
        seq![Seq::empty()]
    } else {
        let before = split_path(path.drop_last());
        if path.last() == '.' {
            before.push(Seq::empty())
        } else {
            before.drop_last().push(before.last().push(path.last()))
        }
    }
}

/// Segments put together again, with a dot between neighbours.
pub open spec fn join_dotted(segments: Seq<Seq<char>>) -> Seq<char>
    decreases segments.len(),
{
    if segments.len() == 0 {
        Seq::empty()
    } else if segments.len() == 1 {
        segments[0]
    } else {
        join_dotted(segments.drop_last()).push('.') + segments.last()
    }
}

/// The segments of a path are the one way to cut it at its dots: put
/// together again they give the path, and no segment holds a dot.
pub proof fn lemma_split_path_joins(path: Seq<char>)
    ensures
        join_dotted(split_path(path)) == path,
        forall|i: int| 0 <= i < split_path(path).len() ==> !(#[trigger] split_path(path)[i]).contains('.'),
    decreases path.len(),
{
    if path.len() == 0 {
        assert(join_dotted(split_path(path)) =~= path);
    } else {
        let before = split_path(path.drop_last());
        let c = path.last();
        lemma_split_path_joins(path.drop_last());
        lemma_split_path_len(path.drop_last());
        assert(path =~= path.drop_last().push(c));
        if c == '.' {
            let all = before.push(Seq::empty());
            assert(all.drop_last() =~= before);
            assert(join_dotted(all) =~= path);
            assert forall|i: int| 0 <= i < all.len() implies !(#[trigger] all[i]).contains('.') by {
                if i < before.len() {
                    assert(all[i] == before[i]);
                }
            }
        } else {
            let grown = before.last().push(c);
            let all = before.drop_last().push(grown);
            if before.len() == 1 {
                assert(join_dotted(all) =~= path);
            } else {
                assert(all.drop_last() =~= before.drop_last());
                assert(join_dotted(all) =~= join_dotted(before).push(c));
            }
            assert forall|i: int| 0 <= i < all.len() implies !(#[trigger] all[i]).contains('.') by {
                if i < before.len() - 1 {
                    assert(all[i] == before[i]);
                } else {
                    assert(!before[before.len() - 1].contains('.'));
                    if grown.contains('.') {
                        let k: int = choose|k: int| 0 <= k < grown.len() && grown[k] == '.';
                        assert(k < before.last().len());
                        assert(before.last()[k] == '.');
                    }
                }
            }
        }
    }
}

/// A path has at least one segment.
pub proof fn lemma_split_path_len(path: Seq<char>)
    ensures
        split_path(path).len() >= 1,
    decreases path.len(),
{
    if path.len() > 0 {
        lemma_split_path_len(path.drop_last());
    }
}

/// Splits a dotted path into its segments.
pub fn split_dotted(path: &str) -> (segments: Vec<String>)
    ensures
        strs(segments@) == split_path(path@),
{
    let n: usize = path.unicode_len();
    let mut segments: Vec<String> = Vec::new();
    let mut start: usize = 0;
    let mut k: usize = 0;
    assert(path@.subrange(0, 0) =~= Seq::<char>::empty());
    assert(strs(segments@).push(path@.subrange(0, 0)) =~= seq![Seq::<char>::empty()]);
    assert(path@.take(0).len() == 0);
    for c in it: path.chars()
        invariant
            it.seq() == path@,
            n == path@.len(),
            k == it.index(),
            start <= k <= n,
            strs(segments@).push(path@.subrange(start as int, k as int)) == split_path(
                path@.take(k as int),
            ),
    {
        assert(c == path@[k as int]);
        assert(path@.take(k + 1).drop_last() =~= path@.take(k as int));
        assert(path@.take(k + 1).last() == c);
        if c == '.' {
            let segment = path.substring_char(start, k).to_owned();
            assert(strs(segments@.push(segment)) =~= strs(segments@).push(segment@));
            segments.push(segment);
            start = k + 1;
            assert(path@.subrange(start as int, k + 1) =~= Seq::<char>::empty());
        } else {
            assert(path@.subrange(start as int, k + 1) =~= path@.subrange(
                start as int,
                k as int,
            ).push(c));
            assert(strs(segments@).push(path@.subrange(start as int, k as int)).drop_last()
                =~= strs(segments@));
        }
        k += 1;
    }
    assert(path@.take(k as int) =~= path@);
    let segment = path.substring_char(start, k).to_owned();
    assert(strs(segments@.push(segment)) =~= strs(segments@).push(segment@));
    segments.push(segment);
    segments
}

/// A copy of the strings of `list` from position `from` on.
pub fn copy_from(list: &Vec<String>, from: usize) -> (tail: Vec<String>)
    requires
        from <= list.len(),
    ensures
        strs(tail@) == strs(list@).skip(from as int),
{
    let mut tail: Vec<String> = Vec::new();
    let mut i: usize = from;
    while i < list.len()
        invariant
            from <= i <= list.len(),
            strs(tail@) == strs(list@).subrange(from as int, i as int),
        decreases list.len() - i,
    {
        let item = list[i].clone();
        assert(strs(tail@.push(item)) =~= strs(tail@).push(item@));
        assert(strs(list@).subrange(from as int, i + 1) =~= strs(list@).subrange(
            from as int,
            i as int,
        ).push(list[i as int]@));
        tail.push(item);
        i += 1;
    }
    assert(strs(list@).subrange(from as int, i as int) =~= strs(list@).skip(from as int));
    tail
}

/// Whether two lists hold the same strings in the same order.
pub fn same_strings(a: &Vec<String>, b: &Vec<String>) -> (eq: bool)
    ensures
        eq == (strs(a@) == strs(b@)),
{
    if a.len() != b.len() {
        assert(strs(a@).len() != strs(b@).len());
        return false;
    }
    let mut i: usize = 0;
    while i < a.len()
        invariant
            i <= a.len(),
            a.len() == b.len(),
            forall|k: int| 0 <= k < i ==> strs(a@)[k] == strs(b@)[k],
        decreases a.len() - i,
    {
        if a[i] != b[i] {
            assert(strs(a@)[i as int] != strs(b@)[i as int]);
            return false;
        }
        assert(strs(a@)[i as int] == strs(b@)[i as int]);
        i += 1;
    }
    assert(strs(a@) =~= strs(b@));
    true
}

} // verus!
