use vstd::prelude::*;
use vstd::string::*;

verus! {

/// The part of a path after its last separator: the longest suffix that
/// holds no separator. A path without a separator is its own last segment.
pub open spec fn last_segment(path: Seq<char>) -> Seq<char>
    decreases path.len(),
{
    if path.len() == 0 || path.last() == '/' {
        Seq::empty()
    } else {
        last_segment(path.drop_last()).push(path.last())
    }
}

/// How `last_segment` sits in its path: it is a suffix, holds no separator,
/// and is either the whole path or stands right behind a separator.
pub proof fn lemma_last_segment_is_suffix(path: Seq<char>)
    ensures
        last_segment(path).len() <= path.len(),
        last_segment(path) == path.subrange(
            path.len() - last_segment(path).len(),
            path.len() as int,
        ),
        !last_segment(path).contains('/'),
        last_segment(path).len() == path.len() || path[path.len() - last_segment(path).len() - 1]
            == '/',
    decreases path.len(),
{
    if path.len() == 0 || path.last() == '/' {
        assert(last_segment(path) =~= path.subrange(path.len() as int, path.len() as int));
    } else {
        let front = path.drop_last();
        lemma_last_segment_is_suffix(front);
        let seg = last_segment(front);
        let start = front.len() - seg.len();
        assert(seg.push(path.last()) =~= path.subrange(start, path.len() as int));
        assert forall|i: int| 0 <= i < last_segment(path).len() implies last_segment(path)[i]
            != '/' by {
            if i < seg.len() {
                assert(seg.contains(seg[i]));
            }
        }
    }
}

/// A path that holds no separator is its own last segment.
pub proof fn lemma_last_segment_without_separator(path: Seq<char>)
    requires
        !path.contains('/'),
    ensures
        last_segment(path) == path,
    decreases path.len(),
{
    if path.len() > 0 {
        assert(path.contains(path.last()));
        let front = path.drop_last();
        assert forall|i: int| 0 <= i < front.len() implies front[i] != '/' by {
            assert(path.contains(path[i]));
        }
        lemma_last_segment_without_separator(front);
        assert(front.push(path.last()) =~= path);
    } else {
        assert(last_segment(path) =~= path);
    }
}

/// Behind a separator, an identifier that holds none is the last segment,
/// whatever stands before.
pub proof fn lemma_last_segment_of_joined(prefix: Seq<char>, id: Seq<char>)
    requires
        !id.contains('/'),
    ensures
        last_segment(prefix.push('/') + id) == id,
    decreases id.len(),
{
    let whole = prefix.push('/') + id;
    if id.len() == 0 {
        assert(whole =~= prefix.push('/'));
        assert(last_segment(whole) =~= id);
    } else {
        assert(id.contains(id.last()));
        let front = id.drop_last();
        assert forall|i: int| 0 <= i < front.len() implies front[i] != '/' by {
            assert(id.contains(id[i]));
        }
        lemma_last_segment_of_joined(prefix, front);
        assert(whole.drop_last() =~= prefix.push('/') + front);
        assert(whole.last() == id.last());
        assert(front.push(id.last()) =~= id);
    }
}

/// Extracts the short identifier of a document from its full path.
pub fn last_path_segment(path: &str) -> (segment: String)
    ensures
        segment@ == last_segment(path@),
{
    let n: usize = path.unicode_len();
    let mut start: usize = n;
    let mut done: bool = false;
    assert(path@.subrange(n as int, n as int) =~= Seq::<char>::empty());
    assert(path@.subrange(0, n as int) =~= path@);
    while !done
        invariant
            start <= n,
            n == path@.len(),
            last_segment(path@) == last_segment(path@.subrange(0, start as int)) + path@.subrange(
                start as int,
                n as int,
            ),
            done ==> last_segment(path@.subrange(0, start as int)) == Seq::<char>::empty(),
        decreases start + (if done { 0int } else { 1int }),
    {
        let ghost head = path@.subrange(0, start as int);
        if start == 0 {
            done = true;
        } else {
            let c: char = path.get_char(start - 1);
            assert(head.last() == c);
            if c == '/' {
                done = true;
            } else {
                assert(head.drop_last() =~= path@.subrange(0, start - 1));
                assert(last_segment(head.drop_last()).push(c) + path@.subrange(
                    start as int,
                    n as int,
                ) =~= last_segment(head.drop_last()) + path@.subrange(start - 1, n as int));
                start = start - 1;
            }
        }
    }
    assert(last_segment(path@) =~= path@.subrange(start as int, n as int));
    path.substring_char(start, n).to_owned()
}

} // verus!
