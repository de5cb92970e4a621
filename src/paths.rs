//! The last component of a `/`-separated path.

use vstd::prelude::*;
use vstd::string::StrSliceExecFns;

verus! {

/// `p` without the separators and `.` components that end it; a lone `.`
/// stays.
pub open spec fn trim_end(p: Seq<char>) -> Seq<char>
    decreases p.len(),
{
    if p.len() > 0 && p.last() == '/' {
        trim_end(p.drop_last())
    } else if p.len() >= 2 && p.last() == '.' && p[p.len() - 2] == '/' {
        trim_end(p.drop_last())
    } else {
        p
    }
}

/// What follows the last separator of `p`.
pub open spec fn last_segment(p: Seq<char>) -> Seq<char>
    decreases p.len(),
{
    if p.len() == 0 || p.last() == '/' {
        Seq::empty()
    } else {
        last_segment(p.drop_last()).push(p.last())
    }
}

/// The final component of a path, as `Path::file_name` gives it: none for
/// an empty path, the root, `.` alone, or a path that ends in `..`.
pub open spec fn file_name(p: Seq<char>) -> Option<Seq<char>> {
    let seg = last_segment(trim_end(p));
    if seg.len() == 0 || seg == seq!['.'] || seg == seq!['.', '.'] {
        None
    } else {
        Some(seg)
    }
}

/// Returns the base name of the path, which must have one.
pub fn base_name(path: &str) -> (r: &str)
    requires
        file_name(path@) is Some,
    ensures
        r@ == file_name(path@)->Some_0,
{
    let n = path.unicode_len();
    let mut end = n;
    assert(path@.subrange(0, n as int) =~= path@);
    loop
        invariant
            n == path@.len(),
            end <= n,
            trim_end(path@.subrange(0, end as int)) == trim_end(path@),
        ensures
            end <= n,
            trim_end(path@.subrange(0, end as int)) == trim_end(path@),
            trim_end(path@.subrange(0, end as int)) == path@.subrange(0, end as int),
        decreases end,
    {
        let t = Ghost(path@.subrange(0, end as int));
        if end > 0 && path.get_char(end - 1) == '/' {
        } else if end >= 2 && path.get_char(end - 1) == '.' && path.get_char(end - 2) == '/' {
        } else {
            assert(trim_end(t@) == t@);
            break;
        }
        assert(t@.drop_last() =~= path@.subrange(0, end - 1));
        end = end - 1;
    }
    let ghost t = path@.subrange(0, end as int);
    let mut start = end;
    assert(path@.subrange(start as int, end as int) =~= Seq::<char>::empty());
    assert(last_segment(t) =~= last_segment(t) + Seq::<char>::empty());
    while start > 0 && path.get_char(start - 1) != '/'
        invariant
            n == path@.len(),
            start <= end <= n,
            t == path@.subrange(0, end as int),
            last_segment(t) == last_segment(path@.subrange(0, start as int)) + path@.subrange(
                start as int,
                end as int,
            ),
        decreases start,
    {
        let ghost s = path@.subrange(0, start as int);
        assert(s.drop_last() =~= path@.subrange(0, start - 1));
        assert(path@.subrange(start - 1, end as int) =~= seq![s.last()] + path@.subrange(
            start as int,
            end as int,
        ));
        assert(last_segment(s) == last_segment(s.drop_last()).push(s.last()));
        assert(last_segment(s.drop_last()).push(s.last()) + path@.subrange(start as int, end as int)
            =~= last_segment(s.drop_last()) + path@.subrange(start - 1, end as int));
        start = start - 1;
    }
    assert(last_segment(path@.subrange(0, start as int)) =~= Seq::<char>::empty());
    assert(last_segment(t) =~= path@.subrange(start as int, end as int));
    path.substring_char(start, end)
}

} // verus!
