//! Where kernel settings live under `/proc/sys`.

use vstd::prelude::*;

use crate::text::{cat2, cat3, chars_of, split_on};

verus! {

/// A path with one more segment: an absolute segment replaces the path, any other comes after a
/// separator, which is not doubled.
pub open spec fn pushed(path: Seq<char>, seg: Seq<char>) -> Seq<char> {
    if seg.len() > 0 && seg[0] == '/' {
        seg
    } else if path.len() > 0 && path.last() == '/' {
        path + seg
    } else {
        path + "/"@ + seg
    }
}

/// A path with all the segments after it.
pub open spec fn pushed_all(path: Seq<char>, segs: Seq<Seq<char>>) -> Seq<char>
    decreases segs.len(),
{
    if segs.len() == 0 {
        path
    } else {
        pushed(pushed_all(path, segs.drop_last()), segs.last())
    }
}

/// The path of a kernel setting: its dotted parts are directories under `/proc/sys`.
pub open spec fn path_of(key: Seq<char>) -> Seq<char> {
    pushed_all("/proc/sys"@, crate::text::split(key, '.'))
}

fn push_segment(path: &str, seg: &str) -> (r: String)
    ensures
        r@ == pushed(path@, seg@),
{
    let p = chars_of(path);
    let s = chars_of(seg);
    if s.len() > 0 && s[0] == '/' {
        seg.to_owned()
    } else if p.len() > 0 && p[p.len() - 1] == '/' {
        cat2(path, seg)
    } else {
        cat3(path, "/", seg)
    }
}

/// The path of a kernel setting.
pub fn key_to_path(key: &str) -> (r: String)
    ensures
        r@ == path_of(key@),
{
    let segs = split_on(key, '.');
    let ghost all = crate::text::texts(segs@);
    let mut path = String::from_str("/proc/sys");
    let mut i: usize = 0;
    while i < segs.len()
        invariant
            i <= segs.len(),
            all == crate::text::texts(segs@),
            path@ == pushed_all("/proc/sys"@, all.take(i as int)),
        decreases segs.len() - i,
    {
        path = push_segment(path.as_str(), segs[i].as_str());
        assert(all.take(i + 1).drop_last() =~= all.take(i as int));
        i = i + 1;
    }
    assert(all.take(segs@.len() as int) =~= all);
    path
}

} // verus!
