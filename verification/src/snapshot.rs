//! Putting the files of a snapshot in listing order.

use crate::file::{views, File, FileView};
use crate::order::{is_listed_before, listed_before, natural_order, Order};
use vstd::prelude::*;

verus! {

/// `a` is listed before `b`.
pub open spec fn file_before(a: FileView, b: FileView) -> bool {
    listed_before(a.path, b.path)
}

/// `a` may stand directly in front of `b`: the order asks for it, or at
/// least does not ask for the opposite.
pub open spec fn in_order(a: FileView, b: FileView) -> bool {
    file_before(a, b) || !file_before(b, a)
}

/// No two neighbours of `files` stand against the listing order.
pub open spec fn neighbours_in_order(files: Seq<FileView>) -> bool {
    forall|i: int| 0 <= i < files.len() - 1 ==> in_order(#[trigger] files[i], files[i + 1])
}

/// No file of `files` is listed before one that stands in front of it.
pub open spec fn all_in_order(files: Seq<FileView>) -> bool {
    forall|i: int, j: int|
        0 <= i < j < files.len() ==> !file_before(#[trigger] files[j], #[trigger] files[i])
}

/// The listing order is of one mind about the files of `files`: of two
/// files it lists at most one before the other, and where it lists a first
/// file not before a second and the second not before a third, it lists
/// the first not before the third.
pub open spec fn order_is_consistent(files: Seq<FileView>) -> bool {
    &&& forall|a: FileView, b: FileView|
        files.contains(a) && files.contains(b) && #[trigger] file_before(a, b) ==> !file_before(
            b,
            a,
        )
    &&& forall|a: FileView, b: FileView, c: FileView|
        #![trigger file_before(a, b), file_before(b, c)]
        files.contains(a) && files.contains(b) && files.contains(c) && !file_before(a, b)
            && !file_before(b, c) ==> !file_before(a, c)
}

/// Where `x` goes into `sorted`: in front of the trailing run of files that
/// it is listed before.
pub open spec fn insert_point(sorted: Seq<FileView>, x: FileView) -> int
    decreases sorted.len(),
{
    if sorted.len() > 0 && file_before(x, sorted.last()) {
        insert_point(sorted.drop_last(), x)
    } else {
        sorted.len() as int
    }
}

/// `files` in listing order. Files that the order does not tell apart keep
/// the order in which they came.
pub open spec fn sorted(files: Seq<FileView>) -> Seq<FileView>
    decreases files.len(),
{
    if files.len() == 0 {
        Seq::empty()
    } else {
        let front = sorted(files.drop_last());
        front.insert(insert_point(front, files.last()), files.last())
    }
}

/// The insertion point lies between the last file that `x` does not
/// precede and the run of files that it precedes.
pub proof fn lemma_insert_point(sorted: Seq<FileView>, x: FileView)
    ensures
        0 <= insert_point(sorted, x) <= sorted.len(),
        insert_point(sorted, x) > 0 ==> !file_before(x, sorted[insert_point(sorted, x) - 1]),
        forall|k: int|
            insert_point(sorted, x) <= k < sorted.len() ==> file_before(x, #[trigger] sorted[k]),
    decreases sorted.len(),
{
    if sorted.len() > 0 && file_before(x, sorted.last()) {
        lemma_insert_point(sorted.drop_last(), x);
        assert forall|k: int| insert_point(sorted, x) <= k < sorted.len() implies file_before(
            x,
            #[trigger] sorted[k],
        ) by {
            if k < sorted.len() - 1 {
                assert(sorted[k] == sorted.drop_last()[k]);
            }
        }
    }
}

/// Sorting keeps every file, as often as it occurred, and leaves no two
/// neighbours against the order.
pub proof fn lemma_sorted(files: Seq<FileView>)
    ensures
        sorted(files).len() == files.len(),
        sorted(files).to_multiset() == files.to_multiset(),
        neighbours_in_order(sorted(files)),
    decreases files.len(),
{
    broadcast use vstd::seq_lib::group_to_multiset_ensures;

    if files.len() == 0 {
    } else {
        let front = sorted(files.drop_last());
        let x = files.last();
        let p = insert_point(front, x);
        let out = sorted(files);
        lemma_sorted(files.drop_last());
        lemma_insert_point(front, x);
        assert(files == files.drop_last().push(x));
        assert(out.to_multiset() == front.to_multiset().insert(x));
        assert(files.to_multiset() == files.drop_last().to_multiset().insert(x));
        assert forall|i: int| 0 <= i < out.len() - 1 implies in_order(
            #[trigger] out[i],
            out[i + 1],
        ) by {
            if i + 1 < p {
                assert(in_order(front[i], front[i + 1]));
            } else if i + 1 == p {
            } else if i == p {
            } else {
                assert(in_order(front[i - 1], front[i - 1 + 1]));
            }
        }
    }
}

/// Where the listing order is of one mind about the files, sorting puts
/// them in order throughout: no file is listed before one in front of it,
/// so that of two files the later one is never the greater path in natural
/// order.
pub proof fn law_sorted_is_in_order_throughout(files: Seq<FileView>)
    requires
        order_is_consistent(files),
    ensures
        all_in_order(sorted(files)),
        forall|i: int, j: int|
            0 <= i < j < files.len() ==> natural_order(
                (#[trigger] sorted(files)[i]).path,
                (#[trigger] sorted(files)[j]).path,
            ) != Order::Less,
    decreases files.len(),
{
    lemma_sorted(files);
    if files.len() > 0 {
        let rest = files.drop_last();
        let front = sorted(rest);
        let x = files.last();
        let p = insert_point(front, x);
        let out = sorted(files);
        assert(files.contains(x)) by {
            assert(files[files.len() - 1] == x);
        }
        assert forall|a: FileView| rest.contains(a) implies files.contains(a) by {
            let k = choose|k: int| 0 <= k < rest.len() && rest[k] == a;
            assert(files[k] == a);
        }
        assert(order_is_consistent(rest));
        law_sorted_is_in_order_throughout(rest);
        lemma_sorted(rest);
        lemma_insert_point(front, x);
        assert forall|k: int| 0 <= k < front.len() implies files.contains(#[trigger] front[k]) by {
            front.to_multiset_ensures();
            rest.to_multiset_ensures();
            assert(front.contains(front[k]));
            assert(rest.to_multiset().count(front[k]) > 0);
            assert(rest.contains(front[k]));
        }
        assert forall|i: int, j: int| 0 <= i < j < out.len() implies !file_before(
            #[trigger] out[j],
            #[trigger] out[i],
        ) by {
            if j == p {
                if i < p - 1 {
                    assert(!file_before(front[p - 1], front[i]));
                    assert(!file_before(x, front[p - 1]));
                    assert(files.contains(front[p - 1]) && files.contains(front[i]));
                }
            } else if i == p {
                assert(out[j] == front[j - 1]);
                assert(file_before(x, front[j - 1]));
                assert(files.contains(front[j - 1]));
            } else if j < p {
                assert(!file_before(front[j], front[i]));
            } else if i < p {
                assert(out[j] == front[j - 1] && out[i] == front[i]);
                assert(!file_before(front[j - 1], front[i]));
            } else {
                assert(out[j] == front[j - 1] && out[i] == front[i - 1]);
                assert(!file_before(front[j - 1], front[i - 1]));
            }
        }
    }
}

/// Inserts `x` into `out` at its insertion point.
pub fn insert_sorted(out: &mut Vec<File>, x: File)
    ensures
        views(final(out)@) == views(old(out)@).insert(insert_point(views(old(out)@), x@), x@),
{
    let mut at: usize = out.len();
    let ghost before = views(out@);
    assert(before.take(at as int) == before);
    while at > 0 && is_listed_before(x.path.as_str(), out[at - 1].path.as_str())
        invariant
            at <= out.len(),
            out@ == old(out)@,
            before == views(out@),
            insert_point(before, x@) == insert_point(before.take(at as int), x@),
        decreases at,
    {
        assert(before.take(at as int).drop_last() == before.take(at - 1));
        at -= 1;
    }
    out.insert(at, x);
    assert(views(out@) == before.insert(at as int, x@));
}

/// Puts `files` in listing order.
pub fn sort_files(files: Vec<File>) -> (out: Vec<File>)
    ensures
        views(out@) == sorted(views(files@)),
        out@.len() == files@.len(),
        views(out@).to_multiset() == views(files@).to_multiset(),
        neighbours_in_order(views(out@)),
{
    let mut out: Vec<File> = Vec::new();
    let mut i: usize = 0;
    let ghost given = views(files@);
    assert(given.take(0) == Seq::<FileView>::empty());
    assert(views(out@) == Seq::<FileView>::empty());
    while i < files.len()
        invariant
            i <= files.len(),
            given == views(files@),
            views(out@) == sorted(given.take(i as int)),
        decreases files.len() - i,
    {
        assert(given.take(i + 1).drop_last() == given.take(i as int));
        assert(given.take(i + 1).last() == files@[i as int]@);
        insert_sorted(&mut out, files[i].clone());
        i += 1;
    }
    assert(given.take(files.len() as int) == given);
    proof {
        lemma_sorted(given);
    }
    out
}

} // verus!
