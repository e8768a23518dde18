//! The rule by which a file is picked, and what it guarantees when no
//! file is to come twice before all have come once.

use crate::file::FileView;
use vstd::prelude::*;

verus! {

/// A file with the path `path` is among the used ones.
pub open spec fn is_used(used: Seq<FileView>, path: Seq<char>) -> bool {
    exists|i: int| 0 <= i < used.len() && (#[trigger] used[i]).path == path
}

/// The files of `files` whose path is not among the used ones, in order.
pub open spec fn unused(files: Seq<FileView>, used: Seq<FileView>) -> Seq<FileView>
    decreases files.len(),
{
    if files.len() == 0 {
        Seq::empty()
    } else if is_used(used, files.last().path) {
        unused(files.drop_last(), used)
    } else {
        unused(files.drop_last(), used).push(files.last())
    }
}

/// The files that the next pick is drawn from: all of them where repeats
/// are allowed or every file has been used, else the unused ones.
pub open spec fn pool(files: Seq<FileView>, used: Seq<FileView>, non_repeat: bool) -> Seq<
    FileView,
> {
    if non_repeat && unused(files, used).len() > 0 {
        unused(files, used)
    } else {
        files
    }
}

/// The used files after `picked` was drawn: unchanged where repeats are
/// allowed; else `picked` is added, to nothing where every file had been
/// used.
pub open spec fn used_after(
    files: Seq<FileView>,
    used: Seq<FileView>,
    non_repeat: bool,
    picked: FileView,
) -> Seq<FileView> {
    if !non_repeat {
        used
    } else if unused(files, used).len() == 0 {
        seq![picked]
    } else {
        used.push(picked)
    }
}

/// No two files of `files` have the same path.
pub open spec fn distinct_paths(files: Seq<FileView>) -> bool {
    forall|i: int, j: int|
        0 <= i < j < files.len() ==> (#[trigger] files[i]).path != (#[trigger] files[j]).path
}

/// The used files after a run of picks without repeats, the pick of
/// each step drawn at the index that `draws` gives for it.
pub open spec fn used_after_draws(
    files: Seq<FileView>,
    used: Seq<FileView>,
    draws: Seq<int>,
) -> Seq<FileView>
    decreases draws.len(),
{
    if draws.len() == 0 {
        used
    } else {
        let before = used_after_draws(files, used, draws.drop_last());
        used_after(files, before, true, pool(files, before, true)[draws.last()])
    }
}

/// The files that such a run picks, in the order of the picks.
pub open spec fn picked_by_draws(
    files: Seq<FileView>,
    used: Seq<FileView>,
    draws: Seq<int>,
) -> Seq<FileView>
    decreases draws.len(),
{
    if draws.len() == 0 {
        Seq::empty()
    } else {
        let before = used_after_draws(files, used, draws.drop_last());
        picked_by_draws(files, used, draws.drop_last()).push(
            pool(files, before, true)[draws.last()],
        )
    }
}

/// Each draw of such a run is an index into the pool of its step.
pub open spec fn draws_in_range(files: Seq<FileView>, used: Seq<FileView>, draws: Seq<int>) -> bool
    decreases draws.len(),
{
    draws.len() == 0 || {
        let before = used_after_draws(files, used, draws.drop_last());
        &&& draws_in_range(files, used, draws.drop_last())
        &&& 0 <= draws.last() < pool(files, before, true).len()
    }
}

/// A round of picks can begin: no file of the snapshot is used, or all are.
pub open spec fn at_round_start(files: Seq<FileView>, used: Seq<FileView>) -> bool {
    unused(files, used) == files || unused(files, used).len() == 0
}

/// Where repeats are allowed, every pick is drawn from the whole snapshot
/// and marks nothing as used.
pub proof fn law_repeats_draw_from_every_file(
    files: Seq<FileView>,
    used: Seq<FileView>,
    picked: FileView,
)
    ensures
        pool(files, used, false) == files,
        used_after(files, used, false, picked) == used,
{
}

/// Every unused file is a file of the snapshot whose path is not used.
pub proof fn lemma_unused_members(files: Seq<FileView>, used: Seq<FileView>)
    ensures
        unused(files, used).len() <= files.len(),
        forall|k: int|
            0 <= k < unused(files, used).len() ==> files.contains(#[trigger] unused(files, used)[k])
                && !is_used(used, unused(files, used)[k].path),
    decreases files.len(),
{
    if files.len() > 0 {
        let front = files.drop_last();
        lemma_unused_members(front, used);
        assert forall|k: int| 0 <= k < unused(files, used).len() implies files.contains(
            #[trigger] unused(files, used)[k],
        ) && !is_used(used, unused(files, used)[k].path) by {
            if k < unused(front, used).len() {
                let j = choose|j: int| 0 <= j < front.len() && front[j] == unused(front, used)[k];
                assert(files[j] == unused(files, used)[k]);
            } else {
                assert(files[files.len() - 1] == unused(files, used)[k]);
            }
        }
    }
}

/// With nothing used, every file is unused.
pub proof fn lemma_unused_of_nothing(files: Seq<FileView>)
    ensures
        unused(files, Seq::empty()) == files,
    decreases files.len(),
{
    if files.len() > 0 {
        lemma_unused_of_nothing(files.drop_last());
        assert(files.drop_last().push(files.last()) == files);
    }
}

/// A used file whose path no file of the snapshot has changes nothing.
pub proof fn lemma_unused_unaffected(files: Seq<FileView>, used: Seq<FileView>, extra: FileView)
    requires
        forall|j: int| 0 <= j < files.len() ==> (#[trigger] files[j]).path != extra.path,
    ensures
        unused(files, used.push(extra)) == unused(files, used),
    decreases files.len(),
{
    if files.len() > 0 {
        let front = files.drop_last();
        let last = files.last();
        assert forall|j: int| 0 <= j < front.len() implies (#[trigger] front[j]).path
            != extra.path by {
            assert(front[j] == files[j]);
        }
        lemma_unused_unaffected(front, used, extra);
        lemma_used_push(used, extra, last.path);
        assert(files[files.len() - 1].path != extra.path);
    }
}

/// A path is used after one more file is if it was before or is that
/// file's path.
pub proof fn lemma_used_push(used: Seq<FileView>, extra: FileView, path: Seq<char>)
    ensures
        is_used(used.push(extra), path) <==> is_used(used, path) || extra.path == path,
{
    let more = used.push(extra);
    if is_used(used, path) {
        let i = choose|i: int| 0 <= i < used.len() && (#[trigger] used[i]).path == path;
        assert(more[i].path == path);
    }
    if extra.path == path {
        assert(more[used.len() as int].path == path);
    }
    if is_used(more, path) {
        let i = choose|i: int| 0 <= i < more.len() && (#[trigger] more[i]).path == path;
        if i < used.len() {
            assert(used[i].path == path);
        }
    }
}

/// Where no two files share a path, using an unused file takes just that
/// file out of the unused ones.
pub proof fn lemma_unused_after_pick(files: Seq<FileView>, used: Seq<FileView>, at: int)
    requires
        distinct_paths(files),
        0 <= at < unused(files, used).len(),
    ensures
        unused(files, used.push(unused(files, used)[at])) == unused(files, used).remove(at),
    decreases files.len(),
{
    let open = unused(files, used);
    let picked = open[at];
    let front = files.drop_last();
    let last = files.last();
    lemma_unused_members(files, used);
    lemma_unused_members(front, used);
    lemma_used_push(used, picked, last.path);
    assert(distinct_paths(front)) by {
        assert forall|i: int, j: int| 0 <= i < j < front.len() implies (#[trigger] front[i]).path
            != (#[trigger] front[j]).path by {
            assert(front[i] == files[i] && front[j] == files[j]);
        }
    }
    assert forall|k: int| 0 <= k < unused(front, used).len() implies (#[trigger] unused(
        front,
        used,
    )[k]).path != last.path by {
        let inner = unused(front, used)[k];
        assert(front.contains(inner));
        let j = choose|j: int| 0 <= j < front.len() && front[j] == inner;
        assert(files[j] == inner);
        assert(files[files.len() - 1] == last);
    }
    if picked.path == last.path {
        assert(!is_used(used, last.path));
        assert(open == unused(front, used).push(last));
        if at < unused(front, used).len() {
            assert(unused(front, used)[at].path != last.path);
        }
        assert(at == unused(front, used).len());
        assert forall|j: int| 0 <= j < front.len() implies (#[trigger] front[j]).path
            != picked.path by {
            assert(front[j] == files[j]);
            assert(files[files.len() - 1] == last);
        }
        lemma_unused_unaffected(front, used, picked);
        assert(open.remove(at) == unused(front, used));
    } else {
        if is_used(used, last.path) {
            lemma_unused_after_pick(front, used, at);
        } else {
            assert(open == unused(front, used).push(last));
            if at == unused(front, used).len() {
                assert(open[at] == last);
            }
            lemma_unused_after_pick(front, used, at);
            assert(open.remove(at) == unused(front, used).remove(at).push(last));
        }
    }
}

/// The first pick of a round takes one file out of the whole snapshot.
pub proof fn lemma_first_pick(files: Seq<FileView>, used: Seq<FileView>, at: int)
    requires
        distinct_paths(files),
        at_round_start(files, used),
        0 <= at < files.len(),
    ensures
        pool(files, used, true) == files,
        unused(files, used_after(files, used, true, files[at])) == files.remove(at),
{
    if unused(files, used).len() == 0 {
        lemma_unused_of_nothing(files);
        lemma_unused_after_pick(files, Seq::empty(), at);
        assert(Seq::<FileView>::empty().push(files[at]) == seq![files[at]]);
    } else {
        lemma_unused_after_pick(files, used, at);
    }
}

/// During a round of picks without repeats, the files picked so far and
/// the files still unused make up the snapshot.
pub proof fn lemma_round(files: Seq<FileView>, used: Seq<FileView>, draws: Seq<int>)
    requires
        distinct_paths(files),
        at_round_start(files, used),
        0 < draws.len() <= files.len(),
        draws_in_range(files, used, draws),
    ensures
        unused(files, used_after_draws(files, used, draws)).len() == files.len() - draws.len(),
        picked_by_draws(files, used, draws).to_multiset().add(
            unused(files, used_after_draws(files, used, draws)).to_multiset(),
        ) == files.to_multiset(),
    decreases draws.len(),
{
    broadcast use vstd::seq_lib::group_to_multiset_ensures;

    let earlier = draws.drop_last();
    let at = draws.last();
    let before = used_after_draws(files, used, earlier);
    let open = pool(files, before, true);
    let picked = picked_by_draws(files, used, earlier);
    if draws.len() == 1 {
        assert(earlier.len() == 0);
        lemma_first_pick(files, used, at);
        assert(picked_by_draws(files, used, draws) == seq![files[at]]);
        assert(seq![files[at]] == Seq::<FileView>::empty().push(files[at]));
        assert(files.remove(at).to_multiset() == files.to_multiset().remove(files[at]));
        assert(seq![files[at]].to_multiset().add(files.remove(at).to_multiset())
            == files.to_multiset());
    } else {
        lemma_round(files, used, earlier);
        let left = unused(files, before);
        assert(left.len() > 0);
        assert(open == left);
        lemma_unused_after_pick(files, before, at);
        assert(used_after_draws(files, used, draws) == before.push(left[at]));
        assert(left.remove(at).to_multiset() == left.to_multiset().remove(left[at]));
        assert(picked.push(left[at]).to_multiset().add(left.remove(at).to_multiset())
            == picked.to_multiset().add(left.to_multiset()));
    }
}

/// In a snapshot of files with distinct paths, a round of as many picks
/// without repeats as there are files picks every file exactly once, in
/// whatever order the draws give; after it any file can be picked again.
pub proof fn law_round_picks_every_file_once(
    files: Seq<FileView>,
    used: Seq<FileView>,
    draws: Seq<int>,
)
    requires
        distinct_paths(files),
        at_round_start(files, used),
        0 < files.len() == draws.len(),
        draws_in_range(files, used, draws),
    ensures
        picked_by_draws(files, used, draws).to_multiset() == files.to_multiset(),
        distinct_paths(picked_by_draws(files, used, draws)),
        pool(files, used_after_draws(files, used, draws), true) == files,
{
    broadcast use vstd::seq_lib::group_to_multiset_ensures;

    let picked = picked_by_draws(files, used, draws);
    let left = unused(files, used_after_draws(files, used, draws));
    lemma_round(files, used, draws);
    assert(left == Seq::<FileView>::empty());
    assert(picked.to_multiset().add(left.to_multiset()) == picked.to_multiset());
    assert(files.no_duplicates());
    files.lemma_multiset_has_no_duplicates();
    picked.lemma_multiset_has_no_duplicates_conv();
    assert forall|i: int, j: int| 0 <= i < j < picked.len() implies (#[trigger] picked[i]).path != (
    #[trigger] picked[j]).path by {
        assert(picked.contains(picked[i]) && picked.contains(picked[j]));
        picked.to_multiset_ensures();
        files.to_multiset_ensures();
        assert(files.to_multiset().count(picked[i]) > 0);
        assert(files.to_multiset().count(picked[j]) > 0);
        assert(files.contains(picked[i]) && files.contains(picked[j]));
        let a = choose|a: int| 0 <= a < files.len() && files[a] == picked[i];
        let b = choose|b: int| 0 <= b < files.len() && files[b] == picked[j];
        if picked[i].path == picked[j].path {
            assert(a == b);
        }
    }
}

} // verus!
