//! The discovery engine: turns the resolved roots and their snapshots
//! into one flat candidate list.
//!
//! Every per-root contribution is independent, which is what makes the
//! data-parallel walker safe: each subtree computation returns its own
//! list and the lists are only combined afterwards. Both walkers meet
//! the same specification, so their outputs are provably equal.

use vstd::prelude::*;

use rayon::iter::IntoParallelRefIterator;
use rayon::iter::ParallelIterator;

use crate::config::Config;
use crate::config::ResolvedRoot;
use crate::walker::walk_entry;
use crate::walker::walk_list;
use crate::walker::spec_walk;
use crate::walker::FsEntry;
use crate::walker::join_child;
use crate::walker::name_is_hidden;

verus! {

/// What one root contributes: nothing when it was missing on disk, else
/// a whole walk of its snapshot under its own depth and visibility.
pub open spec fn root_candidates(root: ResolvedRoot, snapshot: Option<Vec<FsEntry>>) -> Seq<
    Seq<char>,
> {
    match snapshot {
        Option::None => Seq::empty(),
        Option::Some(listing) => spec_walk(
            root.show_hidden,
            root.path@,
            listing@,
            root.depth as int,
        ),
    }
}

/// The merged candidate list: each root's contribution, in root order.
pub open spec fn spec_find_dirs(
    roots: Seq<ResolvedRoot>,
    snapshots: Seq<Option<Vec<FsEntry>>>,
) -> Seq<Seq<char>>
    decreases roots.len(),
{
    if roots.len() == 0 || snapshots.len() == 0 {
        Seq::empty()
    } else {
        root_candidates(roots[0], snapshots[0]) + spec_find_dirs(
            roots.drop_first(),
            snapshots.drop_first(),
        )
    }
}

/// Extending the root list by one root appends that root's contribution.
proof fn lemma_find_dirs_push(
    roots: Seq<ResolvedRoot>,
    snapshots: Seq<Option<Vec<FsEntry>>>,
    root: ResolvedRoot,
    snapshot: Option<Vec<FsEntry>>,
)
    requires
        roots.len() == snapshots.len(),
    ensures
        spec_find_dirs(roots.push(root), snapshots.push(snapshot)) == spec_find_dirs(
            roots,
            snapshots,
        ) + root_candidates(root, snapshot),
    decreases roots.len(),
{
    assert(roots.push(root)[roots.len() as int] == root);
    assert(snapshots.push(snapshot)[snapshots.len() as int] == snapshot);
    if roots.len() == 0 {
        assert(roots.push(root).drop_first() =~= Seq::<ResolvedRoot>::empty());
        assert(snapshots.push(snapshot).drop_first() =~= Seq::<Option<Vec<FsEntry>>>::empty());
        assert(spec_find_dirs(
            Seq::<ResolvedRoot>::empty(),
            Seq::<Option<Vec<FsEntry>>>::empty(),
        ) =~= Seq::<Seq<char>>::empty());
        assert(spec_find_dirs(roots, snapshots) =~= Seq::<Seq<char>>::empty());
        assert(spec_find_dirs(roots.push(root), snapshots.push(snapshot)) =~= spec_find_dirs(
            roots,
            snapshots,
        ) + root_candidates(root, snapshot));
    } else {
        assert(roots.push(root).drop_first() =~= roots.drop_first().push(root));
        assert(snapshots.push(snapshot).drop_first() =~= snapshots.drop_first().push(snapshot));
        lemma_find_dirs_push(roots.drop_first(), snapshots.drop_first(), root, snapshot);
        assert(spec_find_dirs(roots.push(root), snapshots.push(snapshot)) =~= spec_find_dirs(
            roots,
            snapshots,
        ) + root_candidates(root, snapshot));
    }
}

/// One entry's contribution after another's: concatenating the per-entry
/// contributions, in entry order, gives the walk of the whole listing.
proof fn lemma_contributions_flatten(
    show_hidden: bool,
    base: Seq<char>,
    entries: Seq<FsEntry>,
    depth: int,
    max_depth: int,
)
    ensures
        Seq::new(
            entries.len(),
            |i: int| walk_entry(show_hidden, base, entries[i], depth, max_depth),
        ).flatten() == walk_list(show_hidden, base, entries, depth, max_depth),
    decreases entries.len(),
{
    let contributions = Seq::new(
        entries.len(),
        |i: int| walk_entry(show_hidden, base, entries[i], depth, max_depth),
    );
    if entries.len() == 0 {
        assert(contributions.flatten() =~~= walk_list(show_hidden, base, entries, depth, max_depth));
    } else {
        let rest = entries.drop_first();
        lemma_contributions_flatten(show_hidden, base, rest, depth, max_depth);
        assert(contributions.drop_first() =~~= Seq::new(
            rest.len(),
            |i: int| walk_entry(show_hidden, base, rest[i], depth, max_depth),
        ));
        assert(contributions.flatten() =~~= walk_list(
            show_hidden,
            base,
            entries,
            depth,
            max_depth,
        ));
    }
}

/// Concatenates the given lists in order.
fn flatten_lists(lists: Vec<Vec<String>>) -> (r: Vec<String>)
    ensures
        r.deep_view() == lists.deep_view().flatten(),
{
    let ghost whole = lists.deep_view();
    let mut rest: Vec<Vec<String>> = lists;
    let mut out: Vec<String> = Vec::new();
    proof {
        assert(out.deep_view() + rest.deep_view().flatten() =~~= whole.flatten());
    }
    while rest.len() > 0
        invariant
            out.deep_view() + rest.deep_view().flatten() =~~= whole.flatten(),
        decreases rest@.len(),
    {
        let ghost rest_before = rest.deep_view();
        let tail: Vec<Vec<String>> = rest.split_off(1);
        let head_opt: Option<Vec<String>> = rest.pop();
        let mut head: Vec<String> = match head_opt {
            Option::Some(h) => h,
            Option::None => Vec::new(),
        };
        proof {
            assert(head.deep_view() == rest_before[0]);
            assert(tail.deep_view() =~~= rest_before.drop_first());
            assert(rest_before.flatten() == rest_before[0] + rest_before.drop_first().flatten());
        }
        out.append(&mut head);
        rest = tail;
        proof {
            assert(out.deep_view() + rest.deep_view().flatten() =~~= whole.flatten());
        }
    }
    proof {
        assert(rest.deep_view() =~~= Seq::<Seq<Seq<char>>>::empty());
        assert(rest.deep_view().flatten() =~~= Seq::<Seq<char>>::empty());
        assert(out.deep_view() =~~= whole.flatten());
    }
    out
}

/// Relies on rayon's `par_iter().map(..).collect()` over a `Vec`: the
/// parallel iterator is indexed, so the collected `Vec` holds exactly
/// one result per entry, in entry order; the closure only calls this
/// crate's verified entry walker.
#[verifier::external_body]
fn par_map_entries(
    show_hidden: bool,
    base: &str,
    entries: &Vec<FsEntry>,
    depth: u8,
    max_depth: u8,
) -> (r: Vec<Vec<String>>)
    ensures
        r@.len() == entries@.len(),
        forall|i: int|
            0 <= i < entries@.len() ==> (#[trigger] r@[i]).deep_view() == walk_entry(
                show_hidden,
                base@,
                entries@[i],
                depth as int,
                max_depth as int,
            ),
{
    entries.par_iter().map(|e| walk_entry_parallel(show_hidden, base, e, depth, max_depth)).collect()
}

/// One entry's contribution, with the fan-out into its subtree running
/// on the worker pool.
fn walk_entry_parallel(
    show_hidden: bool,
    base: &str,
    e: &FsEntry,
    depth: u8,
    max_depth: u8,
) -> (r: Vec<String>)
    ensures
        r.deep_view() == walk_entry(show_hidden, base@, *e, depth as int, max_depth as int),
{
    let mut out: Vec<String> = Vec::new();
    if e.is_dir && (show_hidden || !name_is_hidden(&e.name)) {
        let child: String = join_child(base, &e.name);
        if depth < max_depth {
            let lists: Vec<Vec<String>> = par_map_entries(
                show_hidden,
                child.as_str(),
                &e.entries,
                depth + 1,
                max_depth,
            );
            proof {
                assert(lists.deep_view() =~~= Seq::new(
                    e.entries@.len(),
                    |i: int| walk_entry(
                        show_hidden,
                        child@,
                        e.entries@[i],
                        depth + 1,
                        max_depth as int,
                    ),
                ));
                lemma_contributions_flatten(
                    show_hidden,
                    child@,
                    e.entries@,
                    depth + 1,
                    max_depth as int,
                );
            }
            let mut sub: Vec<String> = flatten_lists(lists);
            out.push(child);
            out.append(&mut sub);
            proof {
                assert(out.deep_view() =~~= walk_entry(
                    show_hidden,
                    base@,
                    *e,
                    depth as int,
                    max_depth as int,
                ));
            }
        } else {
            out.push(child);
            proof {
                assert(out.deep_view() =~~= walk_entry(
                    show_hidden,
                    base@,
                    *e,
                    depth as int,
                    max_depth as int,
                ));
            }
        }
    } else {
        proof {
            assert(out.deep_view() =~~= walk_entry(
                show_hidden,
                base@,
                *e,
                depth as int,
                max_depth as int,
            ));
        }
    }
    out
}

impl Config {
    /// Walks one directory level and, in parallel, every kept entry's
    /// subtree; returns the same candidate list as the sequential
    /// walker. A zero depth budget yields the path itself, unmodified.
    pub fn find_dir_recursive(
        show_hidden: bool,
        path: &str,
        listing: &Vec<FsEntry>,
        depth: u8,
        max_depth: u8,
    ) -> (r: Vec<String>)
        ensures
            max_depth == 0 ==> r.deep_view() == seq![path@],
            max_depth != 0 ==> r.deep_view() == walk_list(
                show_hidden,
                path@,
                listing@,
                depth as int,
                max_depth as int,
            ),
    {
        if max_depth == 0 {
            let mut out: Vec<String> = Vec::new();
            out.push(path.to_owned());
            proof {
                assert(out.deep_view() =~= seq![path@]);
            }
            out
        } else {
            let lists: Vec<Vec<String>> = par_map_entries(
                show_hidden,
                path,
                listing,
                depth,
                max_depth,
            );
            proof {
                assert(lists.deep_view() =~~= Seq::new(
                    listing@.len(),
                    |i: int| walk_entry(
                        show_hidden,
                        path@,
                        listing@[i],
                        depth as int,
                        max_depth as int,
                    ),
                ));
                lemma_contributions_flatten(
                    show_hidden,
                    path@,
                    listing@,
                    depth as int,
                    max_depth as int,
                );
            }
            flatten_lists(lists)
        }
    }

    /// Merges every root's contribution, in root order: a root whose
    /// snapshot is absent (it did not exist on disk) contributes zero
    /// candidates and never disturbs its siblings.
    pub fn find_dirs(roots: &Vec<ResolvedRoot>, snapshots: &Vec<Option<Vec<FsEntry>>>) -> (r: Vec<
        String,
    >)
        requires
            roots@.len() == snapshots@.len(),
        ensures
            r.deep_view() == spec_find_dirs(roots@, snapshots@),
    {
        let mut out: Vec<String> = Vec::new();
        let mut i: usize = 0;
        while i < roots.len()
            invariant
                i <= roots@.len(),
                roots@.len() == snapshots@.len(),
                out.deep_view() =~~= spec_find_dirs(
                    roots@.take(i as int),
                    snapshots@.take(i as int),
                ),
            decreases roots@.len() - i,
        {
            let ghost roots_prefix = roots@.take(i as int);
            let ghost snaps_prefix = snapshots@.take(i as int);
            match &snapshots[i] {
                Option::None => {},
                Option::Some(listing) => {
                    let root = &roots[i];
                    let mut candidates: Vec<String> = Self::find_dir_recursive(
                        root.show_hidden,
                        root.path.as_str(),
                        listing,
                        1,
                        root.depth,
                    );
                    out.append(&mut candidates);
                },
            }
            proof {
                assert(roots@.take(i + 1) =~= roots_prefix.push(roots@[i as int]));
                assert(snapshots@.take(i + 1) =~= snaps_prefix.push(snapshots@[i as int]));
                lemma_find_dirs_push(
                    roots_prefix,
                    snaps_prefix,
                    roots@[i as int],
                    snapshots@[i as int],
                );
            }
            i = i + 1;
        }
        proof {
            assert(roots@.take(roots@.len() as int) =~= roots@);
            assert(snapshots@.take(snapshots@.len() as int) =~= snapshots@);
        }
        out
    }
}

} // verus!
