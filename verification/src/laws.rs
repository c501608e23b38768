//! What holds of every candidate a walk returns: how far below the
//! root it sits, that every directory between the root and it is also
//! returned, and how the hidden-entry policy shows in the output.

use vstd::prelude::*;

use crate::engine::root_candidates;
use crate::engine::spec_find_dirs;
use crate::config::ResolvedRoot;
use crate::paths::base_name;
use crate::paths::file_name;
use crate::paths::is_hidden;
use crate::paths::lemma_base_name_suffix;
use crate::walker::child_path;
use crate::walker::hidden_name;
use crate::walker::kept;
use crate::walker::spec_walk;
use crate::walker::walk_entry;
use crate::walker::walk_list;
use crate::walker::wf_entries;
use crate::walker::wf_entry;
use crate::walker::wf_name;
use crate::walker::FsEntry;

verus! {

/// The number of `/` characters in `s`.
pub open spec fn slash_count(s: Seq<char>) -> int
    decreases s.len(),
{
    if s.len() == 0 {
        0
    } else {
        slash_count(s.drop_last()) + if s[s.len() - 1] == '/' {
            1int
        } else {
            0int
        }
    }
}

/// How many directory levels below `root` the path `p` sits: the number
/// of `/` separators past `root`'s own length.
pub open spec fn depth_below(root: Seq<char>, p: Seq<char>) -> int {
    slash_count(p.skip(root.len() as int))
}

/// The directory that holds `p`: everything before the `/` that
/// introduces its base name.
pub open spec fn parent_dir(p: Seq<char>) -> Seq<char> {
    p.take(p.len() - base_name(p).len() - 1)
}

/// What a walk at depth `depth` guarantees of each path it returns:
/// it extends `base` across a `/`, sits between one and the remaining
/// depth budget of levels below it, carries a well-formed base name,
/// and, with hidden entries off, is not hidden.
pub open spec fn walked_path_shape(
    show_hidden: bool,
    base: Seq<char>,
    depth: int,
    max_depth: int,
    p: Seq<char>,
) -> bool {
    &&& p.len() > base.len() + 1
    &&& p.take(base.len() as int) == base
    &&& p[base.len() as int] == '/'
    &&& 1 <= depth_below(base, p) <= max_depth - depth + 1
    &&& wf_name(base_name(p))
    &&& !show_hidden ==> !is_hidden(p)
}

proof fn lemma_slash_count_concat(a: Seq<char>, b: Seq<char>)
    ensures
        slash_count(a + b) == slash_count(a) + slash_count(b),
    decreases b.len(),
{
    if b.len() == 0 {
        assert(a + b =~= a);
    } else {
        assert((a + b).drop_last() =~= a + b.drop_last());
        lemma_slash_count_concat(a, b.drop_last());
        assert((a + b)[(a + b).len() - 1] == b[b.len() - 1]);
    }
}

proof fn lemma_slash_count_no_slash(s: Seq<char>)
    requires
        forall|k: int| 0 <= k < s.len() ==> s[k] != '/',
    ensures
        slash_count(s) == 0,
    decreases s.len(),
{
    if s.len() > 0 {
        lemma_slash_count_no_slash(s.drop_last());
    }
}

proof fn lemma_contains_split<A>(a: Seq<A>, b: Seq<A>, x: A)
    requires
        (a + b).contains(x),
    ensures
        a.contains(x) || b.contains(x),
{
    let i = choose|i: int| 0 <= i < (a + b).len() && (a + b)[i] == x;
    if i < a.len() {
        assert(a[i] == x);
    } else {
        assert(b[i - a.len()] == x);
    }
}

proof fn lemma_contains_left<A>(a: Seq<A>, b: Seq<A>, x: A)
    requires
        a.contains(x),
    ensures
        (a + b).contains(x),
{
    let i = choose|i: int| 0 <= i < a.len() && a[i] == x;
    assert((a + b)[i] == x);
}

proof fn lemma_contains_right<A>(a: Seq<A>, b: Seq<A>, x: A)
    requires
        b.contains(x),
    ensures
        (a + b).contains(x),
{
    let i = choose|i: int| 0 <= i < b.len() && b[i] == x;
    assert((a + b)[a.len() + i] == x);
}

/// The immediate child path below `base` has the promised shape, and
/// `base` is its parent.
proof fn lemma_child_shape(
    show_hidden: bool,
    base: Seq<char>,
    name: Seq<char>,
    depth: int,
    max_depth: int,
)
    requires
        wf_name(name),
        depth <= max_depth,
        !show_hidden ==> !hidden_name(name),
    ensures
        walked_path_shape(show_hidden, base, depth, max_depth, child_path(base, name)),
        parent_dir(child_path(base, name)) == base,
        base_name(child_path(base, name)) == name,
{
    let child = child_path(base, name);
    assert(child.take(base.len() as int) =~= base);
    lemma_base_name_suffix(child, base.len() + 1int);
    assert(base_name(child) =~= name);
    assert(child.skip(base.len() as int) =~= seq!['/'] + name);
    lemma_slash_count_concat(seq!['/'], name);
    lemma_slash_count_no_slash(name);
    assert(seq!['/'].drop_last() =~= Seq::<char>::empty());
    assert(slash_count(Seq::<char>::empty()) == 0);
    assert(slash_count(seq!['/']) == 1);
    assert(depth_below(base, child) == 1);
    assert(parent_dir(child) =~= base);
    if !show_hidden {
        assert(child[child.len() - 1] == name[name.len() - 1]);
        assert(child[child.len() - 1] != '/');
        if base_name(child) == seq!['.'] {
            assert(name[0] == '.');
            assert(false);
        }
        if base_name(child) == seq!['.', '.'] {
            assert(name[0] == '.');
            assert(false);
        }
        assert(file_name(child) == Option::Some(name));
        assert(!is_hidden(child));
    }
}

/// A path with the promised shape one level further down also has it
/// relative to the level above.
proof fn lemma_shape_lift(
    show_hidden: bool,
    base: Seq<char>,
    name: Seq<char>,
    depth: int,
    max_depth: int,
    p: Seq<char>,
)
    requires
        wf_name(name),
        depth + 1 <= max_depth,
        walked_path_shape(show_hidden, child_path(base, name), depth + 1, max_depth, p),
    ensures
        walked_path_shape(show_hidden, base, depth, max_depth, p),
{
    let child = child_path(base, name);
    assert(p.take(child.len() as int) == child);
    assert(p.take(base.len() as int) =~= base);
    assert forall|j: int| 0 <= j < child.len() implies p[j] == child[j] by {
        assert(p.take(child.len() as int)[j] == p[j]);
    }
    assert(child[base.len() as int] == '/');
    assert(p.skip(base.len() as int) =~= (seq!['/'] + name) + p.skip(child.len() as int));
    lemma_slash_count_concat(seq!['/'] + name, p.skip(child.len() as int));
    lemma_slash_count_concat(seq!['/'], name);
    lemma_slash_count_no_slash(name);
    assert(seq!['/'].drop_last() =~= Seq::<char>::empty());
    assert(slash_count(Seq::<char>::empty()) == 0);
    assert(slash_count(seq!['/']) == 1);
    assert(depth_below(base, p) == 1 + depth_below(child, p));
}

/// Every path in one entry's contribution has the promised shape, and
/// its parent is `base` itself or also contributed.
proof fn lemma_entry_paths(
    show_hidden: bool,
    base: Seq<char>,
    e: FsEntry,
    depth: int,
    max_depth: int,
)
    requires
        wf_entry(e),
        depth <= max_depth,
    ensures
        forall|p: Seq<char>|
            #[trigger] walk_entry(show_hidden, base, e, depth, max_depth).contains(p) ==> {
                &&& walked_path_shape(show_hidden, base, depth, max_depth, p)
                &&& (parent_dir(p) == base || walk_entry(
                    show_hidden,
                    base,
                    e,
                    depth,
                    max_depth,
                ).contains(parent_dir(p)))
            },
    decreases e, 1int,
{
    let out = walk_entry(show_hidden, base, e, depth, max_depth);
    if kept(e, show_hidden) {
        let child = child_path(base, e.name@);
        lemma_child_shape(show_hidden, base, e.name@, depth, max_depth);
        if depth < max_depth {
            let sub = walk_list(show_hidden, child, e.entries@, depth + 1, max_depth);
            lemma_list_paths(show_hidden, child, e.entries@, depth + 1, max_depth);
            assert forall|p: Seq<char>| #[trigger] out.contains(p) implies {
                &&& walked_path_shape(show_hidden, base, depth, max_depth, p)
                &&& (parent_dir(p) == base || out.contains(parent_dir(p)))
            } by {
                lemma_contains_split(seq![child], sub, p);
                if seq![child].contains(p) {
                    assert(p == child);
                } else {
                    assert(sub.contains(p));
                    lemma_shape_lift(show_hidden, base, e.name@, depth, max_depth, p);
                    if parent_dir(p) == child {
                        assert(out[0] == child);
                        assert(out.contains(child));
                    } else {
                        assert(sub.contains(parent_dir(p)));
                        lemma_contains_right(seq![child], sub, parent_dir(p));
                    }
                }
            }
        } else {
            assert forall|p: Seq<char>| #[trigger] out.contains(p) implies {
                &&& walked_path_shape(show_hidden, base, depth, max_depth, p)
                &&& (parent_dir(p) == base || out.contains(parent_dir(p)))
            } by {
                assert(out =~= seq![child]);
                assert(p == child);
            }
        }
    }
}

/// Every path in a listing's contribution has the promised shape, and
/// its parent is `base` itself or also contributed.
proof fn lemma_list_paths(
    show_hidden: bool,
    base: Seq<char>,
    entries: Seq<FsEntry>,
    depth: int,
    max_depth: int,
)
    requires
        wf_entries(entries),
        depth <= max_depth,
    ensures
        forall|p: Seq<char>|
            #[trigger] walk_list(show_hidden, base, entries, depth, max_depth).contains(p) ==> {
                &&& walked_path_shape(show_hidden, base, depth, max_depth, p)
                &&& (parent_dir(p) == base || walk_list(
                    show_hidden,
                    base,
                    entries,
                    depth,
                    max_depth,
                ).contains(parent_dir(p)))
            },
    decreases entries, 0int,
{
    if entries.len() > 0 {
        let out = walk_list(show_hidden, base, entries, depth, max_depth);
        let head = walk_entry(show_hidden, base, entries[0], depth, max_depth);
        let rest = walk_list(show_hidden, base, entries.drop_first(), depth, max_depth);
        assert(wf_entry(entries[0]));
        assert(forall|i: int|
            0 <= i < entries.drop_first().len() ==> entries.drop_first()[i] == entries[i + 1]);
        lemma_entry_paths(show_hidden, base, entries[0], depth, max_depth);
        lemma_list_paths(show_hidden, base, entries.drop_first(), depth, max_depth);
        assert forall|p: Seq<char>| #[trigger] out.contains(p) implies {
            &&& walked_path_shape(show_hidden, base, depth, max_depth, p)
            &&& (parent_dir(p) == base || out.contains(parent_dir(p)))
        } by {
            lemma_contains_split(head, rest, p);
            if head.contains(p) {
                if parent_dir(p) != base {
                    assert(head.contains(parent_dir(p)));
                    lemma_contains_left(head, rest, parent_dir(p));
                }
            } else {
                assert(rest.contains(p));
                if parent_dir(p) != base {
                    assert(rest.contains(parent_dir(p)));
                    lemma_contains_right(head, rest, parent_dir(p));
                }
            }
        }
    }
}

/// Depth budgets bound the output: over a well-formed snapshot with a
/// positive budget `d`, every returned path extends the root across a
/// `/` and sits between 1 and `d` levels below it.
pub proof fn lemma_walk_depth_bounded(
    show_hidden: bool,
    root: Seq<char>,
    listing: Seq<FsEntry>,
    max_depth: int,
)
    requires
        wf_entries(listing),
        max_depth >= 1,
    ensures
        forall|p: Seq<char>|
            #[trigger] spec_walk(show_hidden, root, listing, max_depth).contains(p) ==> {
                &&& p.len() > root.len() + 1
                &&& p.take(root.len() as int) == root
                &&& p[root.len() as int] == '/'
                &&& 1 <= depth_below(root, p) <= max_depth
            },
{
    lemma_list_paths(show_hidden, root, listing, 1, max_depth);
}

/// Pre-order completeness: over a well-formed snapshot with a positive
/// budget, every directory strictly between the root and a returned
/// path is itself returned — each returned path's parent is the root or
/// another returned path.
pub proof fn lemma_walk_intermediates_present(
    show_hidden: bool,
    root: Seq<char>,
    listing: Seq<FsEntry>,
    max_depth: int,
)
    requires
        wf_entries(listing),
        max_depth >= 1,
    ensures
        forall|p: Seq<char>|
            #[trigger] spec_walk(show_hidden, root, listing, max_depth).contains(p)
                ==> parent_dir(p) == root || spec_walk(
                show_hidden,
                root,
                listing,
                max_depth,
            ).contains(parent_dir(p)),
{
    lemma_list_paths(show_hidden, root, listing, 1, max_depth);
}

/// Hidden-entry filtering, negative half: with hidden entries off, no
/// returned path has a base name starting with `.`.
pub proof fn lemma_walk_hidden_excluded(root: Seq<char>, listing: Seq<FsEntry>, max_depth: int)
    requires
        wf_entries(listing),
        max_depth >= 1,
    ensures
        forall|p: Seq<char>|
            #[trigger] spec_walk(false, root, listing, max_depth).contains(p) ==> !is_hidden(p),
{
    lemma_list_paths(false, root, listing, 1, max_depth);
}

/// Whether `idx` names a chain of kept directory entries: `idx[0]`
/// picks a kept entry of `entries`, `idx[1]` a kept entry of that
/// entry's listing, and so on.
pub open spec fn kept_chain(entries: Seq<FsEntry>, idx: Seq<int>, show_hidden: bool) -> bool
    decreases idx.len(),
{
    idx.len() > 0 ==> {
        &&& 0 <= idx[0] < entries.len()
        &&& kept(entries[idx[0]], show_hidden)
        &&& kept_chain(entries[idx[0]].entries@, idx.drop_first(), show_hidden)
    }
}

/// The path of the entry reached by following `idx` below `base`.
pub open spec fn chain_path(base: Seq<char>, entries: Seq<FsEntry>, idx: Seq<int>) -> Seq<char>
    decreases idx.len(),
{
    if idx.len() == 0 {
        base
    } else {
        chain_path(
            child_path(base, entries[idx[0]].name@),
            entries[idx[0]].entries@,
            idx.drop_first(),
        )
    }
}

/// Whatever one entry contributes, the whole listing contributes too.
proof fn lemma_entry_in_list(
    show_hidden: bool,
    base: Seq<char>,
    entries: Seq<FsEntry>,
    i: int,
    depth: int,
    max_depth: int,
)
    requires
        0 <= i < entries.len(),
    ensures
        forall|p: Seq<char>|
            #[trigger] walk_entry(show_hidden, base, entries[i], depth, max_depth).contains(p)
                ==> walk_list(show_hidden, base, entries, depth, max_depth).contains(p),
    decreases i,
{
    let head = walk_entry(show_hidden, base, entries[0], depth, max_depth);
    let rest = walk_list(show_hidden, base, entries.drop_first(), depth, max_depth);
    if i == 0 {
        assert forall|p: Seq<char>|
            #[trigger] walk_entry(show_hidden, base, entries[i], depth, max_depth).contains(
                p,
            ) implies walk_list(show_hidden, base, entries, depth, max_depth).contains(p) by {
            lemma_contains_left(head, rest, p);
        }
    } else {
        lemma_entry_in_list(show_hidden, base, entries.drop_first(), i - 1, depth, max_depth);
        assert(entries.drop_first()[i - 1] == entries[i]);
        assert forall|p: Seq<char>|
            #[trigger] walk_entry(show_hidden, base, entries[i], depth, max_depth).contains(
                p,
            ) implies walk_list(show_hidden, base, entries, depth, max_depth).contains(p) by {
            lemma_contains_right(head, rest, p);
        }
    }
}

/// Every chain of kept entries within the remaining depth budget leads
/// to a contributed path.
proof fn lemma_list_chain_included(
    show_hidden: bool,
    base: Seq<char>,
    entries: Seq<FsEntry>,
    depth: int,
    max_depth: int,
    idx: Seq<int>,
)
    requires
        kept_chain(entries, idx, show_hidden),
        1 <= idx.len() <= max_depth - depth + 1,
    ensures
        walk_list(show_hidden, base, entries, depth, max_depth).contains(
            chain_path(base, entries, idx),
        ),
    decreases idx.len(),
{
    let i = idx[0];
    let e = entries[i];
    let child = child_path(base, e.name@);
    let own = walk_entry(show_hidden, base, e, depth, max_depth);
    lemma_entry_in_list(show_hidden, base, entries, i, depth, max_depth);
    if idx.len() == 1 {
        assert(idx.drop_first().len() == 0);
        assert(chain_path(child, e.entries@, idx.drop_first()) == child);
        assert(chain_path(base, entries, idx) == child);
        assert(own[0] == child);
        assert(own.contains(child));
    } else {
        let sub = walk_list(show_hidden, child, e.entries@, depth + 1, max_depth);
        lemma_list_chain_included(
            show_hidden,
            child,
            e.entries@,
            depth + 1,
            max_depth,
            idx.drop_first(),
        );
        let p = chain_path(child, e.entries@, idx.drop_first());
        assert(chain_path(base, entries, idx) == p);
        lemma_contains_right(seq![child], sub, p);
        assert(own.contains(p));
    }
}

/// Hidden-entry filtering, positive half, at every depth: a directory
/// reachable from the root through kept entries — with hidden entries
/// on, any chain of directories, hidden or not — is returned whenever
/// the chain fits the depth budget.
pub proof fn lemma_walk_chain_included(
    show_hidden: bool,
    root: Seq<char>,
    listing: Seq<FsEntry>,
    max_depth: int,
    idx: Seq<int>,
)
    requires
        max_depth >= 1,
        kept_chain(listing, idx, show_hidden),
        1 <= idx.len() <= max_depth,
    ensures
        spec_walk(show_hidden, root, listing, max_depth).contains(chain_path(root, listing, idx)),
{
    lemma_list_chain_included(show_hidden, root, listing, 1, max_depth, idx);
}

/// Hidden-entry filtering, positive half, one level: an otherwise
/// eligible entry — a directory, hidden or not — is returned when
/// hidden entries are on; every kept entry's own path appears.
pub proof fn lemma_walk_kept_child_included(
    show_hidden: bool,
    root: Seq<char>,
    listing: Seq<FsEntry>,
    max_depth: int,
    i: int,
)
    requires
        max_depth >= 1,
        0 <= i < listing.len(),
        kept(listing[i], show_hidden),
    ensures
        spec_walk(show_hidden, root, listing, max_depth).contains(
            child_path(root, listing[i].name@),
        ),
{
    let idx = seq![i];
    assert(idx[0] == i);
    assert(idx.drop_first().len() == 0);
    assert(kept_chain(listing[i].entries@, idx.drop_first(), show_hidden));
    assert(kept_chain(listing, idx, show_hidden));
    let child = child_path(root, listing[i].name@);
    assert(chain_path(child, listing[i].entries@, idx.drop_first()) == child);
    assert(chain_path(root, listing, idx) == child);
    lemma_walk_chain_included(show_hidden, root, listing, max_depth, idx);
}

/// A missing root never aborts or pollutes the run: over one missing
/// root followed by one present root, discovery returns exactly the
/// present root's candidates.
pub proof fn lemma_missing_root_skipped(
    roots: Seq<ResolvedRoot>,
    snapshots: Seq<Option<Vec<FsEntry>>>,
)
    requires
        roots.len() == 2,
        snapshots.len() == 2,
        snapshots[0] is None,
    ensures
        spec_find_dirs(roots, snapshots) == root_candidates(roots[1], snapshots[1]),
{
    let rest = roots.drop_first();
    let rest_snaps = snapshots.drop_first();
    assert(rest[0] == roots[1]);
    assert(rest_snaps[0] == snapshots[1]);
    assert(rest.drop_first() =~= Seq::<ResolvedRoot>::empty());
    assert(spec_find_dirs(rest.drop_first(), rest_snaps.drop_first()) =~= Seq::<Seq<char>>::empty());
    assert(spec_find_dirs(rest, rest_snaps) =~~= root_candidates(roots[1], snapshots[1]));
    assert(root_candidates(roots[0], snapshots[0]) =~= Seq::<Seq<char>>::empty());
    assert(spec_find_dirs(roots, snapshots) =~~= root_candidates(roots[1], snapshots[1]));
}

} // verus!
