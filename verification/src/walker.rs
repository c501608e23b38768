//! The bounded-depth, hidden-entry-aware directory walker.
//!
//! The walker is pure: it runs over an in-memory snapshot of the
//! directory listings below a root, taken by the caller. A directory
//! whose listing failed (permissions, a race with deletion) appears in
//! the snapshot with no entries, so it degrades to an empty
//! contribution instead of aborting the run.

use vstd::prelude::*;

use crate::paths::push_char;

verus! {

/// One entry of a directory listing: its base name, whether it is a
/// directory, and — where it is one and was listed — its own listing.
#[derive(Debug)]
pub struct FsEntry {
    pub name: String,
    pub is_dir: bool,
    pub entries: Vec<FsEntry>,
}

/// Whether an entry name marks a hidden entry.
pub open spec fn hidden_name(name: Seq<char>) -> bool {
    name.len() > 0 && name[0] == '.'
}

/// A well-formed entry name: nonempty and free of `/`.
pub open spec fn wf_name(name: Seq<char>) -> bool {
    name.len() > 0 && forall|k: int| 0 <= k < name.len() ==> name[k] != '/'
}

/// A well-formed snapshot entry: its own name is a well-formed entry
/// name, and so is every name below it. A snapshot taken from a real
/// directory listing is always well-formed.
pub open spec fn wf_entry(e: FsEntry) -> bool
    decreases e, 1int,
{
    &&& wf_name(e.name@)
    &&& wf_entries(e.entries@)
}

/// A well-formed listing: every entry in it is well-formed.
pub open spec fn wf_entries(entries: Seq<FsEntry>) -> bool
    decreases entries, 0int,
{
    forall|i: int| 0 <= i < entries.len() ==> wf_entry(#[trigger] entries[i])
}

/// Whether the walk keeps an entry: only directories, and hidden ones
/// only when asked to.
pub open spec fn kept(e: FsEntry, show_hidden: bool) -> bool {
    e.is_dir && (show_hidden || !hidden_name(e.name@))
}

/// The path of an entry below `base`.
pub open spec fn child_path(base: Seq<char>, name: Seq<char>) -> Seq<char> {
    base + seq!['/'] + name
}

/// The paths contributed by one entry at depth `depth`: nothing when the
/// entry is dropped; else its own path, followed by its subtree's paths
/// while the depth budget is not exhausted.
pub open spec fn walk_entry(
    show_hidden: bool,
    base: Seq<char>,
    e: FsEntry,
    depth: int,
    max_depth: int,
) -> Seq<Seq<char>>
    decreases e, 1int,
{
    if !kept(e, show_hidden) {
        Seq::empty()
    } else if depth < max_depth {
        seq![child_path(base, e.name@)] + walk_list(
            show_hidden,
            child_path(base, e.name@),
            e.entries@,
            depth + 1,
            max_depth,
        )
    } else {
        seq![child_path(base, e.name@)]
    }
}

/// The paths contributed by a directory listing, each kept entry
/// immediately followed by its fully expanded subtree.
pub open spec fn walk_list(
    show_hidden: bool,
    base: Seq<char>,
    entries: Seq<FsEntry>,
    depth: int,
    max_depth: int,
) -> Seq<Seq<char>>
    decreases entries, 0int,
{
    if entries.len() == 0 {
        Seq::empty()
    } else {
        walk_entry(show_hidden, base, entries[0], depth, max_depth) + walk_list(
            show_hidden,
            base,
            entries.drop_first(),
            depth,
            max_depth,
        )
    }
}

/// What a whole walk of one root returns: the root itself when the depth
/// budget is zero, else the walk of its listing starting at depth 1.
pub open spec fn spec_walk(
    show_hidden: bool,
    root: Seq<char>,
    listing: Seq<FsEntry>,
    max_depth: int,
) -> Seq<Seq<char>> {
    if max_depth == 0 {
        seq![root]
    } else {
        walk_list(show_hidden, root, listing, 1, max_depth)
    }
}

/// Extending a listing by one entry appends that entry's contribution.
pub proof fn lemma_walk_list_push(
    show_hidden: bool,
    base: Seq<char>,
    entries: Seq<FsEntry>,
    e: FsEntry,
    depth: int,
    max_depth: int,
)
    ensures
        walk_list(show_hidden, base, entries.push(e), depth, max_depth) == walk_list(
            show_hidden,
            base,
            entries,
            depth,
            max_depth,
        ) + walk_entry(show_hidden, base, e, depth, max_depth),
    decreases entries.len(),
{
    assert(entries.push(e)[entries.len() as int] == e);
    if entries.len() == 0 {
        assert(entries.push(e).drop_first() =~= Seq::<FsEntry>::empty());
        assert(walk_list(show_hidden, base, entries.push(e).drop_first(), depth, max_depth)
            =~= Seq::<Seq<char>>::empty());
        assert(walk_list(show_hidden, base, entries, depth, max_depth)
            =~= Seq::<Seq<char>>::empty());
        assert(walk_list(show_hidden, base, entries.push(e), depth, max_depth) =~= walk_list(
            show_hidden,
            base,
            entries,
            depth,
            max_depth,
        ) + walk_entry(show_hidden, base, e, depth, max_depth));
    } else {
        assert(entries.push(e).drop_first() =~= entries.drop_first().push(e));
        lemma_walk_list_push(show_hidden, base, entries.drop_first(), e, depth, max_depth);
        assert(walk_list(show_hidden, base, entries.push(e), depth, max_depth) =~= walk_list(
            show_hidden,
            base,
            entries,
            depth,
            max_depth,
        ) + walk_entry(show_hidden, base, e, depth, max_depth));
    }
}

/// Whether an entry name is hidden.
pub(crate) fn name_is_hidden(name: &String) -> (r: bool)
    ensures
        r == hidden_name(name@),
{
    if name.as_str().unicode_len() == 0 {
        false
    } else {
        name.as_str().get_char(0) == '.'
    }
}

/// The path of an entry named `name` below `base`.
pub(crate) fn join_child(base: &str, name: &String) -> (r: String)
    ensures
        r@ == child_path(base@, name@),
{
    let mut out: String = base.to_owned();
    push_char(&mut out, '/');
    out.append(name.as_str());
    proof {
        assert(out@ =~= child_path(base@, name@));
    }
    out
}

/// Walks one listing at depth `depth`, depth-first: each kept entry's
/// path, immediately followed by its subtree while `depth < max_depth`.
fn walk_below(
    show_hidden: bool,
    base: &str,
    entries: &Vec<FsEntry>,
    depth: u8,
    max_depth: u8,
) -> (r: Vec<String>)
    ensures
        r.deep_view() == walk_list(show_hidden, base@, entries@, depth as int, max_depth as int),
    decreases entries@,
{
    let mut out: Vec<String> = Vec::new();
    let mut i: usize = 0;
    while i < entries.len()
        invariant
            i <= entries@.len(),
            out.deep_view() =~= walk_list(
                show_hidden,
                base@,
                entries@.take(i as int),
                depth as int,
                max_depth as int,
            ),
        decreases entries@.len() - i,
    {
        let ghost prefix = entries@.take(i as int);
        let e = &entries[i];
        if e.is_dir && (show_hidden || !name_is_hidden(&e.name)) {
            let child: String = join_child(base, &e.name);
            if depth < max_depth {
                proof {
                    assert(decreases_to!(entries@ => entries@[i as int]));
                    assert(decreases_to!(entries@[i as int] => entries@[i as int].entries@));
                }
                let mut sub: Vec<String> = walk_below(
                    show_hidden,
                    child.as_str(),
                    &e.entries,
                    depth + 1,
                    max_depth,
                );
                out.push(child);
                out.append(&mut sub);
            } else {
                out.push(child);
            }
        }
        proof {
            assert(entries@.take(i + 1) =~= prefix.push(entries@[i as int]));
            lemma_walk_list_push(
                show_hidden,
                base@,
                prefix,
                entries@[i as int],
                depth as int,
                max_depth as int,
            );
        }
        i = i + 1;
    }
    proof {
        assert(entries@.take(entries@.len() as int) =~= entries@);
    }
    out
}

/// Walks one root over its snapshot: with a zero depth budget the root
/// itself is the only candidate; else every kept directory entry within
/// `max_depth` levels below the root, in depth-first pre-order.
pub fn walk(root: &str, listing: &Vec<FsEntry>, max_depth: u8, show_hidden: bool) -> (r: Vec<
    String,
>)
    ensures
        r.deep_view() == spec_walk(show_hidden, root@, listing@, max_depth as int),
        max_depth == 0 ==> r.deep_view() =~= seq![root@],
{
    if max_depth == 0 {
        let mut out: Vec<String> = Vec::new();
        out.push(root.to_owned());
        proof {
            assert(out.deep_view() =~= seq![root@]);
        }
        out
    } else {
        walk_below(show_hidden, root, listing, 1, max_depth)
    }
}

} // verus!
