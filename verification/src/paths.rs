//! Path-string helpers: final components, the hidden-entry test, and
//! the session name derived from a directory path.
//!
//! Paths are plain `String`s of `/`-separated components; no filesystem
//! call happens here. [`file_name`] follows std's `Path::file_name`:
//! trailing `/`s and final `.` components are skipped, and a final `..`
//! — or nothing left — yields no file name.

use vstd::prelude::*;

verus! {

/// The characters after the last `/` of `s` (the whole of `s` when it
/// holds no `/`, empty when it ends in `/`).
pub open spec fn base_name(s: Seq<char>) -> Seq<char>
    decreases s.len(),
{
    if s.len() == 0 {
        s
    } else if s[s.len() - 1] == '/' {
        Seq::empty()
    } else {
        base_name(s.drop_last()).push(s[s.len() - 1])
    }
}

/// The final component of `s`, as std's `Path::file_name` resolves it:
/// trailing `/`s are ignored, a final `.` component is skipped, and a
/// final `..` — or a path with nothing else left — has no file name.
pub open spec fn file_name(s: Seq<char>) -> Option<Seq<char>>
    decreases s.len(),
{
    if s.len() == 0 {
        Option::None
    } else if s[s.len() - 1] == '/' {
        file_name(s.drop_last())
    } else if base_name(s) == seq!['.'] {
        file_name(s.drop_last())
    } else if base_name(s) == seq!['.', '.'] {
        Option::None
    } else {
        Option::Some(base_name(s))
    }
}

/// Whether a path names a hidden entry: it has a file name and that
/// name starts with `.` (so `.`, `..`, `/` or an empty path never count
/// as hidden).
pub open spec fn is_hidden(s: Seq<char>) -> bool {
    match file_name(s) {
        Option::Some(name) => name.len() > 0 && name[0] == '.',
        Option::None => false,
    }
}

/// `s` with every `.` replaced by `_`.
pub open spec fn dots_to_underscores(s: Seq<char>) -> Seq<char> {
    s.map_values(|c: char| if c == '.' { '_' } else { c })
}

/// When no `/` occurs at or after position `i`, and `i` sits right after a
/// `/` (or at the start), the base name is exactly the suffix from `i`.
pub(crate) proof fn lemma_base_name_suffix(s: Seq<char>, i: int)
    requires
        0 <= i <= s.len(),
        forall|k: int| i <= k < s.len() ==> s[k] != '/',
        i == 0 || s[i - 1] == '/',
    ensures
        base_name(s) == s.subrange(i, s.len() as int),
    decreases s.len(),
{
    if i == s.len() {
        if s.len() == 0 {
            assert(base_name(s) =~= s.subrange(i, s.len() as int));
        } else {
            assert(s[s.len() - 1] == '/');
            assert(base_name(s) =~= s.subrange(i, s.len() as int));
        }
    } else {
        assert(s[s.len() - 1] != '/');
        let t = s.drop_last();
        lemma_base_name_suffix(t, i);
        assert(t.subrange(i, t.len() as int) =~= s.subrange(i, s.len() as int).drop_last());
        assert(base_name(s) =~= s.subrange(i, s.len() as int));
    }
}

/// The position right after the last non-`/` character before `end`:
/// skipping trailing `/`s leaves the file name unchanged.
fn skip_trailing_slashes(path: &str, end: usize) -> (r: usize)
    requires
        end <= path@.len(),
    ensures
        r <= end,
        r == 0 || path@[r - 1] != '/',
        file_name(path@.take(end as int)) == file_name(path@.take(r as int)),
{
    let mut r: usize = end;
    while r > 0 && path.get_char(r - 1) == '/'
        invariant
            r <= end,
            end <= path@.len(),
            file_name(path@.take(end as int)) == file_name(path@.take(r as int)),
        decreases r,
    {
        proof {
            assert(path@.take(r as int)[r - 1] == path@[r - 1]);
            assert(path@.take(r as int).drop_last() =~= path@.take(r - 1));
        }
        r = r - 1;
    }
    r
}

/// Where the component that ends at `end` starts: the position right
/// after the last `/` before `end`, or 0.
fn component_start(path: &str, end: usize) -> (r: usize)
    requires
        end <= path@.len(),
    ensures
        r <= end,
        forall|k: int| r <= k < end ==> path@[k] != '/',
        r == 0 || path@[r - 1] == '/',
{
    let mut r: usize = end;
    while r > 0 && path.get_char(r - 1) != '/'
        invariant
            r <= end,
            end <= path@.len(),
            forall|k: int| r <= k < end ==> path@[k] != '/',
        decreases r,
    {
        r = r - 1;
    }
    r
}

/// The final component of `path` as std's `Path::file_name` sees it, or
/// nothing where the path has no file name (`/`, `..`, the empty path).
pub fn path_file_name(path: &str) -> (r: Option<String>)
    ensures
        r is Some <==> file_name(path@) is Some,
        r is Some ==> r->0@ == file_name(path@)->0,
{
    let n: usize = path.unicode_len();
    let mut end: usize = n;
    proof {
        assert(path@.take(n as int) =~= path@);
    }
    loop
        invariant
            end <= n,
            n == path@.len(),
            file_name(path@) == file_name(path@.take(end as int)),
        decreases end,
    {
        let trimmed: usize = skip_trailing_slashes(path, end);
        if trimmed == 0 {
            return Option::None;
        }
        let start: usize = component_start(path, trimmed);
        let ghost cut = path@.take(trimmed as int);
        let ghost name_seq = path@.subrange(start as int, trimmed as int);
        proof {
            assert(forall|k: int| start <= k < trimmed ==> cut[k] != '/');
            lemma_base_name_suffix(cut, start as int);
            assert(cut.subrange(start as int, trimmed as int) =~= name_seq);
            assert(cut[trimmed - 1] == path@[trimmed - 1]);
            assert(cut[trimmed - 1] != '/');
        }
        if trimmed - start == 1 && path.get_char(start) == '.' {
            proof {
                assert(name_seq =~= seq!['.']);
                assert(cut.drop_last() =~= path@.take(trimmed - 1));
            }
            end = trimmed - 1;
        } else if trimmed - start == 2 && path.get_char(start) == '.' && path.get_char(start + 1)
            == '.' {
            proof {
                assert(name_seq =~= seq!['.', '.']);
                assert(file_name(cut) is None);
            }
            return Option::None;
        } else {
            proof {
                if name_seq == seq!['.'] {
                    assert(path@[start as int] == name_seq[0]);
                    assert(false);
                }
                if name_seq == seq!['.', '.'] {
                    assert(path@[start as int] == name_seq[0]);
                    assert(path@[start + 1] == name_seq[1]);
                    assert(false);
                }
                assert(file_name(cut) == Option::Some(name_seq));
            }
            let name: &str = path.substring_char(start, trimmed);
            return Option::Some(name.to_owned());
        }
    }
}

/// Whether the entry that `path` names is hidden: it has a file name
/// that starts with a `.`.
pub fn is_hidden_path(path: &str) -> (r: bool)
    ensures
        r == is_hidden(path@),
{
    match path_file_name(path) {
        Option::Some(name) => {
            if name.as_str().unicode_len() == 0 {
                false
            } else {
                name.as_str().get_char(0) == '.'
            }
        },
        Option::None => false,
    }
}

/// Relies on std's `String::push`: appends one character at the end.
#[verifier::external_body]
pub(crate) fn push_char(s: &mut String, c: char)
    ensures
        final(s)@ == old(s)@.push(c),
{
    s.push(c);
}

/// The session name for a selected directory: its file name with every
/// `.` replaced by `_` (a `.` is not accepted inside session names).
/// Only a path that has a file name may be asked.
pub fn get_dir_name(dir: &str) -> (r: String)
    requires
        file_name(dir@) is Some,
    ensures
        r@ == dots_to_underscores(file_name(dir@)->0),
{
    let name: String = match path_file_name(dir) {
        Option::Some(n) => n,
        Option::None => String::new(),
    };
    let n: usize = name.as_str().unicode_len();
    let mut out: String = String::new();
    let mut j: usize = 0;
    while j < n
        invariant
            j <= n,
            n == name@.len(),
            name@ == file_name(dir@)->0,
            out@ =~= dots_to_underscores(name@.take(j as int)),
        decreases n - j,
    {
        let c: char = name.as_str().get_char(j);
        if c == '.' {
            push_char(&mut out, '_');
        } else {
            push_char(&mut out, c);
        }
        proof {
            assert(name@.take(j + 1) =~= name@.take(j as int).push(name@[j as int]));
            assert(dots_to_underscores(name@.take(j + 1)) =~= dots_to_underscores(
                name@.take(j as int),
            ).push(if name@[j as int] == '.' { '_' } else { name@[j as int] }));
        }
        j = j + 1;
    }
    proof {
        assert(name@.take(n as int) =~= name@);
    }
    out
}

} // verus!
