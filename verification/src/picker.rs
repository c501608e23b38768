//! The pure half of driving the interactive selector: what is fed to
//! it, how its invocation string splits into a program and arguments,
//! and how its answer is trimmed.
//!
//! Spawning the selector and exchanging bytes with it is I/O and stays
//! with the caller.

use vstd::prelude::*;

use crate::config::Settings;
use crate::paths::push_char;

verus! {

/// The selector invocation used when the configuration names none.
pub fn picker_invocation(settings: &Settings) -> (r: &str)
    ensures
        settings.picker is Some ==> r@ == settings.picker->0@,
        settings.picker is None ==> r@ == "fzf-tmux -p 50%"@,
{
    match &settings.picker {
        Option::Some(p) => p.as_str(),
        Option::None => "fzf-tmux -p 50%",
    }
}

/// The candidate list as the selector reads it: each path followed by a
/// newline.
pub open spec fn picker_feed(paths: Seq<Seq<char>>) -> Seq<char>
    decreases paths.len(),
{
    if paths.len() == 0 {
        Seq::empty()
    } else {
        picker_feed(paths.drop_last()) + paths.last() + seq!['\n']
    }
}

/// Joins the candidate paths, one per line, into the text handed to the
/// selector's standard input.
pub fn picker_input(paths: &Vec<String>) -> (r: String)
    ensures
        r@ == picker_feed(paths.deep_view()),
{
    let mut out: String = String::new();
    let mut i: usize = 0;
    while i < paths.len()
        invariant
            i <= paths@.len(),
            out@ =~= picker_feed(paths.deep_view().take(i as int)),
        decreases paths@.len() - i,
    {
        let ghost prefix = paths.deep_view().take(i as int);
        out.append(paths[i].as_str());
        push_char(&mut out, '\n');
        proof {
            let next = paths.deep_view().take(i + 1);
            assert(next.drop_last() =~= prefix);
            assert(next.last() == paths@[i as int]@);
            assert(out@ =~= picker_feed(next));
        }
        i = i + 1;
    }
    proof {
        assert(paths.deep_view().take(paths@.len() as int) =~= paths.deep_view());
    }
    out
}

/// `s` cut at each space: the words of an invocation string, empty
/// words (from doubled spaces) kept, as the selector command line is
/// split before it is spawned.
pub open spec fn split_spaces(s: Seq<char>) -> Seq<Seq<char>>
    decreases s.len(),
{
    if s.len() == 0 {
        seq![Seq::empty()]
    } else if s[s.len() - 1] == ' ' {
        split_spaces(s.drop_last()).push(Seq::empty())
    } else {
        split_spaces(s.drop_last()).drop_last().push(
            split_spaces(s.drop_last()).last().push(s[s.len() - 1]),
        )
    }
}

/// Splits the selector invocation at spaces: the first word is the
/// program, the rest are its arguments.
pub fn split_invocation(picker: &str) -> (r: Vec<String>)
    ensures
        r.deep_view() == split_spaces(picker@),
        r@.len() >= 1,
{
    let n: usize = picker.unicode_len();
    let mut out: Vec<String> = Vec::new();
    let mut cur: String = String::new();
    let mut i: usize = 0;
    while i < n
        invariant
            i <= n,
            n == picker@.len(),
            out.deep_view().push(cur@) =~= split_spaces(picker@.take(i as int)),
        decreases n - i,
    {
        let ghost prefix = picker@.take(i as int);
        let c: char = picker.get_char(i);
        if c == ' ' {
            out.push(cur);
            cur = String::new();
        } else {
            push_char(&mut cur, c);
        }
        proof {
            assert(picker@.take(i + 1).drop_last() =~= prefix);
            assert(picker@.take(i + 1)[i as int] == picker@[i as int]);
            assert(out.deep_view().push(cur@) =~= split_spaces(picker@.take(i + 1)));
        }
        i = i + 1;
    }
    out.push(cur);
    proof {
        assert(picker@.take(n as int) =~= picker@);
        assert(out.deep_view() =~= split_spaces(picker@));
    }
    out
}

/// The selector's answer without its final character: the chosen path
/// arrives with a trailing newline, which is cut before use.
pub fn strip_last_char(s: &str) -> (r: String)
    requires
        s@.len() > 0,
    ensures
        r@ == s@.drop_last(),
{
    let n: usize = s.unicode_len();
    let r: &str = s.substring_char(0, n - 1);
    proof {
        assert(r@ =~= s@.drop_last());
    }
    r.to_owned()
}

} // verus!
