//! Expansion of home-directory (`~`) and environment-variable (`$VAR`,
//! `${VAR}`) references in configured root paths.
//!
//! The substitution itself is done by the `shellexpand` crate; this
//! module pins down the one fact the rest of the engine builds on: an
//! already-expanded path (no `$` anywhere, no leading `~`) passes
//! through unchanged, which makes expansion idempotent on its own
//! output whenever that output holds no further tokens.

use vstd::prelude::*;

use crate::error::Error;

verus! {

/// Whether `s` holds no substitutable token: no `$` reference anywhere
/// and no leading `~`.
pub open spec fn no_expansion_tokens(s: Seq<char>) -> bool {
    &&& forall|k: int| 0 <= k < s.len() ==> s[k] != '$'
    &&& s.len() == 0 || s[0] != '~'
}

/// Relies on `shellexpand::full`: substitutes `$VAR` and `${VAR}`
/// references from the process environment and a leading `~` from the
/// home directory, and hands an input with no `$` and no leading `~`
/// back unchanged.
#[verifier::external_body]
fn shell_expand(s: &str) -> (r: Result<String, String>)
    ensures
        no_expansion_tokens(s@) ==> r is Ok && r->Ok_0@ == s@,
{
    match shellexpand::full(s) {
        Ok(expanded) => Ok(expanded.to_string()),
        Err(e) => Err(e.to_string()),
    }
}

/// Expands the tokens of one configured root path.
///
/// What the environment holds decides the result, so little can be said
/// of an input with tokens; an input without any is returned unchanged,
/// and a failed lookup surfaces as [`Error::EnvError`].
pub fn expand_path(raw: &str) -> (r: Result<String, Error>)
    ensures
        no_expansion_tokens(raw@) ==> r is Ok && r->Ok_0@ == raw@,
        r is Err ==> r->Err_0 is EnvError,
{
    match shell_expand(raw) {
        Ok(expanded) => Ok(expanded),
        Err(message) => Err(Error::EnvError(message)),
    }
}

} // verus!
