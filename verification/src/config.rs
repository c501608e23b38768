//! The search-path data model: configured roots, process-wide defaults,
//! and the resolution of each root's effective depth and visibility.

use vstd::prelude::*;

use crate::error::Error;
use crate::expand::expand_path;
use crate::expand::no_expansion_tokens;

verus! {

/// Process-wide defaults: the depth that applies when a root omits its
/// own, and the selector invocation consumed outside the engine.
#[derive(Debug)]
pub struct Settings {
    pub default_depth: u8,
    pub picker: Option<String>,
}

/// One configured discovery root: either a bare path string, or a path
/// with explicit depth and visibility overrides.
#[derive(Debug)]
pub enum SearchPath {
    Simple(String),
    Complex { path: String, depth: Option<u8>, show_hidden: Option<bool> },
}

impl SearchPath {
    /// The configured path string, before or after expansion.
    pub open spec fn spec_path(&self) -> Seq<char> {
        match self {
            SearchPath::Simple(s) => s@,
            SearchPath::Complex { path, .. } => path@,
        }
    }

    /// The effective depth: the explicit override where one is given,
    /// else `default`; a bare root always takes `default`.
    pub open spec fn spec_depth(&self, default: u8) -> u8 {
        match self {
            SearchPath::Simple(_) => default,
            SearchPath::Complex { depth: Some(d), .. } => *d,
            SearchPath::Complex { depth: None, .. } => default,
        }
    }

    /// The raw depth override as configured, before any default applies;
    /// a bare root carries none.
    pub open spec fn spec_depth_override(&self) -> Option<u8> {
        match self {
            SearchPath::Simple(_) => Option::None,
            SearchPath::Complex { depth, .. } => *depth,
        }
    }

    /// The raw visibility override as configured, before any default
    /// applies; a bare root carries none.
    pub open spec fn spec_show_hidden_override(&self) -> Option<bool> {
        match self {
            SearchPath::Simple(_) => Option::None,
            SearchPath::Complex { show_hidden, .. } => *show_hidden,
        }
    }

    /// The effective visibility: the explicit override where one is
    /// given, else `false`; a bare root never shows hidden entries.
    pub open spec fn spec_show_hidden(&self) -> bool {
        match self {
            SearchPath::Simple(_) => false,
            SearchPath::Complex { show_hidden: Some(h), .. } => *h,
            SearchPath::Complex { show_hidden: None, .. } => false,
        }
    }

    /// The configured path string.
    pub fn path(&self) -> (r: &str)
        ensures
            r@ == self.spec_path(),
    {
        match self {
            SearchPath::Simple(s) => s.as_str(),
            SearchPath::Complex { path, .. } => path.as_str(),
        }
    }

    /// The effective depth of this root under the given default; a bare
    /// root always resolves to the default.
    pub fn depth(&self, default: u8) -> (d: u8)
        ensures
            d == self.spec_depth(default),
            self is Simple ==> d == default,
    {
        match self {
            SearchPath::Simple(_) => default,
            SearchPath::Complex { depth, .. } => match depth {
                Some(d) => *d,
                None => default,
            },
        }
    }

    /// The effective visibility of this root; a bare root never shows
    /// hidden entries.
    pub fn show_hidden(&self) -> (h: bool)
        ensures
            h == self.spec_show_hidden(),
            self is Simple ==> h == false,
    {
        match self {
            SearchPath::Simple(_) => false,
            SearchPath::Complex { show_hidden, .. } => match show_hidden {
                Some(h) => *h,
                None => false,
            },
        }
    }

    /// Expands the path field and returns a new value of the same
    /// variant; depth and visibility overrides are carried over
    /// unchanged, and a path with no tokens left comes back equal, which
    /// makes expansion idempotent on already-expanded roots.
    pub fn expand(&self) -> (r: Result<Self, Error>)
        ensures
            no_expansion_tokens(self.spec_path()) ==> r is Ok,
            r is Ok ==> (r->Ok_0 is Simple <==> self is Simple),
            r is Ok ==> r->Ok_0.spec_depth_override() == self.spec_depth_override(),
            r is Ok ==> r->Ok_0.spec_show_hidden_override() == self.spec_show_hidden_override(),
            r is Ok ==> forall|d: u8| r->Ok_0.spec_depth(d) == self.spec_depth(d),
            r is Ok ==> r->Ok_0.spec_show_hidden() == self.spec_show_hidden(),
            r is Ok && no_expansion_tokens(self.spec_path()) ==> r->Ok_0.spec_path()
                == self.spec_path(),
            r is Err ==> r->Err_0 is EnvError,
    {
        match self {
            SearchPath::Simple(s) => match expand_path(s.as_str()) {
                Ok(p) => Ok(SearchPath::Simple(p)),
                Err(e) => Err(e),
            },
            SearchPath::Complex { path, depth, show_hidden } => match expand_path(path.as_str()) {
                Ok(p) => Ok(
                    SearchPath::Complex { path: p, depth: *depth, show_hidden: *show_hidden },
                ),
                Err(e) => Err(e),
            },
        }
    }
}

/// One root after expansion and resolution: the expanded path, the
/// effective depth budget, and the effective visibility.
#[derive(Debug)]
pub struct ResolvedRoot {
    pub path: String,
    pub depth: u8,
    pub show_hidden: bool,
}

/// The configuration of one run: the defaults and the ordered roots.
#[derive(Debug)]
pub struct Config {
    pub settings: Settings,
    pub paths: Vec<SearchPath>,
}

impl Config {
    /// Whether `rr` is a faithful resolution of this configuration's
    /// root number `i`: effective depth and visibility as configured,
    /// and the path unchanged where it held nothing to expand.
    pub open spec fn resolves_root(&self, i: int, rr: ResolvedRoot) -> bool {
        &&& rr.depth == self.paths@[i].spec_depth(self.settings.default_depth)
        &&& rr.show_hidden == self.paths@[i].spec_show_hidden()
        &&& no_expansion_tokens(self.paths@[i].spec_path()) ==> rr.path@
            == self.paths@[i].spec_path()
    }

    /// Expands every configured root, in order, and resolves its
    /// effective depth and visibility. One unexpandable root aborts the
    /// whole run: that signals misconfiguration, not a transient
    /// filesystem condition.
    pub fn resolve_roots(&self) -> (r: Result<Vec<ResolvedRoot>, Error>)
        ensures
            r is Ok ==> r->Ok_0@.len() == self.paths@.len(),
            r is Ok ==> forall|i: int|
                0 <= i < self.paths@.len() ==> self.resolves_root(i, #[trigger] r->Ok_0@[i]),
            (forall|i: int|
                0 <= i < self.paths@.len() ==> no_expansion_tokens(
                    #[trigger] self.paths@[i].spec_path(),
                )) ==> r is Ok,
            r is Err ==> r->Err_0 is EnvError,
    {
        let mut out: Vec<ResolvedRoot> = Vec::new();
        let mut i: usize = 0;
        while i < self.paths.len()
            invariant
                i <= self.paths@.len(),
                out@.len() == i as int,
                forall|k: int| 0 <= k < i as int ==> self.resolves_root(k, #[trigger] out@[k]),
            decreases self.paths@.len() - i,
        {
            let sp = &self.paths[i];
            match sp.expand() {
                Ok(expanded) => {
                    let rr = ResolvedRoot {
                        depth: expanded.depth(self.settings.default_depth),
                        show_hidden: expanded.show_hidden(),
                        path: match expanded {
                            SearchPath::Simple(s) => s,
                            SearchPath::Complex { path, .. } => path,
                        },
                    };
                    out.push(rr);
                },
                Err(e) => {
                    return Err(e);
                },
            }
            i = i + 1;
        }
        Ok(out)
    }
}

} // verus!
