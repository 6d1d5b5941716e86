//! Configuration values.
//!
//! A configuration is built once per invocation by the caller (from a
//! configuration file, command-line flags, or both) and only read by the
//! core. The constructors here fix the documented defaults: no explicit
//! directories, the version-control metadata directory ignored, and all
//! modes off. Reading and deserializing the configuration file is the
//! caller's business; it hands the recognized fields over as plain
//! optional values and [`config_from_fields`] fills in the defaults.

use vstd::prelude::*;

use crate::matching::views;

verus! {

/// The immutable per-invocation configuration.
pub struct LoopConfig {
    /// Explicit target roots; empty means "expand the current directory".
    pub directories: Vec<String>,
    /// Substring patterns of paths to skip entirely.
    pub ignore: Vec<String>,
    /// Run the command in all targets concurrently instead of in order.
    pub parallel: bool,
    /// Announce each target directory before executing in it.
    pub verbose: bool,
    /// Suppress normal per-target output (never fatal error reporting).
    pub silent: bool,
}

/// The default ignore list: only the version-control metadata directory.
pub open spec fn default_ignore() -> Seq<Seq<char>> {
    seq![".git"@]
}

/// Copy a vector of strings; the copy has exactly the same contents.
fn clone_string_vec(v: &Vec<String>) -> (r: Vec<String>)
    ensures
        r@ == v@,
{
    let n: usize = v.len();
    let mut r: Vec<String> = Vec::new();
    let mut i: usize = 0;
    while i < n
        invariant
            n == v@.len(),
            i <= n,
            r@ == v@.take(i as int),
        decreases n - i,
    {
        r.push(v[i].clone());
        assert(r@ =~= v@.take(i + 1));
        i = i + 1;
    }
    assert(v@.take(n as int) =~= v@);
    r
}

/// The configuration every field falls back to: no explicit directories,
/// ignore only the version-control metadata directory, and sequential,
/// non-verbose, non-silent execution.
pub fn default_config() -> (c: LoopConfig)
    ensures
        c.directories@.len() == 0,
        views(c.ignore@) == default_ignore(),
        !c.parallel,
        !c.verbose,
        !c.silent,
{
    let mut ignore: Vec<String> = Vec::new();
    ignore.push(".git".to_owned());
    assert(views(ignore@) =~= default_ignore());
    LoopConfig { directories: Vec::new(), ignore, parallel: false, verbose: false, silent: false }
}

/// Build a configuration from the recognized fields of a configuration
/// file, each absent field taking its documented default: `directories`
/// empty, `ignore` just the version-control metadata directory, and every
/// mode flag false. Unknown fields never reach this constructor.
pub fn config_from_fields(
    directories: Option<Vec<String>>,
    ignore: Option<Vec<String>>,
    parallel: Option<bool>,
    verbose: Option<bool>,
    silent: Option<bool>,
) -> (c: LoopConfig)
    ensures
        c.directories@ == (match directories {
            Some(d) => d@,
            None => Seq::<String>::empty(),
        }),
        views(c.ignore@) == (match ignore {
            Some(g) => views(g@),
            None => default_ignore(),
        }),
        c.parallel == (match parallel {
            Some(b) => b,
            None => false,
        }),
        c.verbose == (match verbose {
            Some(b) => b,
            None => false,
        }),
        c.silent == (match silent {
            Some(b) => b,
            None => false,
        }),
{
    let dirs: Vec<String> = match directories {
        Some(d) => d,
        None => Vec::new(),
    };
    proof {
        if directories is None {
            assert(dirs@ =~= Seq::<String>::empty());
        }
    }
    let ign: Vec<String> = match ignore {
        Some(g) => g,
        None => {
            let mut g: Vec<String> = Vec::new();
            g.push(".git".to_owned());
            assert(views(g@) =~= default_ignore());
            g
        },
    };
    LoopConfig {
        directories: dirs,
        ignore: ign,
        parallel: match parallel {
            Some(b) => b,
            None => false,
        },
        verbose: match verbose {
            Some(b) => b,
            None => false,
        },
        silent: match silent {
            Some(b) => b,
            None => false,
        },
    }
}

/// The roots that resolution starts from: the configured directories, or,
/// when none are configured, the current directory alone, which is then
/// expanded recursively with the same ignore filtering as an explicit root.
pub fn effective_roots(config: &LoopConfig) -> (roots: Vec<String>)
    ensures
        config.directories@.len() == 0 ==> views(roots@) == seq!["."@],
        config.directories@.len() > 0 ==> roots@ == config.directories@,
{
    if config.directories.len() == 0 {
        let mut roots: Vec<String> = Vec::new();
        roots.push(".".to_owned());
        assert(views(roots@) =~= seq!["."@]);
        roots
    } else {
        clone_string_vec(&config.directories)
    }
}

} // verus!
