//! Source selection for a dynamic (streaming) query. Exactly one data
//! source is chosen per request, in priority order: a supplied captured
//! file replays as-is, with the cache never consulted; else a supplied
//! working directory is checked for a valid cache entry, which
//! short-circuits live execution when it parses; else the backend runs
//! live against the ambient environment.

use vstd::prelude::*;
use crate::cache::decoded_total;
use crate::preview::PreviewResult;
use crate::preview::cached_result;
use crate::preview::spec_preview;

verus! {

/// The fixed argument vector of the backend for dynamic queries: matching
/// happens downstream on the streamed lines, so the pattern token is the
/// quoted empty string and every line is a candidate.
pub open spec fn dynamic_scan_args() -> Seq<Seq<char>> {
    seq![
        "rg"@,
        "--column"@,
        "--line-number"@,
        "--no-heading"@,
        "--color=never"@,
        "--smart-case"@,
        "''"@,
    ]
}

/// Build the fixed dynamic-query invocation. The same vector addresses the
/// cache, so a lookup and the run that populated the entry derive the same
/// key.
pub fn dynamic_args() -> (r: Vec<String>)
    ensures
        r.deep_view() == dynamic_scan_args(),
{
    let mut args: Vec<String> = Vec::new();
    args.push(String::from_str("rg"));
    args.push(String::from_str("--column"));
    args.push(String::from_str("--line-number"));
    args.push(String::from_str("--no-heading"));
    args.push(String::from_str("--color=never"));
    args.push(String::from_str("--smart-case"));
    args.push(String::from_str("''"));
    proof {
        assert(args.deep_view() =~= dynamic_scan_args());
    }
    args
}

/// A cache entry as handed over by the storage collaborator: its
/// identifier, and its body's lines when they could be read (`None` when
/// the body read failed).
pub struct CacheEntry {
    pub identifier: String,
    pub body: Option<Vec<String>>,
}

/// The first selection step: where the data for a dynamic query comes from
/// before any cache lookup happens.
pub enum SourceDecision {
    /// Replay a captured file; the cache is never consulted.
    Replay(String),
    /// A working directory was supplied: look its cache entry up first.
    ConsultCache(String),
    /// Neither a captured file nor a directory: run live in the ambient
    /// environment.
    SpawnAmbient,
}

/// Choose the data source for a dynamic query. A captured input file wins
/// over everything and skips directory and cache entirely; otherwise a
/// supplied directory is consulted for a cached result; otherwise the
/// backend runs against the ambient environment.
pub fn select_source(input: Option<String>, cmd_dir: Option<String>) -> (r: SourceDecision)
    ensures
        match input {
            Some(f) => r == SourceDecision::Replay(f),
            None => match cmd_dir {
                Some(d) => r == SourceDecision::ConsultCache(d),
                None => r == SourceDecision::SpawnAmbient,
            },
        },
{
    match input {
        Some(f) => SourceDecision::Replay(f),
        None => match cmd_dir {
            Some(d) => SourceDecision::ConsultCache(d),
            None => SourceDecision::SpawnAmbient,
        },
    }
}

/// The second selection step, taken only when a working directory was
/// supplied: serve from the cache, or spawn in that directory.
pub enum CacheStep {
    /// A valid cache entry was found: serve it, spawning nothing.
    UseCached(PreviewResult),
    /// No usable entry: run the backend live in the directory.
    SpawnInDir(String),
}

/// Decide between the cached result and live execution, given what the
/// storage lookup returned for the directory's key (`None` both for a
/// missing entry and for a lookup error). An entry whose identifier does
/// not decode is a miss, never an error; a hit is served with `using_cache`
/// set and its preview bounded by `bound`, and spawns nothing.
pub fn dyn_source_with_dir(dir: String, entry: Option<CacheEntry>, bound: usize) -> (r: CacheStep)
    ensures
        match entry {
            None => r == CacheStep::SpawnInDir(dir),
            Some(e) => match decoded_total(e.identifier@) {
                None => r == CacheStep::SpawnInDir(dir),
                Some(total) => {
                    &&& r is UseCached
                    &&& r->UseCached_0.total == total
                    &&& r->UseCached_0.using_cache == true
                    &&& match e.body {
                        Some(b) => r->UseCached_0.lines.deep_view() == spec_preview(
                            b.deep_view(),
                            bound as int,
                        ),
                        None => r->UseCached_0.lines@.len() == 0,
                    }
                },
            },
        },
{
    match entry {
        None => CacheStep::SpawnInDir(dir),
        Some(e) => match cached_result(e.identifier.as_str(), e.body.as_ref(), bound) {
            Some(p) => CacheStep::UseCached(p),
            None => CacheStep::SpawnInDir(dir),
        },
    }
}

} // verus!
