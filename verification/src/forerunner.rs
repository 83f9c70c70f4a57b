//! The forerunner: a speculative, fire-and-forget full scan meant to warm
//! the cache before any query arrives. It is gated on the repository check:
//! outside a repository it does nothing and succeeds immediately; inside
//! one it plans exactly one full-scan invocation with a query-less (empty
//! pattern) argument set.

use vstd::prelude::*;
use crate::command::SearchRequest;

verus! {

/// The fixed, query-less full-scan argument vector of the forerunner: the
/// backend executable, its flags, and the empty pattern.
pub open spec fn forerunner_args() -> Seq<Seq<char>> {
    seq![
        "rg"@,
        "--column"@,
        "--line-number"@,
        "--no-heading"@,
        "--color=never"@,
        "--smart-case"@,
        ""@,
    ]
}

/// Plan the forerunner. `gate` is the repository check's verdict on the
/// effective directory (`None` when no directory could be resolved, in
/// which case the scan proceeds). Outside a repository the plan is empty:
/// nothing is spawned and the call still counts as success. Otherwise the
/// plan holds exactly one full-scan request with the fixed, query-less
/// argument vector, to run in `cmd_dir` (ambient when absent).
pub fn forerunner_plan(
    cmd_dir: Option<String>,
    number: Option<usize>,
    enable_icon: bool,
    gate: Option<bool>,
) -> (r: Option<SearchRequest>)
    ensures
        gate == Some(false) <==> r is None,
        r is Some ==> {
            &&& r->Some_0.args.deep_view() == forerunner_args()
            &&& r->Some_0.args.deep_view().last().len() == 0
            &&& r->Some_0.dir == cmd_dir
            &&& r->Some_0.number == number
            &&& r->Some_0.enable_icon == enable_icon
        },
{
    let skip = match gate {
        Some(g) => !g,
        None => false,
    };
    if skip {
        None
    } else {
        let mut args: Vec<String> = Vec::new();
        args.push(String::from_str("rg"));
        args.push(String::from_str("--column"));
        args.push(String::from_str("--line-number"));
        args.push(String::from_str("--no-heading"));
        args.push(String::from_str("--color=never"));
        args.push(String::from_str("--smart-case"));
        args.push(String::from_str(""));
        proof {
            assert(args.deep_view() =~= forerunner_args());
            reveal_strlit("");
            assert(""@.len() == 0);
        }
        Some(SearchRequest { args: args, dir: cmd_dir, number: number, enable_icon: enable_icon })
    }
}

} // verus!
