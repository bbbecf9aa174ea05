//! The pure part of command dispatch: resolving a hook's configured
//! arguments against the request.  Spawning the process and wiring its
//! standard streams to log files is I/O and happens outside the library,
//! which hands the resolved argument list out.

use crate::arguments::{arg_builder_ok, resolved_arg_of, Argument};
use crate::config::Config;
use crate::strmap::StrMap;
use vstd::prelude::*;

verus! {

/// The argument list a hook passes: each builder that describes an argument
/// is resolved against the request, in configuration order; a malformed
/// builder or a failed resolution contributes nothing, every successfully
/// resolved value (the empty string included) is passed on.
pub open spec fn resolved_args(builders: Seq<StrMap>, req: Map<Seq<char>, Seq<char>>) -> Seq<
    Seq<char>,
>
    decreases builders.len(),
{
    if builders.len() == 0 {
        Seq::empty()
    } else {
        let rest = resolved_args(builders.drop_last(), req);
        let b = builders.last()@;
        if arg_builder_ok(b) {
            match resolved_arg_of(req, b["source"@], b["name"@]) {
                Ok(v) => rest.push(v),
                Err(_) => rest,
            }
        } else {
            rest
        }
    }
}

/// Resolve every configured argument of `config` against the request,
/// dropping only those that are malformed or fail to resolve.
pub fn resolve_command_arguments(config: &Config, http_request: &StrMap) -> (r: Vec<String>)
    ensures
        r.deep_view() == resolved_args(config.pass_arguments_to_command@, http_request@),
{
    let builders = &config.pass_arguments_to_command;
    let mut out: Vec<String> = Vec::new();
    let mut i: usize = 0;
    while i < builders.len()
        invariant
            0 <= i <= builders@.len(),
            out.deep_view() == resolved_args(builders@.take(i as int), http_request@),
        decreases builders@.len() - i,
    {
        proof {
            assert(builders@.take(i + 1).drop_last() =~= builders@.take(i as int));
            assert(builders@.take(i + 1).last() == builders@[i as int]);
        }
        match Argument::new(&builders[i]) {
            Some(arg) => {
                match arg.parse_from_request(http_request) {
                    Ok(v) => out.push(v),
                    Err(_) => (),
                }
            },
            None => (),
        }
        proof {
            assert(out.deep_view() =~~= resolved_args(builders@.take(i + 1), http_request@));
        }
        i = i + 1;
    }
    proof {
        assert(builders@.take(builders@.len() as int) =~= builders@);
    }
    out
}

} // verus!
