//! The decisions behind the command line: which folder to search and
//! where the outputs go. With no folder argument the current directory is
//! searched in place; one argument names the folder to search in place;
//! a second names a flat output directory; more than two is a usage
//! error.

use vstd::prelude::*;
use crate::output::Placement;

verus! {

/// One run's settings: the folder searched for the key and the assets,
/// and where each decrypted file is placed.
pub struct RunConfig {
    pub input_folder: String,
    pub placement: Placement,
}

/// Read the settings off the argument list (the first entry being the
/// program's own name, as handed to it). More than three entries is a
/// usage error.
pub fn parse_config(args: &Vec<String>) -> (r: Option<RunConfig>)
    ensures
        (r is Some) == (args@.len() <= 3),
        args@.len() <= 1 ==> (r matches Some(c) && c.input_folder@ == "./"@ && c.placement
            is InPlace),
        args@.len() == 2 ==> (r matches Some(c) && c.input_folder@ == args@[1]@ && c.placement
            is InPlace),
        args@.len() == 3 ==> (r matches Some(c) && c.input_folder@ == args@[1]@ && (
        c.placement matches Placement::CopyTo(d) && d@ == args@[2]@)),
{
    if args.len() <= 1 {
        Some(
            RunConfig {
                input_folder: String::from_str("./"),
                placement: Placement::InPlace,
            },
        )
    } else if args.len() == 2 {
        Some(RunConfig { input_folder: args[1].clone(), placement: Placement::InPlace })
    } else if args.len() == 3 {
        Some(
            RunConfig {
                input_folder: args[1].clone(),
                placement: Placement::CopyTo(args[2].clone()),
            },
        )
    } else {
        None
    }
}

} // verus!
