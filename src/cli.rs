//! The command line: the archive's path, then the files to put in it.

use vstd::prelude::*;

use crate::error::ArchiveError;

verus! {

/// A checked command line.
pub struct Invocation {
    /// Where the archive is written.
    pub archive_path: String,
    /// The files to store, in order; never empty.
    pub inputs: Vec<String>,
}

/// Reads the arguments that follow the program name: the archive path, then one or more
/// input paths. Fewer than two arguments is a usage error.
pub fn parse_args(args: &Vec<String>) -> (r: Result<Invocation, ArchiveError>)
    ensures
        args.len() < 2 <==> r matches Err(ArchiveError::Usage),
        args.len() >= 2 ==> (r matches Ok(inv) && inv.archive_path@ == args[0]@
            && inv.inputs.len() == args.len() - 1 && forall|i: int|
            0 <= i < inv.inputs.len() ==> #[trigger] inv.inputs[i]@ == args[i + 1]@),
{
    if args.len() < 2 {
        return Err(ArchiveError::Usage);
    }
    let archive_path = args[0].clone();
    let mut inputs: Vec<String> = Vec::new();
    let mut i: usize = 1;
    while i < args.len()
        invariant
            1 <= i <= args.len(),
            inputs.len() == i - 1,
            forall|k: int| 0 <= k < inputs.len() ==> #[trigger] inputs[k]@ == args[k + 1]@,
        decreases args.len() - i,
    {
        inputs.push(args[i].clone());
        i = i + 1;
    }
    Ok(Invocation { archive_path, inputs })
}

} // verus!
