//! The command line, and the answer to the overwrite question.

use vstd::prelude::*;

verus! {

/// The input `.moon` file and the directory to write the avatar into.
pub struct Args {
    pub file: String,
    pub outdir: String,
}

/// Reads the command line `args` (the program's name first). Without an
/// input file and an output directory, gives back the name to show in the
/// usage text: the program's name, or `angle` where there is none.
pub fn parse_args(args: &Vec<String>) -> (r: Result<Args, String>)
    ensures
        args@.len() >= 3 <==> r is Ok,
        r matches Ok(a) ==> a.file@ == args@[1]@ && a.outdir@ == args@[2]@,
        r matches Err(exe) ==> exe@ == (if args@.len() >= 1 { args@[0]@ } else { "angle"@ }),
{
    if args.len() >= 3 {
        Ok(Args { file: args[1].clone(), outdir: args[2].clone() })
    } else if args.len() >= 1 {
        Err(args[0].clone())
    } else {
        Err(String::from_str("angle"))
    }
}

/// Whether `answer` says yes: whether it holds a `y`, in either case.
pub fn answer_is_yes(answer: &str) -> (r: bool)
    ensures
        r <==> exists|i: int|
            0 <= i < answer@.len() && (#[trigger] answer@[i] == 'y' || answer@[i] == 'Y'),
{
    let n = answer.unicode_len();
    let mut i: usize = 0;
    while i < n
        invariant
            n == answer@.len(),
            i <= n,
            forall|j: int| 0 <= j < i ==> answer@[j] != 'y' && answer@[j] != 'Y',
        decreases n - i,
    {
        let c = answer.get_char(i);
        if c == 'y' || c == 'Y' {
            return true;
        }
        i = i + 1;
    }
    false
}

} // verus!
