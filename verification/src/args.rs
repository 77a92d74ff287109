//! Lookup of a flag's value in an argument list.

use vstd::prelude::*;

verus! {

/// The value that follows the first occurrence of `flag` in `args`, or
/// `None` when the flag is absent or is the last argument.
pub open spec fn spec_get_argument(args: Seq<Seq<char>>, flag: Seq<char>) -> Option<Seq<char>>
    decreases args.len(),
{
    if args.len() == 0 {
        None
    } else if args.first() == flag {
        if args.len() >= 2 {
            Some(args[1])
        } else {
            None
        }
    } else {
        spec_get_argument(args.drop_first(), flag)
    }
}

/// Finds the argument that follows the first occurrence of `flag`.
pub fn get_argument(args: &Vec<String>, flag: &str) -> (value: Option<String>)
    ensures
        match value {
            Some(v) => spec_get_argument(args.deep_view(), flag@) == Some(v@),
            None => spec_get_argument(args.deep_view(), flag@) is None,
        },
{
    let flag_string = flag.to_owned();
    let mut i: usize = 0;
    proof {
        assert(args.deep_view().skip(0) =~= args.deep_view());
    }
    while i < args.len()
        invariant
            i <= args@.len(),
            flag_string@ == flag@,
            spec_get_argument(args.deep_view().skip(i as int), flag@) == spec_get_argument(
                args.deep_view(),
                flag@,
            ),
        decreases args@.len() - i,
    {
        if args[i] == flag_string {
            assert(args.deep_view().skip(i as int).first() == flag@);
            if i + 1 < args.len() {
                assert(args.deep_view().skip(i as int)[1] == args.deep_view()[i as int + 1]);
                return Some(args[i + 1].clone());
            } else {
                assert(args.deep_view().skip(i as int).len() == 1);
                return None;
            }
        }
        proof {
            assert(args.deep_view().skip(i as int).drop_first() =~= args.deep_view().skip(
                i as int + 1,
            ));
        }
        i += 1;
    }
    None
}

} // verus!
