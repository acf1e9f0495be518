//! Statement splitter: a raw line is split into statement groups on the
//! statement separator, and each group into a conditional chain on the
//! conditional-AND separator.  No nesting and no quoting awareness:
//! separators inside quoted text are not protected.

use vstd::prelude::*;
use crate::text::{seq_views, spec_split, split_str};

verus! {

/// The statement separator.
pub open spec fn group_sep() -> Seq<char> {
    seq![';', ' ']
}

/// The conditional-AND separator.
pub open spec fn chain_sep() -> Seq<char> {
    seq![' ', '&', '&', ' ']
}

/// The statement groups of a line, each split into its conditional
/// chain of command texts.
pub open spec fn spec_parse_command(s: Seq<char>) -> Seq<Seq<Seq<char>>> {
    spec_split(s, group_sep()).map_values(|g: Seq<char>| spec_split(g, chain_sep()))
}

/// Split a line into statement groups, and each group into the commands
/// of its conditional chain.
pub fn parse_command(command: &str) -> (r: Vec<Vec<String>>)
    ensures
        r@.len() == spec_parse_command(command@).len(),
        forall|i: int|
            0 <= i < r@.len() ==> seq_views(#[trigger] r@[i]@) == spec_parse_command(command@)[i],
{
    proof {
        reveal_strlit("; ");
        reveal_strlit(" && ");
        assert("; "@ =~= group_sep());
        assert(" && "@ =~= chain_sep());
    }
    let groups = split_str(command, "; ");
    let mut r: Vec<Vec<String>> = Vec::new();
    let ghost model = spec_parse_command(command@);
    let mut i: usize = 0;
    while i < groups.len()
        invariant
            seq_views(groups@) == spec_split(command@, group_sep()),
            model == spec_parse_command(command@),
            model.len() == groups@.len(),
            i <= groups@.len(),
            r@.len() == i,
            forall|j: int| 0 <= j < i ==> seq_views(#[trigger] r@[j]@) == model[j],
        decreases groups@.len() - i,
    {
        proof {
            reveal_strlit(" && ");
            assert(" && "@ =~= chain_sep());
            assert(groups@[i as int]@ == seq_views(groups@)[i as int]);
        }
        let chain = split_str(groups[i].as_str(), " && ");
        r.push(chain);
        i += 1;
    }
    r
}

} // verus!
