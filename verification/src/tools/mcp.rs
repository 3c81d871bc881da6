//! The computing part of an MCP tool call: gathering the text of its result.

use crate::text::{join, seq_join};
use vstd::prelude::*;

verus! {

/// The texts among the blocks of a result, in order.
pub open spec fn texts(blocks: Seq<Option<Seq<char>>>) -> Seq<Seq<char>>
    decreases blocks.len(),
{
    if blocks.len() == 0 {
        Seq::empty()
    } else {
        match blocks.last() {
            Some(t) => texts(blocks.drop_last()).push(t),
            None => texts(blocks.drop_last()),
        }
    }
}

/// The text of a tool result: its text blocks, one per line; other blocks
/// (`None`) are left out.
pub fn result_text(blocks: &Vec<Option<String>>) -> (r: String)
    ensures
        r@ == seq_join(texts(blocks@.map_values(|b: Option<String>| match b {
            Some(t) => Some(t@),
            None => None,
        })), "\n"@),
{
    let ghost views = blocks@.map_values(|b: Option<String>| match b {
        Some(t) => Some(t@),
        None => None,
    });
    let mut lines: Vec<String> = Vec::new();
    let n = blocks.len();
    let mut i: usize = 0;
    while i < n
        invariant
            n == blocks@.len(),
            views == blocks@.map_values(|b: Option<String>| match b {
                Some(t) => Some(t@),
                None => None,
            }),
            i <= n,
            lines@.map_values(|p: String| p@) == texts(views.take(i as int)),
        decreases n - i,
    {
        assert(views.take(i + 1).drop_last() =~= views.take(i as int));
        let ghost before = lines@.map_values(|p: String| p@);
        match &blocks[i] {
            Some(t) => {
                lines.push(t.clone());
                assert(lines@.map_values(|p: String| p@) =~= before.push(t@));
            },
            None => {},
        }
        i = i + 1;
    }
    assert(views.take(n as int) =~= views);
    join(&lines, "\n")
}

} // verus!
