//! Cutting a long text into overlapping chunks of characters.

use vstd::prelude::*;

verus! {

/// The chunks of `s` from position `start` on: windows of `size` characters
/// whose starts are `size - overlap` apart; the last chunk ends at the end of
/// the text.
pub open spec fn chunks_from(s: Seq<char>, size: nat, overlap: nat, start: nat) -> Seq<Seq<char>>
    recommends
        overlap < size,
    decreases s.len() - start,
    when overlap < size
{
    if start >= s.len() {
        Seq::empty()
    } else if start + size >= s.len() {
        seq![s.subrange(start as int, s.len() as int)]
    } else {
        seq![s.subrange(start as int, (start + size) as int)] + chunks_from(
            s,
            size,
            overlap,
            (start + size - overlap) as nat,
        )
    }
}

/// Cuts `text` into chunks of `chunk_size` characters, each starting
/// `chunk_size - chunk_overlap` characters after the one before; the last
/// chunk may be shorter. An empty text has no chunks.
pub fn chunk_handle(text: &str, chunk_size: usize, chunk_overlap: usize) -> (r: Vec<String>)
    requires
        chunk_overlap < chunk_size,
    ensures
        r@.map_values(|c: String| c@) == chunks_from(text@, chunk_size as nat, chunk_overlap as nat, 0),
{
    let n = text.unicode_len();
    let step = chunk_size - chunk_overlap;
    let mut chunks: Vec<String> = Vec::new();
    let mut start: usize = 0;
    let ghost s = text@;
    let ghost size = chunk_size as nat;
    let ghost overlap = chunk_overlap as nat;
    while start < n
        invariant
            n == s.len(),
            s == text@,
            size == chunk_size as nat,
            overlap == chunk_overlap as nat,
            step == chunk_size - chunk_overlap,
            chunk_overlap < chunk_size,
            chunks@.map_values(|c: String| c@) + chunks_from(s, size, overlap, start as nat)
                == chunks_from(s, size, overlap, 0),
        decreases n - start,
    {
        let ghost before = chunks@.map_values(|c: String| c@);
        if chunk_size >= n - start {
            let piece = text.substring_char(start, n);
            chunks.push(String::from_str(piece));
            assert(chunks@.map_values(|c: String| c@) =~= before + chunks_from(s, size, overlap, start as nat));
            assert(chunks_from(s, size, overlap, n as nat) =~= Seq::<Seq<char>>::empty());
            start = n;
            assert(chunks@.map_values(|c: String| c@) + chunks_from(s, size, overlap, start as nat) =~= chunks@.map_values(|c: String| c@));
        } else {
            let piece = text.substring_char(start, start + chunk_size);
            chunks.push(String::from_str(piece));
            let ghost rest = chunks_from(s, size, overlap, (start + step) as nat);
            assert(chunks_from(s, size, overlap, start as nat) == seq![piece@] + rest);
            assert(chunks@.map_values(|c: String| c@) =~= before.push(piece@));
            assert(before + (seq![piece@] + rest) =~= before.push(piece@) + rest);
            start = start + step;
        }
    }
    assert(chunks_from(s, size, overlap, start as nat) =~= Seq::<Seq<char>>::empty());
    assert(chunks@.map_values(|c: String| c@) + Seq::<Seq<char>>::empty() =~= chunks@.map_values(|c: String| c@));
    chunks
}

} // verus!
