use vstd::prelude::*;

use vstd::utf8::{decode_utf8, encode_utf8, valid_utf8};

use crate::memory::MemoryList;

verus! {

#[verifier::external_type_specification]
#[verifier::external_body]
pub struct ExIoError(std::io::Error);

/// Relies on `String::from_utf8`: it succeeds exactly when the bytes are
/// valid UTF-8, and the string then holds the characters they encode.
#[verifier::external_body]
fn string_from_utf8(bytes: Vec<u8>) -> (r: Option<String>)
    ensures
        r is Some <==> valid_utf8(bytes@),
        r matches Some(s) ==> s@ == decode_utf8(bytes@),
{
    String::from_utf8(bytes).ok()
}

/// Relies on `std::io::Error::from`, building an error of kind `InvalidData`.
#[verifier::external_body]
fn invalid_data_error() -> std::io::Error {
    std::io::Error::from(std::io::ErrorKind::InvalidData)
}

/// `b` cut into pieces of `size` bytes, the last one possibly shorter.
pub open spec fn chunks_of(b: Seq<u8>, size: nat) -> Seq<Seq<u8>>
    decreases b.len(),
{
    if b.len() == 0 || size == 0 {
        Seq::empty()
    } else if b.len() <= size {
        seq![b]
    } else {
        seq![b.take(size as int)] + chunks_of(b.skip(size as int), size)
    }
}

/// The UTF-8 bytes of `text` cut into pieces of `size` bytes.
pub open spec fn text_chunks(text: Seq<char>, size: nat) -> Seq<Seq<u8>> {
    chunks_of(encode_utf8(text), size)
}

/// Builds a [`MemoryList`] over the UTF-8 bytes of `text` cut into pieces of
/// `chunk_by` bytes, the last one possibly shorter.
///
/// A chunk size that cuts a multi-byte character is answered with an error
/// of kind `InvalidData`, by design: no chunk is ever handed out that is not
/// whole UTF-8, and the call never panics on such input.
pub fn mem_list_from_chunks(text: &str, chunk_by: usize, round_robin: bool) -> (r: Result<MemoryList<String>, std::io::Error>)
    requires
        chunk_by > 0,
    ensures
        r is Ok <==> forall|k: int|
            0 <= k < text_chunks(text@, chunk_by as nat).len() ==> valid_utf8(#[trigger] text_chunks(text@, chunk_by as nat)[k]),
        r matches Ok(list) ==> {
            &&& list@.round_robin == round_robin
            &&& list@.position == 0
            &&& list@.items.len() == text_chunks(text@, chunk_by as nat).len()
            &&& forall|k: int|
                0 <= k < list@.items.len() ==> #[trigger] list@.items[k]@ == decode_utf8(text_chunks(text@, chunk_by as nat)[k])
        },
{
    let bytes: &[u8] = text.as_bytes();
    let ghost b = bytes@;
    let ghost all = chunks_of(b, chunk_by as nat);
    let len = bytes.len();
    let mut chunks: Vec<String> = Vec::new();
    let ghost mut done: Seq<Seq<u8>> = Seq::empty();
    let mut i: usize = 0;
    proof {
        assert(b.skip(0) =~= b);
        assert(done + chunks_of(b.skip(0), chunk_by as nat) =~= all);
    }
    while i < len
        invariant
            b == bytes@,
            b == encode_utf8(text@),
            all == chunks_of(b, chunk_by as nat),
            len == b.len(),
            chunk_by > 0,
            i <= len,
            all == done + chunks_of(b.skip(i as int), chunk_by as nat),
            chunks@.len() == done.len(),
            forall|k: int| 0 <= k < done.len() ==> valid_utf8(#[trigger] done[k]),
            forall|k: int| 0 <= k < done.len() ==> #[trigger] chunks@[k]@ == decode_utf8(done[k]),
        decreases len - i,
    {
        let end: usize = if len - i <= chunk_by { len } else { i + chunk_by };
        let mut piece: Vec<u8> = Vec::new();
        let mut j: usize = i;
        while j < end
            invariant
                b == bytes@,
                i <= j <= end,
                end <= len,
                len == b.len(),
                piece@ == b.subrange(i as int, j as int),
            decreases end - j,
        {
            piece.push(bytes[j]);
            j = j + 1;
            assert(piece@ =~= b.subrange(i as int, j as int));
        }
        let ghost rest = b.skip(i as int);
        proof {
            if len - i <= chunk_by {
                assert(piece@ =~= rest);
                assert(chunks_of(rest, chunk_by as nat) == seq![rest]);
                assert(b.skip(end as int).len() == 0);
                assert(chunks_of(b.skip(end as int), chunk_by as nat) == Seq::<Seq<u8>>::empty());
            } else {
                assert(piece@ =~= rest.take(chunk_by as int));
                assert(rest.skip(chunk_by as int) =~= b.skip(end as int));
            }
            assert(chunks_of(rest, chunk_by as nat) == seq![piece@] + chunks_of(b.skip(end as int), chunk_by as nat));
            assert(all == done.push(piece@) + chunks_of(b.skip(end as int), chunk_by as nat)) by {
                assert(done + (seq![piece@] + chunks_of(b.skip(end as int), chunk_by as nat))
                    =~= done.push(piece@) + chunks_of(b.skip(end as int), chunk_by as nat));
            }
        }
        let ghost cut = piece@;
        match string_from_utf8(piece) {
            Some(s) => {
                chunks.push(s);
                proof {
                    done = done.push(cut);
                }
            },
            None => {
                proof {
                    assert(all[done.len() as int] == cut);
                    assert(all == text_chunks(text@, chunk_by as nat));
                    assert(done.len() < all.len());
                    assert(!valid_utf8(text_chunks(text@, chunk_by as nat)[done.len() as int]));
                }
                return Err(invalid_data_error());
            },
        }
        i = end;
    }
    proof {
        assert(b.skip(len as int).len() == 0);
        assert(all =~= done);
    }
    if round_robin {
        Ok(MemoryList::new_round_robin(chunks))
    } else {
        Ok(MemoryList::new(chunks))
    }
}

} // verus!
