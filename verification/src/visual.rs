//! Blocks written out in caret notation, in which the two characters `^@`
//! stand for a zero byte and every other character stands for itself.

use vstd::prelude::*;
use vstd::string::{is_ascii, is_ascii_spec_bytes};
use vstd::utf8::is_ascii_chars;

verus! {

/// The bytes that a text in caret notation describes, one item for each byte:
/// `None` for a `^@`, which leaves the byte as it is, and `Some` with the
/// character's code for any other character.
pub open spec fn visual_tokens(chars: Seq<char>) -> Seq<Option<u8>>
    decreases chars.len(),
{
    if chars.len() == 0 {
        seq![]
    } else if chars.len() >= 2 && chars[0] == '^' && chars[1] == '@' {
        seq![None] + visual_tokens(chars.skip(2))
    } else {
        seq![Some(chars[0] as u8)] + visual_tokens(chars.skip(1))
    }
}

/// The byte at position `k` of the block that `tokens` describe: what the
/// token at `k` sets it to, and zero where there is no token or the token
/// leaves the byte as it is.
pub open spec fn visual_byte(tokens: Seq<Option<u8>>, k: int) -> u8 {
    if 0 <= k < tokens.len() {
        match tokens[k] {
            Some(b) => b,
            None => 0,
        }
    } else {
        0
    }
}

/// Builds a block from its description in caret notation. Bytes that the
/// description does not reach are zero.
///
/// The description has to be ASCII, must not end in a `^`, and may run past
/// the end of the block only with `^@`.
pub fn block_from_visual(visual: &str) -> (block: [u8; 512])
    requires
        is_ascii(visual),
        visual@.len() == 0 || visual@.last() != '^',
        forall|k: int|
            512 <= k < visual_tokens(visual@).len() ==> visual_tokens(visual@)[k] is None,
    ensures
        forall|k: int| 0 <= k < 512 ==> block@[k] == visual_byte(visual_tokens(visual@), k),
{
    let mut block: [u8; 512] = [0; 512];
    let bytes = visual.as_bytes();
    proof {
        is_ascii_spec_bytes(visual);
    }
    let ghost chars = visual@;
    let ghost mut done: Seq<Option<u8>> = seq![];
    let mut i: usize = 0;
    let mut j: usize = 0;
    assert(chars.skip(0) =~= chars);
    while i < bytes.len()
        invariant
            chars == visual@,
            is_ascii_chars(chars),
            bytes@ == Seq::new(chars.len(), |k: int| chars[k] as u8),
            chars.len() == 0 || chars.last() != '^',
            forall|k: int|
                512 <= k < visual_tokens(chars).len() ==> visual_tokens(chars)[k] is None,
            j <= i <= chars.len(),
            done.len() == j,
            visual_tokens(chars) == done + visual_tokens(chars.skip(i as int)),
            forall|k: int| 0 <= k < 512 ==> block@[k] == visual_byte(done, k),
        decreases chars.len() - i,
    {
        let ghost rest = chars.skip(i as int);
        assert(rest[0] == chars[i as int]);
        if bytes[i] == 94 {
            assert(chars[i as int] == '^');
        }
        if bytes[i] == 94 && bytes[i + 1] == 64 {
            proof {
                assert(rest[1] == chars[i + 1]);
                assert(rest.skip(2) =~= chars.skip(i + 2));
                assert(done + (seq![None::<u8>] + visual_tokens(rest.skip(2))) =~= done.push(None)
                    + visual_tokens(rest.skip(2)));
                assert forall|k: int| 0 <= k < 512 implies block@[k] == visual_byte(
                    done.push(None),
                    k,
                ) by {
                    assert(block@[k] == visual_byte(done, k));
                }
                done = done.push(None);
            }
            i += 2;
        } else {
            proof {
                assert(rest.skip(1) =~= chars.skip(i + 1));
                assert(done + (seq![Some(chars[i as int] as u8)] + visual_tokens(rest.skip(1)))
                    =~= done.push(Some(chars[i as int] as u8)) + visual_tokens(rest.skip(1)));
                assert(visual_tokens(chars)[j as int] == Some(chars[i as int] as u8));
                assert(done.push(Some(chars[i as int] as u8)).drop_last() =~= done);
                done = done.push(Some(chars[i as int] as u8));
            }
            let ghost before = block@;
            block[j] = bytes[i];
            proof {
                assert forall|k: int| 0 <= k < 512 implies block@[k] == visual_byte(done, k) by {
                    assert(before[k] == visual_byte(done.drop_last(), k));
                }
            }
            i += 1;
        }
        j += 1;
    }
    proof {
        assert(visual_tokens(chars.skip(i as int)) =~= seq![]);
        assert(done + seq![] =~= done);
    }
    block
}

} // verus!
