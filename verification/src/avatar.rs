//! Avatar colour choice: a stable index into a fixed palette, derived
//! from the bytes of the avatar text.

use vstd::prelude::*;
use vstd::string::*;
use vstd::wrapping::usize_specs;

verus! {

/// Number of colours in the avatar palette the drawing layer holds.
pub const AVATAR_COLOR_COUNT: usize = 10;

/// Byte fold used by the chat list: add each byte with wrapping, and
/// reduce modulo the palette size at every step.
pub open spec fn spec_fold_mod(bs: Seq<u8>, m: usize) -> usize
    recommends
        m > 0,
    decreases bs.len(),
{
    if bs.len() == 0 {
        0
    } else {
        (usize_specs::wrapping_add(spec_fold_mod(bs.drop_last(), m), bs.last() as usize) as int
            % m as int) as usize
    }
}

/// Byte fold used by the main chat header: wrapping sum of all bytes.
pub open spec fn spec_wrap_sum(bs: Seq<u8>) -> usize
    decreases bs.len(),
{
    if bs.len() == 0 {
        0
    } else {
        usize_specs::wrapping_add(spec_wrap_sum(bs.drop_last()), bs.last() as usize)
    }
}

/// Palette index for a chat-list avatar: the byte sum reduced modulo
/// the palette size at every step.
pub fn chat_list_avatar_index(text: &str, palette_len: usize) -> (r: usize)
    requires
        palette_len > 0,
    ensures
        r == spec_fold_mod(text.spec_bytes(), palette_len),
        r < palette_len,
{
    let bs = text.as_bytes();
    let n = bs.len();
    let mut acc: usize = 0;
    let mut i: usize = 0;
    proof {
        assert(bs@.take(0) =~= Seq::<u8>::empty());
    }
    while i < n
        invariant
            0 <= i <= n,
            n == bs@.len(),
            bs@ == text.spec_bytes(),
            acc == spec_fold_mod(bs@.take(i as int), palette_len),
            acc < palette_len,
            palette_len > 0,
        decreases n - i,
    {
        let b = bs[i];
        acc = acc.wrapping_add(b as usize) % palette_len;
        proof {
            assert(bs@.take(i + 1).drop_last() =~= bs@.take(i as int));
            assert(bs@.take(i + 1).last() == bs@[i as int]);
        }
        i = i + 1;
    }
    proof {
        assert(bs@.take(n as int) =~= bs@);
    }
    acc
}

/// Palette index for the chat header avatar: the wrapping byte sum,
/// reduced modulo the palette size once at the end.
pub fn chat_main_avatar_index(text: &str, palette_len: usize) -> (r: usize)
    requires
        palette_len > 0,
    ensures
        r == spec_wrap_sum(text.spec_bytes()) as int % palette_len as int,
        r < palette_len,
{
    let bs = text.as_bytes();
    let n = bs.len();
    let mut acc: usize = 0;
    let mut i: usize = 0;
    proof {
        assert(bs@.take(0) =~= Seq::<u8>::empty());
    }
    while i < n
        invariant
            0 <= i <= n,
            n == bs@.len(),
            bs@ == text.spec_bytes(),
            acc == spec_wrap_sum(bs@.take(i as int)),
        decreases n - i,
    {
        let b = bs[i];
        acc = acc.wrapping_add(b as usize);
        proof {
            assert(bs@.take(i + 1).drop_last() =~= bs@.take(i as int));
            assert(bs@.take(i + 1).last() == bs@[i as int]);
        }
        i = i + 1;
    }
    proof {
        assert(bs@.take(n as int) =~= bs@);
    }
    acc % palette_len
}

} // verus!
