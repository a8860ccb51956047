//! Short strings with a fixed amount of room.

use crate::bytes::copy_into;
use vstd::prelude::*;
use vstd::slice::slice_subrange;
use vstd::string::StringSliceAdditionalSpecFns;
#[allow(unused_imports)]
use vstd::utf8;

verus! {

/// As much of `text` as `room` bytes of UTF-8 hold, in whole characters.
pub open spec fn fitting(text: Seq<char>, room: int) -> Seq<char>
    decreases text.len(),
{
    if text.len() == 0 {
        Seq::empty()
    } else {
        let width = utf8::encode_scalar(text[0] as u32).len();
        if width > room {
            Seq::empty()
        } else {
            seq![text[0]] + fitting(text.drop_first(), room - width)
        }
    }
}

/// Calls `core::str::from_utf8`, which takes exactly the bytes that are valid
/// UTF-8, and reads them as the string that they encode.
#[verifier::external_body]
fn utf8_str(bytes: &[u8]) -> (text: Option<&str>)
    ensures
        match text {
            Some(text) => utf8::valid_utf8(bytes@) && text@ == utf8::decode_utf8(bytes@),
            None => !utf8::valid_utf8(bytes@),
        },
{
    core::str::from_utf8(bytes).ok()
}

/// A short string copied out of a UBX message, so it outlives the parser's
/// buffer.
#[derive(Clone, Copy, PartialEq, Eq, Debug)]
pub struct FixedStr<const N: usize> {
    bytes: [u8; N],
    len: usize,
}

impl<const N: usize> View for FixedStr<N> {
    type V = Seq<char>;

    closed spec fn view(&self) -> Seq<char> {
        utf8::decode_utf8(self.bytes@.take(self.len as int))
    }
}

impl<const N: usize> FixedStr<N> {
    /// What is kept is a string, and the room behind it is zero, so that
    /// strings that read the same are equal.
    pub closed spec fn wf(self) -> bool {
        &&& self.len <= N
        &&& utf8::valid_utf8(self.bytes@.take(self.len as int))
        &&& forall|at: int| self.len <= at < N ==> #[trigger] self.bytes@[at] == 0
    }

    /// Copies as much of `s` as fits, cut back to a character boundary.
    pub fn new(s: &str) -> (copy: Self)
        ensures
            copy.wf(),
            copy@ == fitting(s@, N as int),
    {
        let source = s.as_bytes();
        let limit: usize = if source.len() < N {
            source.len()
        } else {
            N
        };
        let mut len: usize = limit;
        proof {
            utf8::encode_utf8_valid_utf8(s@);
            utf8::is_char_boundary_start_end_of_seq(source@);
        }
        while !s.is_char_boundary(len)
            invariant
                len <= limit <= source.len(),
                source@ == s.spec_bytes(),
                utf8::is_char_boundary(source@, 0),
                forall|at: int|
                    len < at <= limit ==> !#[trigger] utf8::is_char_boundary(source@, at),
            decreases len,
        {
            len = len - 1;
        }
        proof {
            lemma_cut_fits(s@, N as int, len as int);
            utf8::valid_utf8_split(source@, len as int);
            utf8::encode_utf8_decode_utf8(fitting(s@, N as int));
        }
        let mut bytes: [u8; N] = [0; N];
        copy_into(&mut bytes, 0, slice_subrange(source, 0, len));
        assert(bytes@.take(len as int) == source@.subrange(0, len as int));
        Self { bytes, len }
    }

    /// The string.
    pub fn as_str(&self) -> (text: &str)
        requires
            self.wf(),
        ensures
            text@ == self@,
    {
        // Only ever filled from a `&str` cut at a character boundary.
        match utf8_str(slice_subrange(&self.bytes, 0, self.len)) {
            Some(text) => text,
            None => "",
        }
    }
}

/// The last character boundary within `room` bytes cuts off what fits.
proof fn lemma_cut_fits(text: Seq<char>, room: int, cut: int)
    requires
        0 <= cut <= room,
        cut <= utf8::encode_utf8(text).len(),
        utf8::is_char_boundary(utf8::encode_utf8(text), cut),
        forall|at: int|
            cut < at <= room && at <= utf8::encode_utf8(text).len()
                ==> !#[trigger] utf8::is_char_boundary(utf8::encode_utf8(text), at),
    ensures
        utf8::encode_utf8(text).subrange(0, cut) == utf8::encode_utf8(fitting(text, room)),
    decreases text.len(),
{
    let bytes = utf8::encode_utf8(text);
    utf8::encode_utf8_valid_utf8(text);
    if text.len() == 0 {
        assert(bytes.subrange(0, cut) == Seq::<u8>::empty());
    } else {
        let first = utf8::encode_scalar(text[0] as u32);
        let width = first.len() as int;
        let tail = text.drop_first();
        let rest = utf8::encode_utf8(tail);
        utf8::encode_utf8_first_scalar(text);
        utf8::encode_utf8_valid_utf8(tail);
        assert(utf8::pop_first_scalar(bytes) == rest);
        if width > room {
            reveal_with_fuel(utf8::is_char_boundary, 2);
            assert(cut == 0);
            assert(bytes.subrange(0, cut) == Seq::<u8>::empty());
        } else {
            utf8::is_char_boundary_start_end_of_seq(rest);
            assert(utf8::is_char_boundary(bytes, width));
            assert(cut >= width);
            assert forall|at: int|
                cut - width < at <= room - width && at <= rest.len() implies !#[trigger]
            utf8::is_char_boundary(rest, at) by {
                assert(!utf8::is_char_boundary(bytes, at + width));
            }
            lemma_cut_fits(tail, room - width, cut - width);
            let fit = fitting(tail, room - width);
            let whole = seq![text[0]] + fit;
            assert(whole.drop_first() == fit);
            assert(bytes.subrange(0, cut) == first + rest.subrange(0, cut - width));
        }
    }
}

/// Whatever fits is kept whole.
pub proof fn law_short_strings_are_kept(text: Seq<char>, room: int)
    requires
        utf8::encode_utf8(text).len() <= room,
    ensures
        fitting(text, room) == text,
    decreases text.len(),
{
    if text.len() > 0 {
        let width = utf8::encode_scalar(text[0] as u32).len();
        law_short_strings_are_kept(text.drop_first(), room - width);
        assert(seq![text[0]] + text.drop_first() == text);
    }
}

/// Cutting a string leaves a beginning of it that fits, and one more character
/// would not.
pub proof fn law_cut_is_the_longest_that_fits(text: Seq<char>, room: int)
    requires
        room >= 0,
    ensures
        ({
            let kept = fitting(text, room);
            &&& kept.len() <= text.len()
            &&& kept == text.take(kept.len() as int)
            &&& utf8::encode_utf8(kept).len() <= room
            &&& kept.len() < text.len() ==> utf8::encode_utf8(
                text.take(kept.len() as int + 1),
            ).len() > room
        }),
    decreases text.len(),
{
    let kept = fitting(text, room);
    if text.len() > 0 {
        let width = utf8::encode_scalar(text[0] as u32).len() as int;
        let tail = text.drop_first();
        if width <= room {
            law_cut_is_the_longest_that_fits(tail, room - width);
            let inner = fitting(tail, room - width);
            assert(kept.drop_first() == inner);
            assert(kept == text.take(kept.len() as int));
            if kept.len() < text.len() {
                assert(text.take(kept.len() as int + 1).drop_first() == tail.take(inner.len() as int + 1));
            }
        } else {
            assert(text.take(1).drop_first() == Seq::<char>::empty());
            assert(utf8::encode_utf8(text.take(1)) == utf8::encode_scalar(text[0] as u32) + utf8::encode_utf8(
                Seq::<char>::empty(),
            ));
        }
    }
}

} // verus!
