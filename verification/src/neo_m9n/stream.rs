//! What comes of a stream in which frames stand among other bytes.
//!
//! The receiver sends NMEA text until it is told not to, messages that this
//! driver does not act on, and frames that the line may damage. A stream like
//! that is a row of pieces, each of them a frame, or what a damaged header
//! leaves of one, and the noise before it.

#[allow(unused_imports)]
use super::ubx;
#[allow(unused_imports)]
use super::ubx::{Piece, UbxFrameView, PARSER_BUF, RX_CHUNK, SYNC_LEN};
#[allow(unused_imports)]
use super::{understood, MessageView};
use vstd::prelude::*;

verus! {

/// What is left of `piece`'s frame once what it begins with is used up.
pub open spec fn remains(piece: Piece) -> Seq<u8> {
    piece.frame().skip(SYNC_LEN as int)
}

/// Whether `piece` can be told apart from what follows it: it is of a length
/// that the parser tells apart, and what may be left of it is noise.
pub open spec fn clean(piece: Piece) -> bool {
    &&& piece.fits()
    &&& (piece.sound() && piece.frame().len() <= PARSER_BUF) || ubx::quiet(remains(piece))
}

/// `pieces` one after the other.
pub open spec fn laid_out(pieces: Seq<Piece>) -> Seq<u8>
    decreases pieces.len(),
{
    if pieces.len() == 0 {
        Seq::empty()
    } else {
        pieces[0].bytes() + laid_out(pieces.drop_first())
    }
}

/// Whether `bytes` and the stream of `pieces` agree as far as both go.
pub open spec fn opens(bytes: Seq<u8>, pieces: Seq<Piece>) -> bool {
    &&& forall|at: int| 0 <= at < pieces.len() ==> clean(#[trigger] pieces[at])
    &&& ubx::agree(bytes, laid_out(pieces))
}

/// The message in `piece`, if this driver acts on it and it arrived unharmed.
pub open spec fn said(piece: Piece) -> Option<MessageView> {
    match piece.message() {
        Some(message) if piece.sound() => understood(message),
        _ => None,
    }
}

/// Whatever message comes.
pub open spec fn any() -> spec_fn(MessageView) -> bool {
    |message: MessageView| true
}

/// The first message in `bytes` that is `wanted`, and the bytes behind it; or,
/// if none has arrived in full, what has arrived of a frame. `pieces` say what
/// is in `bytes`; if `bytes` go on behind them, nothing is said unless the
/// message is among them.
///
/// A frame for which the parser's buffer has no room, but for the room that
/// its header leaves, is taken if the rest of it arrives at once. If not, the
/// buffer is full before that, and the frame is as good as noise.
pub open spec fn outcome(
    bytes: Seq<u8>,
    pieces: Seq<Piece>,
    wanted: spec_fn(MessageView) -> bool,
) -> Option<(Option<MessageView>, Seq<u8>)>
    decreases pieces.len(),
{
    if pieces.len() == 0 {
        if bytes.len() == 0 {
            Some((None, Seq::empty()))
        } else {
            None
        }
    } else if bytes.len() < pieces[0].needed() {
        Some((None, pieces[0].begun(bytes)))
    } else if bytes.len() < pieces[0].bytes().len() {
        let left = bytes.skip(pieces[0].noise.len() + SYNC_LEN);
        Some((None, left.skip(ubx::first_open(left))))
    } else {
        let rest = bytes.skip(pieces[0].bytes().len() as int);
        match said(pieces[0]) {
            Some(message) if wanted(message) => Some((Some(message), rest)),
            _ => outcome(rest, pieces.drop_first(), wanted),
        }
    }
}

/// Whether reading `bytes` for what is `wanted` gives `message` and leaves
/// `rest`, as far as one can tell that from any pieces that `bytes` open with.
pub open spec fn settles(
    bytes: Seq<u8>,
    wanted: spec_fn(MessageView) -> bool,
    message: Option<MessageView>,
    rest: Seq<u8>,
) -> bool {
    forall|pieces: Seq<Piece>| #[trigger]
        opens(bytes, pieces) ==> (outcome(bytes, pieces, wanted) matches Some(end) ==> end == (
            message,
            rest,
        ))
}

/// Whether reading on from `later` gives what reading from `bytes` would.
pub open spec fn leads_to(
    bytes: Seq<u8>,
    later: Seq<u8>,
    wanted: spec_fn(MessageView) -> bool,
) -> bool {
    forall|pieces: Seq<Piece>| #[trigger]
        opens(bytes, pieces) && outcome(bytes, pieces, wanted) is Some ==> exists|left: Seq<Piece>|
            #[trigger]
            opens(later, left) && outcome(later, left, wanted) == outcome(bytes, pieces, wanted)
}

/// `piece` with the first `count` bytes of its noise gone.
pub open spec fn trimmed(piece: Piece, count: int) -> Piece {
    Piece { noise: piece.noise.skip(count), ..piece }
}

/// How many of `bytes`, with which `piece` begins to arrive, are dropped.
pub open spec fn gone(bytes: Seq<u8>, piece: Piece) -> int {
    bytes.len() - piece.begun(bytes).len()
}

/// What is left to come of `pieces` once `bytes` have been read out.
pub open spec fn remaining(bytes: Seq<u8>, pieces: Seq<Piece>) -> Seq<Piece>
    decreases pieces.len(),
{
    if pieces.len() == 0 {
        pieces
    } else if bytes.len() < pieces[0].needed() {
        seq![trimmed(pieces[0], gone(bytes, pieces[0]))] + pieces.drop_first()
    } else {
        remaining(bytes.skip(pieces[0].bytes().len() as int), pieces.drop_first())
    }
}

/// The pieces behind the first one whose message is `wanted`.
pub open spec fn behind(pieces: Seq<Piece>, wanted: spec_fn(MessageView) -> bool) -> Seq<Piece>
    decreases pieces.len(),
{
    if pieces.len() == 0 {
        pieces
    } else {
        match said(pieces[0]) {
            Some(message) if wanted(message) => pieces.drop_first(),
            _ => behind(pieces.drop_first(), wanted),
        }
    }
}

/// The messages in `pieces`, in order.
pub open spec fn told(pieces: Seq<Piece>) -> Seq<MessageView>
    decreases pieces.len(),
{
    if pieces.len() == 0 {
        Seq::empty()
    } else {
        match said(pieces[0]) {
            Some(message) => seq![message] + told(pieces.drop_first()),
            None => told(pieces.drop_first()),
        }
    }
}

/// Where the first open place is.
proof fn lemma_first_open(bytes: Seq<u8>)
    ensures
        0 <= ubx::first_open(bytes) <= bytes.len(),
        forall|at: int|
            0 <= at < ubx::first_open(bytes) ==> !#[trigger] ubx::is_open(bytes, at),
        ubx::first_open(bytes) < bytes.len() ==> ubx::is_open(bytes, ubx::first_open(bytes)),
    decreases bytes.len(),
{
    if bytes.len() > 0 && !ubx::is_open(bytes, 0) {
        let rest = bytes.drop_first();
        lemma_first_open(rest);
        assert forall|at: int| 0 <= at < ubx::first_open(bytes) implies !#[trigger] ubx::is_open(
            bytes,
            at,
        ) by {
            if at > 0 {
                assert(!ubx::is_open(rest, at - 1));
            }
        }
    }
}

/// A place that is open, with none before it, is the first.
proof fn lemma_first_open_is(bytes: Seq<u8>, place: int)
    requires
        0 <= place <= bytes.len(),
        forall|at: int| 0 <= at < place ==> !#[trigger] ubx::is_open(bytes, at),
        place < bytes.len() ==> ubx::is_open(bytes, place),
    ensures
        ubx::first_open(bytes) == place,
{
    lemma_first_open(bytes);
    let found = ubx::first_open(bytes);
    if found < place {
        assert(!ubx::is_open(bytes, found));
    } else if place < found {
        assert(!ubx::is_open(bytes, place));
    }
}

/// What is not open stays so when more arrives.
proof fn lemma_more_opens_later(bytes: Seq<u8>, more: Seq<u8>)
    ensures
        ubx::first_open(bytes) <= ubx::first_open(bytes + more),
{
    lemma_first_open(bytes);
    lemma_first_open(bytes + more);
    let found = ubx::first_open(bytes + more);
    if found < ubx::first_open(bytes) {
        assert(!ubx::is_open(bytes, found));
        assert(ubx::is_open(bytes + more, found));
    }
}

/// Bytes that are dropped before an open place leave it open.
proof fn lemma_first_open_moves(bytes: Seq<u8>, count: int)
    requires
        0 <= count <= ubx::first_open(bytes),
    ensures
        ubx::first_open(bytes.skip(count)) == ubx::first_open(bytes) - count,
{
    lemma_first_open(bytes);
    let rest = bytes.skip(count);
    let place = ubx::first_open(bytes) - count;
    assert forall|at: int| 0 <= at < place implies !#[trigger] ubx::is_open(rest, at) by {
        assert(!ubx::is_open(bytes, at + count));
    }
    lemma_first_open_is(rest, place);
}

/// Noise has no open place, and none that stands before other bytes.
proof fn lemma_noise_is_not_open(noise: Seq<u8>, bytes: Seq<u8>)
    requires
        ubx::quiet(noise),
    ensures
        ubx::first_open(noise + bytes) == noise.len() + ubx::first_open(bytes),
        ubx::first_open(noise) == noise.len(),
{
    let all = noise + bytes;
    assert forall|at: int| 0 <= at < noise.len() implies !#[trigger] ubx::is_open(all, at) by {
        assert(all[at] == noise[at]);
    }
    lemma_first_open(bytes);
    let place = noise.len() + ubx::first_open(bytes);
    assert forall|at: int| 0 <= at < place implies !#[trigger] ubx::is_open(all, at) by {
        if at >= noise.len() {
            assert(!ubx::is_open(bytes, at - noise.len()));
        }
    }
    lemma_first_open_is(all, place);
    assert forall|at: int| 0 <= at < noise.len() implies !#[trigger] ubx::is_open(noise, at) by {
        assert(noise[at] == noise[at]);
    }
    lemma_first_open_is(noise, noise.len() as int);
}

/// The end of noise is noise, and so is noise behind noise.
proof fn lemma_noise_stays(noise: Seq<u8>, count: int, more: Seq<u8>)
    requires
        ubx::quiet(noise),
        0 <= count <= noise.len(),
    ensures
        ubx::quiet(noise.skip(count)),
        ubx::quiet(more) ==> ubx::quiet(noise + more),
{
    let end = noise.skip(count);
    assert forall|at: int|
        0 <= at < end.len() && #[trigger] end[at] == ubx::SYNC_CHAR_1 implies (at + 1 < end.len()
        && end[at + 1] != ubx::SYNC_CHAR_2) || ubx::is_absurd(end, at) by {
        assert(noise[at + count] == end[at]);
    }
    if ubx::quiet(more) {
        let all = noise + more;
        assert forall|at: int|
            0 <= at < all.len() && #[trigger] all[at] == ubx::SYNC_CHAR_1 implies (at + 1
            < all.len() && all[at + 1] != ubx::SYNC_CHAR_2) || ubx::is_absurd(all, at) by {
            if at < noise.len() {
                assert(noise[at] == all[at]);
            } else {
                assert(more[at - noise.len()] == all[at]);
            }
        }
    }
}

/// How much is dropped of a piece that begins to arrive.
proof fn lemma_gone(bytes: Seq<u8>, piece: Piece)
    ensures
        0 <= gone(bytes, piece) <= bytes.len(),
        gone(bytes, piece) <= piece.noise.len(),
        piece.begun(bytes) == bytes.skip(gone(bytes, piece)),
        bytes.len() <= piece.noise.len() ==> gone(bytes, piece) == ubx::first_open(bytes),
        bytes.len() > piece.noise.len() ==> gone(bytes, piece) == piece.noise.len(),
{
    lemma_first_open(bytes);
}

/// Dropping a first piece that has arrived leaves the others.
proof fn lemma_opens_behind(bytes: Seq<u8>, pieces: Seq<Piece>)
    requires
        opens(bytes, pieces),
        pieces.len() > 0,
        bytes.len() >= pieces[0].bytes().len(),
    ensures
        opens(bytes.skip(pieces[0].bytes().len() as int), pieces.drop_first()),
        bytes.take(pieces[0].bytes().len() as int) == pieces[0].bytes(),
{
    let len = pieces[0].bytes().len() as int;
    let rest = pieces.drop_first();
    let all = laid_out(pieces);
    assert forall|at: int| 0 <= at < rest.len() implies clean(#[trigger] rest[at]) by {
        assert(rest[at] == pieces[at + 1]);
    }
    assert forall|at: int|
        0 <= at < bytes.skip(len).len() && at < laid_out(rest).len() implies #[trigger] bytes.skip(
        len,
    )[at] == laid_out(rest)[at] by {
        assert(bytes[at + len] == all[at + len]);
    }
    assert forall|at: int| 0 <= at < len implies #[trigger] bytes.take(len)[at]
        == pieces[0].bytes()[at] by {
        assert(bytes[at] == all[at]);
    }
    assert(bytes.take(len) == pieces[0].bytes());
}

/// The beginning of a stream agrees with its first piece.
proof fn lemma_agrees_with_first(bytes: Seq<u8>, pieces: Seq<Piece>, count: int)
    requires
        opens(bytes, pieces),
        pieces.len() > 0,
        0 <= count <= bytes.len(),
    ensures
        ubx::agree(bytes.take(count), pieces[0].bytes()),
{
    let all = laid_out(pieces);
    let seen = bytes.take(count);
    let first = pieces[0].bytes();
    assert forall|at: int| 0 <= at < seen.len() && at < first.len() implies #[trigger] seen[at]
        == first[at] by {
        assert(bytes[at] == all[at]);
    }
}

/// Putting another first piece before the same others.
proof fn lemma_opens_with(bytes: Seq<u8>, first: Piece, rest: Seq<Piece>)
    requires
        clean(first),
        forall|at: int| 0 <= at < rest.len() ==> clean(#[trigger] rest[at]),
        ubx::agree(bytes, first.bytes() + laid_out(rest)),
    ensures
        opens(bytes, seq![first] + rest),
        laid_out(seq![first] + rest) == first.bytes() + laid_out(rest),
{
    let pieces = seq![first] + rest;
    assert(pieces.drop_first() == rest);
    assert forall|at: int| 0 <= at < pieces.len() implies clean(#[trigger] pieces[at]) by {
        if at > 0 {
            assert(pieces[at] == rest[at - 1]);
        }
    }
}

/// Noise that is gone changes nothing behind it.
#[verifier::rlimit(40)]
proof fn lemma_noise_goes(
    bytes: Seq<u8>,
    pieces: Seq<Piece>,
    count: int,
    wanted: spec_fn(MessageView) -> bool,
)
    requires
        opens(bytes, pieces),
        pieces.len() > 0,
        0 <= count <= gone(bytes, pieces[0]),
    ensures
        opens(bytes.skip(count), seq![trimmed(pieces[0], count)] + pieces.drop_first()),
        outcome(
            bytes.skip(count),
            seq![trimmed(pieces[0], count)] + pieces.drop_first(),
            wanted,
        ) == outcome(bytes, pieces, wanted),
{
    let first = pieces[0];
    let rest = pieces.drop_first();
    let left = trimmed(first, count);
    let all = laid_out(pieces);
    lemma_gone(bytes, first);
    assert(left.frame() == first.frame());
    assert(left.bytes() == first.bytes().skip(count));
    assert(clean(first));
    lemma_noise_stays(first.noise, count, Seq::empty());
    assert(clean(left));
    assert forall|at: int| 0 <= at < rest.len() implies clean(#[trigger] rest[at]) by {
        assert(rest[at] == pieces[at + 1]);
    }
    let shorter = bytes.skip(count);
    assert forall|at: int|
        0 <= at < shorter.len() && at < (left.bytes() + laid_out(rest)).len() implies #[trigger]
    shorter[at] == (left.bytes() + laid_out(rest))[at] by {
        assert(bytes[at + count] == all[at + count]);
    }
    lemma_opens_with(shorter, left, rest);
    let later = seq![left] + rest;
    assert(later.drop_first() == rest);
    assert(later[0] == left);
    if bytes.len() < first.needed() {
        if bytes.len() <= first.noise.len() {
            lemma_first_open_moves(bytes, count);
        }
        assert(left.begun(shorter) == first.begun(bytes));
    } else if bytes.len() < first.bytes().len() {
        assert(shorter.skip(left.noise.len() + SYNC_LEN) == bytes.skip(
            first.noise.len() + SYNC_LEN,
        ));
    } else {
        let len = first.bytes().len() as int;
        assert(shorter.skip(left.bytes().len() as int) == bytes.skip(len));
    }
}

/// What a damaged frame leaves is noise before what follows.
#[verifier::rlimit(60)]
proof fn lemma_damage_is_noise(
    bytes: Seq<u8>,
    pieces: Seq<Piece>,
    wanted: spec_fn(MessageView) -> bool,
)
    requires
        opens(bytes, pieces),
        pieces.len() > 0,
        !(pieces[0].sound() && bytes.len() >= pieces[0].bytes().len()),
        bytes.len() >= pieces[0].needed(),
        outcome(bytes, pieces, wanted) is Some,
    ensures
        exists|left: Seq<Piece>| #[trigger]
            opens(bytes.skip(pieces[0].noise.len() + SYNC_LEN), left) && outcome(
                bytes.skip(pieces[0].noise.len() + SYNC_LEN),
                left,
                wanted,
            ) == outcome(bytes, pieces, wanted),
{
    let first = pieces[0];
    let rest = pieces.drop_first();
    let used = first.noise.len() + SYNC_LEN;
    let noise = remains(first);
    let later = bytes.skip(used);
    let all = laid_out(pieces);
    assert(clean(first));
    assert(first.bytes().skip(used) == noise);
    assert(first.bytes().len() == used + noise.len());
    // What follows the first piece, if it has arrived.
    let whole = bytes.len() >= first.bytes().len();
    let behind = if whole {
        bytes.skip(first.bytes().len() as int)
    } else {
        Seq::empty()
    };
    if whole {
        lemma_opens_behind(bytes, pieces);
        assert(later == noise + behind) by {
            assert(bytes == bytes.take(first.bytes().len() as int) + behind);
        }
        assert(outcome(bytes, pieces, wanted) == outcome(behind, rest, wanted));
    }
    if rest.len() > 0 {
        let next = rest[0];
        let joined = Piece { noise: noise + next.noise, ..next };
        let others = rest.drop_first();
        assert(next == pieces[1]);
        assert(clean(next));
        assert(joined.frame() == next.frame());
        assert(joined.bytes() == noise + next.bytes());
        lemma_noise_stays(noise, 0, next.noise);
        assert(clean(joined));
        assert forall|at: int| 0 <= at < others.len() implies clean(#[trigger] others[at]) by {
            assert(others[at] == pieces[at + 2]);
        }
        assert(joined.bytes() + laid_out(others) == noise + laid_out(rest));
        assert forall|at: int|
            0 <= at < later.len() && at < (joined.bytes() + laid_out(others)).len() implies #[trigger]
        later[at] == (joined.bytes() + laid_out(others))[at] by {
            assert(bytes[at + used] == all[at + used]);
        }
        lemma_opens_with(later, joined, others);
        let left = seq![joined] + others;
        assert(left[0] == joined);
        assert(left.drop_first() == others);
        if whole {
            if behind.len() < next.needed() {
                lemma_noise_is_not_open(noise, behind);
                lemma_first_open(behind);
                assert(joined.begun(later) == next.begun(behind));
            } else if behind.len() < next.bytes().len() {
                assert(later.skip(joined.noise.len() + SYNC_LEN) == behind.skip(
                    next.noise.len() + SYNC_LEN,
                ));
            } else {
                assert(later.skip(joined.bytes().len() as int) == behind.skip(
                    next.bytes().len() as int,
                ));
            }
        }
        assert(opens(later, left));
    } else {
        // Nothing has arrived behind the damaged frame.
        let empty = Seq::<u8>::empty();
        let check = ubx::fletcher(ubx::frame_body(0, 0, empty));
        let body = ubx::Body::Whole { payload: empty, check };
        let none = Piece { noise, class: 0, id: 0, body };
        assert(behind == empty);
        assert forall|at: int|
            0 <= at < later.len() && at < (none.bytes() + laid_out(
                Seq::<Piece>::empty(),
            )).len() implies #[trigger] later[at] == (none.bytes() + laid_out(
            Seq::<Piece>::empty(),
        ))[at] by {
            assert(bytes[at + used] == all[at + used]);
        }
        lemma_opens_with(later, none, Seq::empty());
        let left = seq![none] + Seq::<Piece>::empty();
        assert(left[0] == none);
        lemma_noise_is_not_open(noise, empty);
        if whole {
            assert(later == noise);
            assert(none.begun(later) == empty);
        }
        assert(opens(later, left));
    }
}

/// What a parser that was given the first `count` of `bytes` found, and what
/// it holds, takes the reading of `bytes` a step further.
pub proof fn lemma_frame_leads_on(
    bytes: Seq<u8>,
    count: int,
    frame: Option<UbxFrameView>,
    held: Seq<u8>,
)
    requires
        0 <= count <= bytes.len(),
        count <= PARSER_BUF,
        forall|piece: Piece| #[trigger]
            ubx::arriving(bytes.take(count), piece) ==> frame is None && held == piece.begun(
                bytes.take(count),
            ),
        forall|piece: Piece| #[trigger]
            ubx::arrived(bytes.take(count), piece) ==> ubx::comes_of(
                bytes.take(count),
                piece,
                frame,
                held,
            ),
    ensures
        ({
            let rest = held + bytes.skip(count);
            match frame {
                Some(frame) if understood(frame) is Some => settles(
                    bytes,
                    any(),
                    understood(frame),
                    rest,
                ),
                _ => leads_to(bytes, rest, any()),
            }
        }),
        frame is None && count == bytes.len() ==> settles(bytes, any(), None, held),
{
    let rest = held + bytes.skip(count);
    let message = match frame {
        Some(frame) => understood(frame),
        None => None,
    };
    assert forall|pieces: Seq<Piece>| #[trigger]
        opens(bytes, pieces) && outcome(bytes, pieces, any()) is Some implies (if message is Some {
        outcome(bytes, pieces, any()) == Some((message, rest))
    } else {
        &&& exists|left: Seq<Piece>| #[trigger]
            opens(rest, left) && outcome(rest, left, any()) == outcome(bytes, pieces, any())
        &&& frame is None && count == bytes.len() ==> outcome(bytes, pieces, any()) == Some(
            (None::<MessageView>, held),
        )
    }) by {
        lemma_step(bytes, pieces, count, frame, held);
    }
}

/// The step of [`lemma_frame_leads_on`] for the pieces that are there.
#[verifier::rlimit(40)]
proof fn lemma_step(
    bytes: Seq<u8>,
    pieces: Seq<Piece>,
    count: int,
    frame: Option<UbxFrameView>,
    held: Seq<u8>,
)
    requires
        opens(bytes, pieces),
        outcome(bytes, pieces, any()) is Some,
        0 <= count <= bytes.len(),
        count <= PARSER_BUF,
        forall|piece: Piece| #[trigger]
            ubx::arriving(bytes.take(count), piece) ==> frame is None && held == piece.begun(
                bytes.take(count),
            ),
        forall|piece: Piece| #[trigger]
            ubx::arrived(bytes.take(count), piece) ==> ubx::comes_of(
                bytes.take(count),
                piece,
                frame,
                held,
            ),
    ensures
        ({
            let rest = held + bytes.skip(count);
            let message = match frame {
                Some(frame) => understood(frame),
                None => None,
            };
            if message is Some {
                outcome(bytes, pieces, any()) == Some((message, rest))
            } else {
                &&& exists|left: Seq<Piece>| #[trigger]
                    opens(rest, left) && outcome(rest, left, any()) == outcome(
                        bytes,
                        pieces,
                        any(),
                    )
                &&& frame is None && count == bytes.len() ==> outcome(bytes, pieces, any())
                    == Some((None::<MessageView>, held))
            }
        }),
{
    let seen = bytes.take(count);
    let rest = held + bytes.skip(count);
    if pieces.len() == 0 {
        let empty = Seq::<u8>::empty();
        let body = ubx::Body::Whole { payload: empty, check: (0, 0) };
        let none = Piece { noise: empty, class: 0, id: 0, body };
        assert(ubx::arriving(seen, none));
        assert(none.begun(seen) == empty);
        assert(rest == bytes);
        assert(opens(rest, pieces));
    } else {
        let first = pieces[0];
        assert(clean(first));
        lemma_agrees_with_first(bytes, pieces, count);
        if count < first.needed() {
            assert(ubx::arriving(seen, first));
            lemma_arriving_leads_on(bytes, pieces, count, any());
            assert(rest == bytes.skip(gone(seen, first)));
            if count == bytes.len() {
                assert(seen == bytes);
            }
        } else {
            let len = first.bytes().len() as int;
            assert(ubx::arrived(seen, first));
            if first.sound() {
                lemma_opens_behind(bytes, pieces);
                assert(rest == bytes.skip(len));
                assert(said(first) == understood(frame.unwrap()));
                assert(opens(rest, pieces.drop_first()));
            } else {
                let used = first.noise.len() + SYNC_LEN;
                assert(rest == bytes.skip(used));
                lemma_damage_is_noise(bytes, pieces, any());
            }
        }
    }
}

/// Noise that a parser dropped while a piece was arriving is gone.
proof fn lemma_arriving_leads_on(
    bytes: Seq<u8>,
    pieces: Seq<Piece>,
    count: int,
    wanted: spec_fn(MessageView) -> bool,
)
    requires
        opens(bytes, pieces),
        pieces.len() > 0,
        0 <= count <= bytes.len(),
        count < pieces[0].needed(),
    ensures
        ({
            let used = gone(bytes.take(count), pieces[0]);
            let left = seq![trimmed(pieces[0], used)] + pieces.drop_first();
            &&& 0 <= used <= count
            &&& used <= pieces[0].noise.len()
            &&& pieces[0].begun(bytes.take(count)) + bytes.skip(count) == bytes.skip(used)
            &&& opens(bytes.skip(used), left)
            &&& outcome(bytes.skip(used), left, wanted) == outcome(bytes, pieces, wanted)
        }),
{
    let first = pieces[0];
    let seen = bytes.take(count);
    let used = gone(seen, first);
    lemma_gone(seen, first);
    lemma_gone(bytes, first);
    assert(seen + bytes.skip(count) == bytes);
    lemma_more_opens_later(seen, bytes.skip(count));
    lemma_noise_goes(bytes, pieces, used, wanted);
    assert(first.begun(seen) + bytes.skip(count) == bytes.skip(used));
}

/// What a parser found in all of `bytes`, having found nothing in the first
/// `count` of them, takes the reading of `bytes` a step further. The bytes from
/// `held` on, which the parser holds, may be fewer than there are.
#[verifier::rlimit(40)]
pub proof fn lemma_chunk_leads_on(
    bytes: Seq<u8>,
    count: int,
    before: Seq<u8>,
    frame: Option<UbxFrameView>,
    held: Seq<u8>,
    rest: Seq<u8>,
)
    requires
        0 <= count < bytes.len() <= count + RX_CHUNK,
        count <= PARSER_BUF,
        forall|piece: Piece| #[trigger]
            ubx::arriving(bytes.take(count), piece) ==> before == piece.begun(bytes.take(count)),
        forall|piece: Piece| !#[trigger] ubx::arrived(bytes.take(count), piece),
        forall|piece: Piece| #[trigger]
            ubx::arriving(before + bytes.skip(count), piece) ==> frame is None && held
                == piece.begun(before + bytes.skip(count)),
        forall|piece: Piece| #[trigger]
            ubx::arrived(before + bytes.skip(count), piece) ==> ubx::comes_of(
                before + bytes.skip(count),
                piece,
                frame,
                held,
            ),
        ({
            let all = before + bytes.skip(count);
            rest == if frame is Some && all.len() > PARSER_BUF + SYNC_LEN && held.len()
                == PARSER_BUF {
                held + all.skip(PARSER_BUF + SYNC_LEN)
            } else {
                held
            }
        }),
    ensures
        match frame {
            Some(frame) if understood(frame) is Some => settles(
                bytes,
                any(),
                understood(frame),
                rest,
            ),
            _ => leads_to(bytes, rest, any()),
        },
        frame is None ==> settles(bytes, any(), None, rest),
{
    let message = match frame {
        Some(frame) => understood(frame),
        None => None,
    };
    assert forall|pieces: Seq<Piece>| #[trigger]
        opens(bytes, pieces) && outcome(bytes, pieces, any()) is Some implies (if message is Some {
        outcome(bytes, pieces, any()) == Some((message, rest))
    } else {
        &&& exists|left: Seq<Piece>| #[trigger]
            opens(rest, left) && outcome(rest, left, any()) == outcome(bytes, pieces, any())
        &&& frame is None ==> outcome(bytes, pieces, any()) == Some((None::<MessageView>, rest))
    }) by {
        assert(pieces.len() > 0);
        let seen = bytes.take(count);
        let first = pieces[0];
        lemma_agrees_with_first(bytes, pieces, count);
        assert(clean(first));
        lemma_first_open(seen);
        if count >= first.needed() {
            assert(ubx::arrived(seen, first));
        }
        assert(ubx::arriving(seen, first));
        lemma_arriving_leads_on(bytes, pieces, count, any());
        lemma_gone(seen, first);
        let used = gone(seen, first);
        let all = before + bytes.skip(count);
        let left = seq![trimmed(first, used)] + pieces.drop_first();
        assert(all == bytes.skip(used));
        lemma_chunk_step(all, left, before.len() as int, frame, held, rest);
    }
}

/// The step of [`lemma_chunk_leads_on`] once the noise that was dropped is
/// gone.
#[verifier::rlimit(40)]
proof fn lemma_chunk_step(
    bytes: Seq<u8>,
    pieces: Seq<Piece>,
    before: int,
    frame: Option<UbxFrameView>,
    held: Seq<u8>,
    rest: Seq<u8>,
)
    requires
        opens(bytes, pieces),
        outcome(bytes, pieces, any()) is Some,
        pieces.len() > 0,
        0 <= before <= bytes.len() <= before + RX_CHUNK,
        before <= PARSER_BUF,
        before < pieces[0].needed(),
        before >= ubx::HEADER_LEN ==> pieces[0].noise.len() == 0,
        forall|piece: Piece| #[trigger]
            ubx::arriving(bytes, piece) ==> frame is None && held == piece.begun(bytes),
        forall|piece: Piece| #[trigger]
            ubx::arrived(bytes, piece) ==> ubx::comes_of(bytes, piece, frame, held),
        rest == if frame is Some && bytes.len() > PARSER_BUF + SYNC_LEN && held.len()
            == PARSER_BUF {
            held + bytes.skip(PARSER_BUF + SYNC_LEN)
        } else {
            held
        },
    ensures
        ({
            let message = match frame {
                Some(frame) => understood(frame),
                None => None,
            };
            if message is Some {
                outcome(bytes, pieces, any()) == Some((message, rest))
            } else {
                &&& exists|left: Seq<Piece>| #[trigger]
                    opens(rest, left) && outcome(rest, left, any()) == outcome(
                        bytes,
                        pieces,
                        any(),
                    )
                &&& frame is None ==> outcome(bytes, pieces, any()) == Some(
                    (None::<MessageView>, rest),
                )
            }
        }),
{
    let first = pieces[0];
    let len = first.bytes().len() as int;
    assert(clean(first));
    assert(bytes.take(bytes.len() as int) == bytes);
    lemma_agrees_with_first(bytes, pieces, bytes.len() as int);
    if bytes.len() < first.needed() {
        assert(ubx::arriving(bytes, first));
        lemma_arriving_leads_on(bytes, pieces, bytes.len() as int, any());
        assert(rest == bytes.skip(gone(bytes, first)));
    } else {
        assert(ubx::arrived(bytes, first));
        if first.sound() && bytes.len() >= len {
            lemma_opens_behind(bytes, pieces);
            assert(rest == bytes.skip(len));
            assert(said(first) == understood(frame.unwrap()));
            assert(opens(rest, pieces.drop_first()));
        } else {
            let used = first.noise.len() + SYNC_LEN;
            if bytes.len() - used > PARSER_BUF {
                assert(used == SYNC_LEN);
                assert(held + bytes.skip(PARSER_BUF + SYNC_LEN) == bytes.skip(used));
            }
            assert(rest == bytes.skip(used));
            lemma_damage_is_noise(bytes, pieces, any());
        }
    }
}

/// Reading on from where reading on leads.
pub proof fn lemma_leads_on(
    bytes: Seq<u8>,
    later: Seq<u8>,
    wanted: spec_fn(MessageView) -> bool,
    message: Option<MessageView>,
    rest: Seq<u8>,
)
    requires
        leads_to(bytes, later, wanted),
    ensures
        settles(later, wanted, message, rest) ==> settles(bytes, wanted, message, rest),
        leads_to(later, rest, wanted) ==> leads_to(bytes, rest, wanted),
{
}

/// Reading leads to itself.
pub proof fn lemma_leads_to_itself(bytes: Seq<u8>, wanted: spec_fn(MessageView) -> bool)
    ensures
        leads_to(bytes, bytes, wanted),
{
}

/// What the next message of any kind says of the next that is wanted.
pub proof fn lemma_wanted_or_not(
    bytes: Seq<u8>,
    wanted: spec_fn(MessageView) -> bool,
    message: Option<MessageView>,
    rest: Seq<u8>,
)
    requires
        settles(bytes, any(), message, rest),
    ensures
        message is None || wanted(message.unwrap()) ==> settles(bytes, wanted, message, rest),
        message matches Some(other) && !wanted(other) ==> leads_to(bytes, rest, wanted),
{
    assert forall|pieces: Seq<Piece>| #[trigger]
        opens(bytes, pieces) && outcome(bytes, pieces, wanted) is Some implies (if message is None
        || wanted(message.unwrap()) {
        outcome(bytes, pieces, wanted) == Some((message, rest))
    } else {
        exists|left: Seq<Piece>| #[trigger]
            opens(rest, left) && outcome(rest, left, wanted) == outcome(bytes, pieces, wanted)
    }) by {
        lemma_any_before_wanted(bytes, pieces, wanted);
        let left = behind(pieces, any());
        assert(outcome(bytes, pieces, any()) == Some((message, rest)));
        if message is Some {
            assert(opens(rest, left));
        }
    }
}

/// The first message of any kind stands no later than the first that is
/// wanted.
proof fn lemma_any_before_wanted(
    bytes: Seq<u8>,
    pieces: Seq<Piece>,
    wanted: spec_fn(MessageView) -> bool,
)
    requires
        opens(bytes, pieces),
        outcome(bytes, pieces, wanted) is Some,
    ensures
        outcome(bytes, pieces, any()) is Some,
        ({
            let (message, rest) = outcome(bytes, pieces, any()).unwrap();
            let left = behind(pieces, any());
            match message {
                Some(message) => {
                    &&& opens(rest, left)
                    &&& outcome(bytes, pieces, wanted) == if wanted(message) {
                        Some((Some(message), rest))
                    } else {
                        outcome(rest, left, wanted)
                    }
                },
                None => outcome(bytes, pieces, wanted) == outcome(bytes, pieces, any()),
            }
        }),
    decreases pieces.len(),
{
    if pieces.len() > 0 && bytes.len() >= pieces[0].needed() && bytes.len()
        >= pieces[0].bytes().len() {
        lemma_opens_behind(bytes, pieces);
        if said(pieces[0]) is None {
            lemma_any_before_wanted(
                bytes.skip(pieces[0].bytes().len() as int),
                pieces.drop_first(),
                wanted,
            );
        }
    }
}

/// Whether `pieces` are enough to know what comes of each of them: behind a
/// header with a length that is too long, they fill the parser's buffer.
pub open spec fn resolved(pieces: Seq<Piece>) -> bool
    decreases pieces.len(),
{
    pieces.len() == 0 || {
        &&& laid_out(pieces).len() >= pieces[0].needed()
        &&& resolved(pieces.drop_first())
    }
}

/// The messages in a stream come out one after the other, whatever noise,
/// other messages, damaged frames and damaged headers stand between them:
/// reading gives the first of them and leaves a stream with the others, or
/// nothing if there is none.
pub proof fn law_messages_come_out_in_order(pieces: Seq<Piece>)
    requires
        forall|at: int| 0 <= at < pieces.len() ==> clean(#[trigger] pieces[at]),
        resolved(pieces),
    ensures
        opens(laid_out(pieces), pieces),
        told(pieces).len() == 0 ==> outcome(laid_out(pieces), pieces, any()) == Some(
            (None::<MessageView>, Seq::<u8>::empty()),
        ),
        told(pieces).len() > 0 ==> {
            &&& outcome(laid_out(pieces), pieces, any()) == Some(
                (Some(told(pieces)[0]), laid_out(behind(pieces, any()))),
            )
            &&& told(behind(pieces, any())) == told(pieces).drop_first()
            &&& behind(pieces, any()).len() < pieces.len()
            &&& resolved(behind(pieces, any()))
            &&& forall|at: int|
                0 <= at < behind(pieces, any()).len() ==> clean(
                    #[trigger] behind(pieces, any())[at],
                )
        },
    decreases pieces.len(),
{
    if pieces.len() > 0 {
        let rest = pieces.drop_first();
        assert forall|at: int| 0 <= at < rest.len() implies clean(#[trigger] rest[at]) by {
            assert(rest[at] == pieces[at + 1]);
        }
        assert(laid_out(pieces).skip(pieces[0].bytes().len() as int) == laid_out(rest));
        law_messages_come_out_in_order(rest);
        if let Some(message) = said(pieces[0]) {
            assert((seq![message] + told(rest)).drop_first() == told(rest));
        }
    }
}

/// Where a stream is cut does not matter: once what came before the cut has
/// been read out, what was held of it and what comes behind the cut give what
/// the whole would have given. This is so of frames that the parser's buffer
/// has room for; a longer one is taken only if the end of it comes at once.
pub proof fn law_cut_does_not_matter(
    bytes: Seq<u8>,
    more: Seq<u8>,
    pieces: Seq<Piece>,
    wanted: spec_fn(MessageView) -> bool,
    held: Seq<u8>,
)
    requires
        opens(bytes + more, pieces),
        forall|at: int| 0 <= at < pieces.len() ==> (#[trigger] pieces[at]).frame().len() <= PARSER_BUF,
        outcome(bytes, pieces, wanted) == Some((None::<MessageView>, held)),
    ensures
        opens(held + more, remaining(bytes, pieces)),
        outcome(held + more, remaining(bytes, pieces), wanted) == outcome(
            bytes + more,
            pieces,
            wanted,
        ),
    decreases pieces.len(),
{
    let whole = bytes + more;
    if pieces.len() == 0 {
        assert(held + more == whole);
    } else {
        let len = pieces[0].bytes().len() as int;
        assert(pieces[0].frame().len() <= PARSER_BUF);
        if bytes.len() < pieces[0].needed() {
            assert(whole.take(bytes.len() as int) == bytes);
            assert(whole.skip(bytes.len() as int) == more);
            lemma_arriving_leads_on(whole, pieces, bytes.len() as int, wanted);
        } else {
            lemma_opens_behind(whole, pieces);
            assert(whole.skip(len) == bytes.skip(len) + more);
            let rest = pieces.drop_first();
            assert forall|at: int| 0 <= at < rest.len() implies (#[trigger] rest[at]).frame().len()
                <= PARSER_BUF by {
                assert(rest[at] == pieces[at + 1]);
            }
            law_cut_does_not_matter(bytes.skip(len), more, rest, wanted, held);
        }
    }
}

} // verus!
