//! Frames: a body of bytes behind its length in four bytes, least significant
//! first.

use crate::secret::wipe_and_drop_front;
use vstd::prelude::*;

verus! {

/// The longest body that a frame may have.
pub const MAX_FRAME: u32 = 65536;

/// A frame that declares a length above [`MAX_FRAME`].
#[derive(Debug, Clone, Copy, PartialEq, Eq, Structural)]
pub enum FrameError {
    TooLarge(u32),
}

/// `n` in four bytes, least significant first.
pub open spec fn prefix(n: int) -> Seq<u8> {
    seq![
        (n % 256) as u8,
        (n / 256 % 256) as u8,
        (n / 65536 % 256) as u8,
        (n / 16777216 % 256) as u8,
    ]
}

/// The number in the first four bytes, least significant first.
pub open spec fn declared(bytes: Seq<u8>) -> int {
    bytes[0] + 256 * bytes[1] + 65536 * bytes[2] + 16777216 * bytes[3]
}

/// A body as a frame.
pub open spec fn framed(body: Seq<u8>) -> Seq<u8> {
    prefix(body.len() as int) + body
}

/// The frames of a list of bodies, one after the other.
pub open spec fn all_framed(bodies: Seq<Seq<u8>>) -> Seq<u8>
    decreases bodies.len(),
{
    if bodies.len() == 0 {
        Seq::empty()
    } else {
        framed(bodies[0]) + all_framed(bodies.drop_first())
    }
}

/// What a stretch of bytes holds: the bodies of its complete frames, what
/// follows them, and the length of a frame that is too large, where that is
/// why they end.
pub ghost struct Unframed {
    pub bodies: Seq<Seq<u8>>,
    pub rest: Seq<u8>,
    pub too_large: Option<int>,
}

/// The complete frames at the front of `bytes`.
pub open spec fn unframed(bytes: Seq<u8>) -> Unframed
    decreases bytes.len(),
{
    if bytes.len() < 4 {
        Unframed { bodies: Seq::empty(), rest: bytes, too_large: None }
    } else if declared(bytes) > MAX_FRAME {
        Unframed { bodies: Seq::empty(), rest: bytes, too_large: Some(declared(bytes)) }
    } else if bytes.len() < 4 + declared(bytes) {
        Unframed { bodies: Seq::empty(), rest: bytes, too_large: None }
    } else {
        let end = 4 + declared(bytes);
        let after = unframed(bytes.skip(end));
        Unframed {
            bodies: seq![bytes.subrange(4, end)] + after.bodies,
            rest: after.rest,
            too_large: after.too_large,
        }
    }
}

/// The bytes of each of a list of bodies.
pub open spec fn byte_views(list: Seq<Vec<u8>>) -> Seq<Seq<u8>> {
    Seq::new(list.len(), |i: int| list[i]@)
}

/// A length in four bytes, least significant first.
pub fn length_prefix(len: u32) -> (r: Vec<u8>)
    ensures
        r@ == prefix(len as int),
{
    let mut out: Vec<u8> = Vec::new();
    out.push((len % 256) as u8);
    out.push((len / 256 % 256) as u8);
    out.push((len / 65536 % 256) as u8);
    out.push((len / 16777216 % 256) as u8);
    assert(out@ =~= prefix(len as int));
    out
}

/// The length that the first four bytes declare.
pub fn declared_length(bytes: &Vec<u8>) -> (r: u32)
    requires
        bytes.len() >= 4,
    ensures
        r == declared(bytes@),
{
    bytes[0] as u32 + 256 * bytes[1] as u32 + 65536 * bytes[2] as u32 + 16777216 * bytes[3] as u32
}

/// Takes the complete frames off the front of `inbox` and wipes them there.
/// Fails at a frame that declares too large a length and leaves it there.
pub fn take_frames(inbox: &mut Vec<u8>) -> (r: Result<Vec<Vec<u8>>, FrameError>)
    ensures
        final(inbox)@ == unframed(old(inbox)@).rest,
        match unframed(old(inbox)@).too_large {
            Some(n) => r == Err::<Vec<Vec<u8>>, FrameError>(FrameError::TooLarge(n as u32)),
            None => r is Ok && byte_views(r->Ok_0@) == unframed(old(inbox)@).bodies,
        },
{
    let ghost all = unframed(inbox@);
    let mut out: Vec<Vec<u8>> = Vec::new();
    assert(byte_views(out@) + all.bodies =~= all.bodies);
    loop
        invariant
            all == unframed(old(inbox)@),
            byte_views(out@) + unframed(inbox@).bodies == all.bodies,
            unframed(inbox@).rest == all.rest,
            unframed(inbox@).too_large == all.too_large,
        decreases inbox.len(),
    {
        if inbox.len() < 4 {
            assert(byte_views(out@) =~= all.bodies);
            return Ok(out);
        }
        let len: u32 = declared_length(inbox);
        if len > MAX_FRAME {
            return Err(FrameError::TooLarge(len));
        }
        let end: usize = 4 + len as usize;
        if inbox.len() < end {
            assert(byte_views(out@) =~= all.bodies);
            return Ok(out);
        }
        let ghost before = inbox@;
        let mut body: Vec<u8> = Vec::new();
        let mut i: usize = 4;
        while i < end
            invariant
                4 <= i <= end <= inbox.len(),
                inbox@ == before,
                body@ == before.subrange(4, i as int),
            decreases end - i,
        {
            body.push(inbox[i]);
            i += 1;
            assert(before.subrange(4, i as int) =~= before.subrange(4, i - 1).push(before[i - 1]));
        }
        wipe_and_drop_front(inbox, end);
        proof {
            let taken = seq![before.subrange(4, end as int)];
            assert(byte_views(out@.push(body)) =~= byte_views(out@) + taken);
            assert(byte_views(out@) + (taken + unframed(inbox@).bodies) =~= byte_views(out@) + taken
                + unframed(inbox@).bodies);
        }
        out.push(body);
    }
}

proof fn lemma_prefix_declares(n: int, rest: Seq<u8>)
    requires
        0 <= n < 0x1_0000_0000,
    ensures
        declared(prefix(n) + rest) == n,
{
    let b = prefix(n) + rest;
    assert(b[0] == (n % 256) as u8);
    assert(b[1] == (n / 256 % 256) as u8);
    assert(b[2] == (n / 65536 % 256) as u8);
    assert(b[3] == (n / 16777216 % 256) as u8);
}

proof fn lemma_first_frame(body: Seq<u8>, rest: Seq<u8>)
    requires
        body.len() <= MAX_FRAME,
    ensures
        unframed(framed(body) + rest) == (Unframed {
            bodies: seq![body] + unframed(rest).bodies,
            rest: unframed(rest).rest,
            too_large: unframed(rest).too_large,
        }),
{
    let n = body.len() as int;
    let bytes = framed(body) + rest;
    assert(bytes =~= prefix(n) + (body + rest));
    lemma_prefix_declares(n, body + rest);
    assert(bytes.subrange(4, 4 + n) =~= body);
    assert(bytes.skip(4 + n) =~= rest);
}

/// Frames are read back as they were written: a list of bodies, each within
/// the limit, comes out of their frames unchanged, and nothing is left.
pub proof fn law_frames_round_trip(bodies: Seq<Seq<u8>>)
    requires
        forall|i: int| 0 <= i < bodies.len() ==> (#[trigger] bodies[i]).len() <= MAX_FRAME,
    ensures
        unframed(all_framed(bodies)) == (Unframed {
            bodies,
            rest: Seq::empty(),
            too_large: None,
        }),
    decreases bodies.len(),
{
    if bodies.len() == 0 {
        assert(unframed(all_framed(bodies)).bodies =~= bodies);
    } else {
        let after = bodies.drop_first();
        assert forall|i: int| 0 <= i < after.len() implies (#[trigger] after[i]).len()
            <= MAX_FRAME by {
            assert(after[i] == bodies[i + 1]);
        }
        law_frames_round_trip(after);
        lemma_first_frame(bodies[0], all_framed(after));
        assert(seq![bodies[0]] + after =~= bodies);
    }
}

/// It does not matter in which pieces the bytes arrive: the frames of `a`,
/// followed by those of what `a` left and `b`, are the frames of `a + b`.
pub proof fn law_frames_of_pieces(a: Seq<u8>, b: Seq<u8>)
    requires
        unframed(a).too_large is None,
    ensures
        unframed(a + b).bodies == unframed(a).bodies + unframed(unframed(a).rest + b).bodies,
        unframed(a + b).rest == unframed(unframed(a).rest + b).rest,
        unframed(a + b).too_large == unframed(unframed(a).rest + b).too_large,
    decreases a.len(),
{
    if a.len() < 4 || a.len() < 4 + declared(a) {
        assert(unframed(a).bodies + unframed(a + b).bodies =~= unframed(a + b).bodies);
    } else {
        let end = 4 + declared(a);
        let rest = a.skip(end);
        assert(declared(a + b) == declared(a));
        assert((a + b).skip(end) =~= rest + b);
        assert((a + b).subrange(4, end) =~= a.subrange(4, end));
        law_frames_of_pieces(rest, b);
        let first = seq![a.subrange(4, end)];
        assert(first + (unframed(rest).bodies + unframed(unframed(rest).rest + b).bodies) =~= first
            + unframed(rest).bodies + unframed(unframed(rest).rest + b).bodies);
    }
}

/// The length stands in front of a body with its lowest byte first, and is read
/// back from there; a body of the largest size is still let through.
pub proof fn law_length_prefix(n: int, rest: Seq<u8>)
    requires
        0 <= n < 0x1_0000_0000,
    ensures
        prefix(n).len() == 4,
        n == prefix(n)[0] + 0x100 * prefix(n)[1] + 0x1_0000 * prefix(n)[2] + 0x100_0000
            * prefix(n)[3],
        declared(prefix(n) + rest) == n,
        MAX_FRAME == 64 * 1024,
{
}

/// What declares more than is let through is refused, and nothing is taken of
/// it; what is not there in full is waited for.
pub proof fn law_frames_are_held_to_their_length(n: int, part: Seq<u8>)
    requires
        0 <= n < 0x1_0000_0000,
    ensures
        n > 64 * 1024 ==> unframed(prefix(n) + part).too_large == Some(n) && unframed(
            prefix(n) + part,
        ).bodies.len() == 0,
        n <= 64 * 1024 && part.len() < n ==> unframed(prefix(n) + part) == (Unframed {
            bodies: Seq::empty(),
            rest: prefix(n) + part,
            too_large: None,
        }),
{
    law_length_prefix(n, part);
}

} // verus!
