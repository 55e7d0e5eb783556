use vstd::prelude::*;

verus! {

/// Size in bytes of one HID output report.
pub const FRAME_SIZE: usize = 32;

/// Byte that separates the delimited fields of a payload (`'\n'`).
pub const DELIMITER: u8 = 10;

/// Position of the event type byte in the first frame, right after the header magic.
pub const TYPE_BIT: usize = 3;

/// The magic bytes that open the first frame.
pub open spec fn header_magic() -> Seq<u8> {
    seq![0xFAu8, 0x00u8, 0xF0u8]
}

/// The magic bytes that open the last frame.
pub open spec fn footer_magic() -> Seq<u8> {
    seq![0xAFu8, 0x00u8, 0x0Fu8, 0x00u8]
}

/// Bytes spent on framing rather than payload: a whole header frame and a
/// whole footer frame.
pub open spec fn control_bytes() -> nat {
    2 * FRAME_SIZE as nat
}

/// Number of frames that carry payload bytes.
pub open spec fn payload_frame_count(len: nat) -> nat {
    ((len + FRAME_SIZE - 1) / FRAME_SIZE as int) as nat
}

/// Number of frames of an event whose payload has `len` bytes.
pub open spec fn frame_count(len: nat) -> nat {
    payload_frame_count(len) + 2
}

/// Byte `k` of the stream sent for an event of type code `t` and payload `p`:
/// a header frame, the payload zero-padded to whole frames, a footer frame.
pub open spec fn stream_byte(t: u8, p: Seq<u8>, k: int) -> u8 {
    let body_end = FRAME_SIZE as int * (payload_frame_count(p.len()) + 1);
    if k < FRAME_SIZE as int {
        if k < 3 {
            header_magic()[k]
        } else if k == TYPE_BIT as int {
            t
        } else {
            0
        }
    } else if k < body_end {
        if k - FRAME_SIZE < p.len() {
            p[k - FRAME_SIZE]
        } else {
            0
        }
    } else if k - body_end < 4 {
        footer_magic()[k - body_end]
    } else {
        0
    }
}

/// The whole byte stream of an event.
pub open spec fn stream(t: u8, p: Seq<u8>) -> Seq<u8> {
    Seq::new(FRAME_SIZE as nat * frame_count(p.len()), |k: int| stream_byte(t, p, k))
}

/// The frames of an event: consecutive `FRAME_SIZE`-byte windows of its stream.
pub open spec fn frames_of(t: u8, p: Seq<u8>) -> Seq<Seq<u8>> {
    Seq::new(
        frame_count(p.len()),
        |i: int| Seq::new(FRAME_SIZE as nat, |j: int| stream_byte(t, p, FRAME_SIZE * i + j)),
    )
}

/// The byte contents of a sequence of frames.
pub open spec fn frames_view(v: Seq<Vec<u8>>) -> Seq<Seq<u8>> {
    v.map_values(|f: Vec<u8>| f@)
}

/// Computes one byte of an event's stream.
fn stream_byte_at(t: u8, p: &Vec<u8>, k: usize) -> (r: u8)
    requires
        p@.len() + 3 * FRAME_SIZE <= usize::MAX,
        k < FRAME_SIZE * frame_count(p@.len()),
    ensures
        r == stream_byte(t, p@, k as int),
{
    let body_end = FRAME_SIZE * ((p.len() + FRAME_SIZE - 1) / FRAME_SIZE + 1);
    if k < FRAME_SIZE {
        if k == 0 {
            0xFA
        } else if k == 1 {
            0x00
        } else if k == 2 {
            0xF0
        } else if k == TYPE_BIT {
            t
        } else {
            0
        }
    } else if k < body_end {
        if k - FRAME_SIZE < p.len() {
            p[k - FRAME_SIZE]
        } else {
            0
        }
    } else {
        let j = k - body_end;
        if j == 0 {
            0xAF
        } else if j == 1 {
            0x00
        } else if j == 2 {
            0x0F
        } else {
            0x00
        }
    }
}

/// Splits the payload `p` of an event of type code `t` into frames.
pub fn encode_frames(t: u8, p: &Vec<u8>) -> (r: Vec<Vec<u8>>)
    requires
        p@.len() + 3 * FRAME_SIZE <= usize::MAX,
    ensures
        frames_view(r@) == frames_of(t, p@),
{
    let count = (p.len() + FRAME_SIZE - 1) / FRAME_SIZE + 2;
    let mut frames: Vec<Vec<u8>> = Vec::new();
    let mut i: usize = 0;
    while i < count
        invariant
            p@.len() + 3 * FRAME_SIZE <= usize::MAX,
            count == frame_count(p@.len()),
            FRAME_SIZE * count <= usize::MAX,
            i <= count,
            frames@.len() == i,
            forall|a: int|
                0 <= a < i ==> #[trigger] frames@[a]@ == frames_of(t, p@)[a],
        decreases count - i,
    {
        let mut frame: Vec<u8> = Vec::new();
        let mut j: usize = 0;
        while j < FRAME_SIZE
            invariant
                p@.len() + 3 * FRAME_SIZE <= usize::MAX,
                i < count,
                count == frame_count(p@.len()),
                FRAME_SIZE * count <= usize::MAX,
                j <= FRAME_SIZE,
                frame@.len() == j,
                forall|b: int|
                    0 <= b < j ==> #[trigger] frame@[b] == stream_byte(t, p@, FRAME_SIZE * i + b),
            decreases FRAME_SIZE - j,
        {
            let byte = stream_byte_at(t, p, FRAME_SIZE * i + j);
            frame.push(byte);
            j += 1;
        }
        assert(frame@ =~= frames_of(t, p@)[i as int]);
        frames.push(frame);
        i += 1;
    }
    assert(frames_view(frames@) =~= frames_of(t, p@));
    frames
}

/// `n` zero bytes.
pub open spec fn zeros(n: nat) -> Seq<u8> {
    Seq::new(n, |i: int| 0u8)
}

/// A field that can be delimited: it holds no delimiter byte.
pub open spec fn free_of_delimiter(f: Seq<u8>) -> bool {
    forall|i: int| 0 <= i < f.len() ==> f[i] != DELIMITER
}

/// A payload is its delimited fields, each followed by the delimiter, then a
/// trailing field taken verbatim.
pub open spec fn join_fields(fields: Seq<Seq<u8>>, tail: Seq<u8>) -> Seq<u8>
    decreases fields.len(),
{
    if fields.len() == 0 {
        tail
    } else {
        fields[0] + seq![DELIMITER] + join_fields(fields.drop_first(), tail)
    }
}

/// Index of the first delimiter at or after `i`, or the length if there is none.
pub open spec fn first_delimiter(s: Seq<u8>, i: int) -> int
    decreases s.len() - i,
{
    if i >= s.len() {
        s.len() as int
    } else if s[i] == DELIMITER {
        i
    } else {
        first_delimiter(s, i + 1)
    }
}

/// Reads `n` delimited fields off the front of `s`; what is left is the tail.
pub open spec fn split_fields(s: Seq<u8>, n: nat) -> Option<(Seq<Seq<u8>>, Seq<u8>)>
    decreases n,
{
    if n == 0 {
        Some((Seq::empty(), s))
    } else {
        let k = first_delimiter(s, 0);
        if k >= s.len() {
            None
        } else {
            match split_fields(s.subrange(k + 1, s.len() as int), (n - 1) as nat) {
                Some(rest) => Some((seq![s.subrange(0, k)] + rest.0, rest.1)),
                None => None,
            }
        }
    }
}

/// Removes the zero bytes that pad the last payload frame.
pub open spec fn strip_padding(s: Seq<u8>) -> Seq<u8>
    decreases s.len(),
{
    if s.len() > 0 && s.last() == 0 {
        strip_padding(s.drop_last())
    } else {
        s
    }
}

/// How many delimited fields precede the verbatim tail in an event of type
/// code `t`; `None` for a code that names no event.
pub open spec fn delimited_field_count(t: u8) -> Option<nat> {
    if t == 0x01 || t == 0x02 {
        Some(4)
    } else if t == 0x03 {
        Some(2)
    } else if t == 0x04 || t == 0x05 {
        Some(0)
    } else {
        None
    }
}

/// What a receiver reads from a byte stream: the type code, the delimited
/// fields and the verbatim tail.
pub open spec fn decode_stream(s: Seq<u8>) -> Option<(u8, Seq<Seq<u8>>, Seq<u8>)> {
    let n = s.len() as int;
    if n % FRAME_SIZE as int != 0 || n < 2 * FRAME_SIZE {
        None
    } else if s.subrange(0, 3) != header_magic() || s.subrange(n - FRAME_SIZE, n - FRAME_SIZE + 4)
        != footer_magic() {
        None
    } else {
        match delimited_field_count(s[TYPE_BIT as int]) {
            None => None,
            Some(count) => match split_fields(
                strip_padding(s.subrange(FRAME_SIZE as int, n - FRAME_SIZE)),
                count,
            ) {
                Some(r) => Some((s[TYPE_BIT as int], r.0, r.1)),
                None => None,
            },
        }
    }
}

/// `n` consecutive `FRAME_SIZE`-byte windows of the byte function `f`.
pub open spec fn windows(f: spec_fn(int) -> u8, n: nat) -> Seq<Seq<u8>> {
    Seq::new(n, |i: int| Seq::new(FRAME_SIZE as nat, |j: int| f(FRAME_SIZE * i + j)))
}

proof fn lemma_windows_flatten(f: spec_fn(int) -> u8, n: nat)
    ensures
        windows(f, n).flatten() == Seq::new(FRAME_SIZE as nat * n, f),
    decreases n,
{
    if n == 0 {
        assert(windows(f, n).flatten() =~= Seq::new(FRAME_SIZE as nat * n, f));
    } else {
        let g = |k: int| f(k + FRAME_SIZE);
        lemma_windows_flatten(g, (n - 1) as nat);
        let w = windows(f, n);
        assert(w.drop_first() =~= windows(g, (n - 1) as nat)) by {
            assert forall|i: int| 0 <= i < n - 1 implies w.drop_first()[i] =~= windows(
                g,
                (n - 1) as nat,
            )[i] by {
                assert forall|j: int| 0 <= j < FRAME_SIZE implies w.drop_first()[i][j] == windows(
                    g,
                    (n - 1) as nat,
                )[i][j] by {
                    assert(FRAME_SIZE * (i + 1) + j == FRAME_SIZE * i + j + FRAME_SIZE);
                }
            }
        }
        assert(w.flatten() =~= Seq::new(FRAME_SIZE as nat * n, f));
    }
}

/// The frames of an event, laid end to end, are its byte stream.
pub proof fn lemma_frames_concat(t: u8, p: Seq<u8>)
    ensures
        frames_of(t, p).flatten() == stream(t, p),
{
    let f = |k: int| stream_byte(t, p, k);
    lemma_windows_flatten(f, frame_count(p.len()));
    assert forall|i: int| 0 <= i < frame_count(p.len()) implies #[trigger] frames_of(t, p)[i]
        =~= windows(f, frame_count(p.len()))[i] by {}
    assert(frames_of(t, p) =~= windows(f, frame_count(p.len())));
    assert(stream(t, p) =~= Seq::new(FRAME_SIZE as nat * frame_count(p.len()), f));
}

proof fn lemma_strip_padding(p: Seq<u8>, n: nat)
    requires
        p.len() == 0 || p.last() != 0,
    ensures
        strip_padding(p + zeros(n)) == p,
    decreases n,
{
    if n == 0 {
        assert(p + zeros(n) =~= p);
    } else {
        assert((p + zeros(n)).drop_last() =~= p + zeros((n - 1) as nat));
        lemma_strip_padding(p, (n - 1) as nat);
    }
}

proof fn lemma_first_delimiter(a: Seq<u8>, b: Seq<u8>, i: int)
    requires
        0 <= i <= a.len(),
        free_of_delimiter(a),
    ensures
        first_delimiter(a + seq![DELIMITER] + b, i) == a.len(),
    decreases a.len() - i,
{
    if i < a.len() {
        lemma_first_delimiter(a, b, i + 1);
    }
}

proof fn lemma_split_join(fields: Seq<Seq<u8>>, tail: Seq<u8>)
    requires
        forall|i: int| 0 <= i < fields.len() ==> free_of_delimiter(#[trigger] fields[i]),
    ensures
        split_fields(join_fields(fields, tail), fields.len()) == Some((fields, tail)),
    decreases fields.len(),
{
    if fields.len() > 0 {
        let rest = fields.drop_first();
        let s = join_fields(fields, tail);
        let a = fields[0];
        let b = join_fields(rest, tail);
        assert(free_of_delimiter(fields[0]));
        lemma_first_delimiter(a, b, 0);
        assert(s.subrange(a.len() + 1 as int, s.len() as int) =~= b);
        assert(s.subrange(0, a.len() as int) =~= a);
        assert forall|i: int| 0 <= i < rest.len() implies free_of_delimiter(#[trigger] rest[i]) by {
            assert(rest[i] == fields[i + 1]);
        }
        lemma_split_join(rest, tail);
        assert(seq![a] + rest =~= fields);
    }
}

proof fn lemma_join_last(fields: Seq<Seq<u8>>, tail: Seq<u8>)
    requires
        tail.len() == 0 || tail.last() != 0,
    ensures
        join_fields(fields, tail).len() == 0 || join_fields(fields, tail).last() != 0,
    decreases fields.len(),
{
    if fields.len() > 0 {
        lemma_join_last(fields.drop_first(), tail);
    }
}

/// Decoding the concatenated frames of a payload built from delimiter-free
/// fields and a tail that does not end in a zero byte gives back the type
/// code, the fields and the tail.
pub proof fn lemma_round_trip(t: u8, fields: Seq<Seq<u8>>, tail: Seq<u8>)
    requires
        delimited_field_count(t) == Some(fields.len()),
        forall|i: int| 0 <= i < fields.len() ==> free_of_delimiter(#[trigger] fields[i]),
        tail.len() == 0 || tail.last() != 0,
    ensures
        decode_stream(frames_of(t, join_fields(fields, tail)).flatten()) == Some((t, fields, tail)),
{
    let p = join_fields(fields, tail);
    lemma_frames_concat(t, p);
    let s = stream(t, p);
    let m = payload_frame_count(p.len());
    let n = s.len() as int;
    assert(FRAME_SIZE * m >= p.len());
    assert(n == FRAME_SIZE * (m + 2));
    assert(s.subrange(0, 3) =~= header_magic());
    assert(s.subrange(n - FRAME_SIZE, n - FRAME_SIZE + 4) =~= footer_magic());
    let z = (FRAME_SIZE * m - p.len()) as nat;
    assert(s.subrange(FRAME_SIZE as int, n - FRAME_SIZE) =~= p + zeros(z));
    lemma_join_last(fields, tail);
    lemma_strip_padding(p, z);
    lemma_split_join(fields, tail);
}

/// Every frame is `FRAME_SIZE` bytes long, and an event of payload length `len`
/// takes `ceil((len + control_bytes()) / FRAME_SIZE)` frames, never none.
pub proof fn lemma_frame_shape(t: u8, p: Seq<u8>)
    ensures
        forall|i: int| 0 <= i < frames_of(t, p).len() ==> #[trigger] frames_of(t, p)[i].len() == FRAME_SIZE,
        frames_of(t, p).len() == (p.len() + control_bytes() + FRAME_SIZE - 1) / FRAME_SIZE as int,
        frames_of(t, p).len() >= 1,
{
}

/// Dropping the header frame and the footer frame from the concatenated
/// frames leaves the payload, verbatim and in order, followed only by zero
/// padding.
pub proof fn lemma_payload_in_frames(t: u8, p: Seq<u8>)
    ensures
        frames_of(t, p).flatten().len() >= 2 * FRAME_SIZE + p.len(),
        frames_of(t, p).flatten().subrange(FRAME_SIZE as int, FRAME_SIZE + p.len()) == p,
        forall|k: int|
            FRAME_SIZE + p.len() <= k < frames_of(t, p).flatten().len() - FRAME_SIZE ==> #[trigger] frames_of(
                t,
                p,
            ).flatten()[k] == 0,
{
    lemma_frames_concat(t, p);
    let m = payload_frame_count(p.len());
    assert(FRAME_SIZE * m >= p.len());
    assert(frames_of(t, p).flatten().subrange(FRAME_SIZE as int, FRAME_SIZE + p.len()) =~= p);
}

} // verus!
