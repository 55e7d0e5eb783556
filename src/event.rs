use vstd::prelude::*;
use vstd::utf8::encode_utf8;

use crate::event_type::{code_of, EventType};
use crate::wire::{
    decode_stream, encode_frames, frames_of, frames_view, free_of_delimiter,
    join_fields, lemma_round_trip, DELIMITER, FRAME_SIZE,
};

verus! {

/// The UTF-8 bytes of an optional text field; an absent field is empty.
pub open spec fn text_field(s: Option<String>) -> Seq<u8> {
    match s {
        Some(s) => encode_utf8(s@),
        None => Seq::empty(),
    }
}

/// The one-byte flag of a boolean (`1` or `0`).
pub open spec fn flag_byte(b: bool) -> u8 {
    if b {
        1
    } else {
        0
    }
}

/// The shuffle field: one flag byte, or empty when unknown.
pub open spec fn shuffle_field(s: Option<bool>) -> Seq<u8> {
    match s {
        Some(b) => seq![flag_byte(b)],
        None => Seq::empty(),
    }
}

/// Something that can be framed and sent to the device.
pub trait HidEvent {
    /// The type announced in the first frame.
    spec fn wire_type(&self) -> EventType;

    /// The delimited fields of the payload, in order.
    spec fn wire_fields(&self) -> Seq<Seq<u8>>;

    /// The bytes that end the payload verbatim.
    spec fn wire_tail(&self) -> Seq<u8>;

    /// Whether this is the event that holds the raw bytes `bytes` and nothing else.
    spec fn holds_raw(&self, bytes: Seq<u8>) -> bool;

    /// The serialized payload.
    fn to_bytes(&self) -> (r: Vec<u8>)
        ensures
            r@ == join_fields(self.wire_fields(), self.wire_tail()),
    ;

    /// The frames that carry this event to the device, in order.
    fn chunks(&self) -> (r: Vec<Vec<u8>>)
        requires
            join_fields(self.wire_fields(), self.wire_tail()).len() + 3 * FRAME_SIZE <= usize::MAX,
        ensures
            frames_view(r@) == frames_of(
                code_of(self.wire_type()),
                join_fields(self.wire_fields(), self.wire_tail()),
            ),
    ;

    fn event_type(&self) -> (r: EventType)
        ensures
            r == self.wire_type(),
    ;

    /// An event whose verbatim tail is `bytes`.
    fn from_bytes(bytes: &[u8]) -> (r: Self) where Self: Sized
        ensures
            r.holds_raw(bytes@),
            r.wire_tail() == bytes@,
    ;
}

/// Appends `bytes` to `out`.
fn append(out: &mut Vec<u8>, bytes: &[u8])
    ensures
        final(out)@ == old(out)@ + bytes@,
{
    let mut i: usize = 0;
    while i < bytes.len()
        invariant
            i <= bytes@.len(),
            out@ == old(out)@ + bytes@.subrange(0, i as int),
        decreases bytes@.len() - i,
    {
        out.push(bytes[i]);
        i += 1;
        assert(out@ =~= old(out)@ + bytes@.subrange(0, i as int));
    }
    assert(bytes@.subrange(0, i as int) =~= bytes@);
}

/// Appends the bytes of an optional text field, then the delimiter.
fn append_text_field(out: &mut Vec<u8>, s: &Option<String>)
    ensures
        final(out)@ == old(out)@ + text_field(*s) + seq![DELIMITER],
{
    match s {
        Some(s) => append(out, s.as_str().as_bytes()),
        None => assert(old(out)@ + text_field(*s) =~= old(out)@),
    }
    out.push(DELIMITER);
}

fn append_shuffle_field(out: &mut Vec<u8>, s: Option<bool>)
    ensures
        final(out)@ == old(out)@ + shuffle_field(s) + seq![DELIMITER],
{
    match s {
        Some(b) => out.push(if b { 1 } else { 0 }),
        None => {},
    }
    out.push(DELIMITER);
    assert(final(out)@ =~= old(out)@ + shuffle_field(s) + seq![DELIMITER]);
}

proof fn lemma_join_four(a: Seq<u8>, b: Seq<u8>, c: Seq<u8>, d: Seq<u8>, t: Seq<u8>)
    ensures
        join_fields(seq![a, b, c, d], t) == a + seq![DELIMITER] + b + seq![DELIMITER] + c + seq![
            DELIMITER,
        ] + d + seq![DELIMITER] + t,
{
    let f = seq![a, b, c, d];
    let d_ = seq![DELIMITER];
    assert(f.drop_first() =~= seq![b, c, d]);
    assert(seq![b, c, d].drop_first() =~= seq![c, d]);
    assert(seq![c, d].drop_first() =~= seq![d]);
    assert(seq![d].drop_first() =~= Seq::<Seq<u8>>::empty());
    assert(join_fields(Seq::<Seq<u8>>::empty(), t) == t);
    let j3 = join_fields(seq![d], t);
    assert(j3 == d + d_ + t);
    let j2 = join_fields(seq![c, d], t);
    assert(j2 == c + d_ + j3);
    let j1 = join_fields(seq![b, c, d], t);
    assert(j1 == b + d_ + j2);
    assert(join_fields(f, t) == a + d_ + j1);
    assert(join_fields(f, t) =~= a + d_ + b + d_ + c + d_ + d + d_ + t);
}

proof fn lemma_join_two(a: Seq<u8>, b: Seq<u8>, t: Seq<u8>)
    ensures
        join_fields(seq![a, b], t) == a + seq![DELIMITER] + b + seq![DELIMITER] + t,
{
    let f = seq![a, b];
    let d_ = seq![DELIMITER];
    assert(f.drop_first() =~= seq![b]);
    assert(seq![b].drop_first() =~= Seq::<Seq<u8>>::empty());
    assert(join_fields(Seq::<Seq<u8>>::empty(), t) == t);
    let j1 = join_fields(seq![b], t);
    assert(j1 == b + d_ + t);
    assert(join_fields(f, t) == a + d_ + j1);
    assert(join_fields(f, t) =~= a + d_ + b + d_ + t);
}

/// What is playing now, as a media session reports it.
#[derive(Clone, Debug)]
pub struct MediaInfo {
    pub title: Option<String>,
    pub artist: Option<String>,
    pub album: Option<String>,
    pub is_shuffle: Option<bool>,
    pub artwork: Option<Vec<u8>>,
}

/// The delimited fields of a media update: title, artist, album, shuffle.
pub open spec fn media_fields(m: MediaInfo) -> Seq<Seq<u8>> {
    seq![
        text_field(m.title),
        text_field(m.artist),
        text_field(m.album),
        shuffle_field(m.is_shuffle),
    ]
}

/// The artwork bytes that end a media update.
pub open spec fn media_tail(m: MediaInfo) -> Seq<u8> {
    match m.artwork {
        Some(a) => a@,
        None => Seq::empty(),
    }
}

/// `title \n artist \n album \n shuffle \n artwork`
fn media_payload(m: &MediaInfo) -> (r: Vec<u8>)
    ensures
        r@ == join_fields(media_fields(*m), media_tail(*m)),
{
    let mut bytes: Vec<u8> = Vec::new();
    append_text_field(&mut bytes, &m.title);
    append_text_field(&mut bytes, &m.artist);
    append_text_field(&mut bytes, &m.album);
    append_shuffle_field(&mut bytes, m.is_shuffle);
    match &m.artwork {
        Some(art) => append(&mut bytes, art.as_slice()),
        None => {},
    }
    proof {
        lemma_join_four(
            text_field(m.title),
            text_field(m.artist),
            text_field(m.album),
            shuffle_field(m.is_shuffle),
            media_tail(*m),
        );
    }
    assert(bytes@ =~= join_fields(media_fields(*m), media_tail(*m)));
    bytes
}

impl HidEvent for MediaInfo {
    open spec fn wire_type(&self) -> EventType {
        EventType::MediaUpdate
    }

    open spec fn wire_fields(&self) -> Seq<Seq<u8>> {
        media_fields(*self)
    }

    open spec fn wire_tail(&self) -> Seq<u8> {
        media_tail(*self)
    }

    /// Only the artwork is set, to the bytes.
    open spec fn holds_raw(&self, bytes: Seq<u8>) -> bool {
        &&& self.title is None
        &&& self.artist is None
        &&& self.album is None
        &&& self.is_shuffle is None
        &&& self.artwork matches Some(a) && a@ == bytes
    }

    fn to_bytes(&self) -> (r: Vec<u8>) {
        media_payload(self)
    }

    fn chunks(&self) -> (r: Vec<Vec<u8>>) {
        let buffer = media_payload(self);
        encode_frames(EventType::MediaUpdate.code(), &buffer)
    }

    fn event_type(&self) -> (r: EventType) {
        EventType::MediaUpdate
    }

    fn from_bytes(bytes: &[u8]) -> (r: Self) {
        let mut artwork: Vec<u8> = Vec::new();
        append(&mut artwork, bytes);
        MediaInfo { title: None, artist: None, album: None, is_shuffle: None, artwork: Some(artwork) }
    }
}

/// A watched process that became visible or stopped being visible.
#[derive(Clone, Debug, PartialEq, Eq)]
pub struct Process {
    pub name: String,
    pub pid: i32,
    pub is_running: bool,
}

/// A thing worth reporting to the device; the variant alone fixes its type.
#[derive(Clone, Debug)]
pub enum DomainEvent {
    MediaUpdate(MediaInfo),
    MediaUpdateShuffleOnly(bool),
    ProcessStateUpdate(Process),
    PcUpdate(Vec<u8>),
    RawString(Vec<u8>),
}

/// The delimited fields of a shuffle-only update: three empty text fields and
/// the shuffle flag.
pub open spec fn shuffle_only_fields(shuffle: bool) -> Seq<Seq<u8>> {
    seq![Seq::empty(), Seq::empty(), Seq::empty(), seq![flag_byte(shuffle)]]
}

/// The delimited fields of a process update: the name and the running flag.
pub open spec fn process_fields(p: Process) -> Seq<Seq<u8>> {
    seq![encode_utf8(p.name@), seq![flag_byte(p.is_running)]]
}

impl HidEvent for DomainEvent {
    open spec fn wire_type(&self) -> EventType {
        match self {
            DomainEvent::MediaUpdate(_) => EventType::MediaUpdate,
            DomainEvent::MediaUpdateShuffleOnly(_) => EventType::MediaUpdateShufflePlay,
            DomainEvent::ProcessStateUpdate(_) => EventType::ProcessStateUpdate,
            DomainEvent::PcUpdate(_) => EventType::PCUpdate,
            DomainEvent::RawString(_) => EventType::RawString,
        }
    }

    open spec fn wire_fields(&self) -> Seq<Seq<u8>> {
        match self {
            DomainEvent::MediaUpdate(m) => media_fields(*m),
            DomainEvent::MediaUpdateShuffleOnly(b) => shuffle_only_fields(*b),
            DomainEvent::ProcessStateUpdate(p) => process_fields(*p),
            DomainEvent::PcUpdate(_) => Seq::empty(),
            DomainEvent::RawString(_) => Seq::empty(),
        }
    }

    open spec fn wire_tail(&self) -> Seq<u8> {
        match self {
            DomainEvent::MediaUpdate(m) => media_tail(*m),
            DomainEvent::MediaUpdateShuffleOnly(_) => Seq::empty(),
            DomainEvent::ProcessStateUpdate(_) => Seq::empty(),
            DomainEvent::PcUpdate(v) => v@,
            DomainEvent::RawString(v) => v@,
        }
    }

    /// A raw string of the bytes.
    open spec fn holds_raw(&self, bytes: Seq<u8>) -> bool {
        self matches DomainEvent::RawString(v) && v@ == bytes
    }

    fn to_bytes(&self) -> (r: Vec<u8>) {
        let mut bytes: Vec<u8> = Vec::new();
        match self {
            DomainEvent::MediaUpdate(m) => {
                bytes = media_payload(m);
            },
            DomainEvent::MediaUpdateShuffleOnly(b) => {
                append_text_field(&mut bytes, &None);
                append_text_field(&mut bytes, &None);
                append_text_field(&mut bytes, &None);
                append_shuffle_field(&mut bytes, Some(*b));
                proof {
                    lemma_join_four(
                        Seq::empty(),
                        Seq::empty(),
                        Seq::empty(),
                        seq![flag_byte(*b)],
                        Seq::empty(),
                    );
                }
                assert(bytes@ =~= join_fields(self.wire_fields(), self.wire_tail()));
            },
            DomainEvent::ProcessStateUpdate(p) => {
                append(&mut bytes, p.name.as_str().as_bytes());
                bytes.push(DELIMITER);
                bytes.push(if p.is_running { 1 } else { 0 });
                bytes.push(DELIMITER);
                proof {
                    lemma_join_two(encode_utf8(p.name@), seq![flag_byte(p.is_running)], Seq::empty());
                }
                assert(bytes@ =~= join_fields(self.wire_fields(), self.wire_tail()));
            },
            DomainEvent::PcUpdate(v) => {
                append(&mut bytes, v.as_slice());
            },
            DomainEvent::RawString(v) => {
                append(&mut bytes, v.as_slice());
            },
        }
        bytes
    }

    fn chunks(&self) -> (r: Vec<Vec<u8>>) {
        let buffer = self.to_bytes();
        encode_frames(self.event_type().code(), &buffer)
    }

    fn event_type(&self) -> (r: EventType) {
        match self {
            DomainEvent::MediaUpdate(_) => EventType::MediaUpdate,
            DomainEvent::MediaUpdateShuffleOnly(_) => EventType::MediaUpdateShufflePlay,
            DomainEvent::ProcessStateUpdate(_) => EventType::ProcessStateUpdate,
            DomainEvent::PcUpdate(_) => EventType::PCUpdate,
            DomainEvent::RawString(_) => EventType::RawString,
        }
    }

    fn from_bytes(bytes: &[u8]) -> (r: Self) {
        let mut raw: Vec<u8> = Vec::new();
        append(&mut raw, bytes);
        DomainEvent::RawString(raw)
    }
}

/// Decoding the concatenated frames of any event gives back its type code, its
/// delimited fields and its verbatim tail, provided no field holds the
/// delimiter and the tail does not end in a zero byte (which reads as padding).
pub proof fn lemma_event_round_trip(e: DomainEvent)
    requires
        forall|i: int|
            0 <= i < e.wire_fields().len() ==> free_of_delimiter(#[trigger] e.wire_fields()[i]),
        e.wire_tail().len() == 0 || e.wire_tail().last() != 0,
    ensures
        decode_stream(
            frames_of(code_of(e.wire_type()), join_fields(e.wire_fields(), e.wire_tail())).flatten(),
        ) == Some((code_of(e.wire_type()), e.wire_fields(), e.wire_tail())),
{
    lemma_round_trip(code_of(e.wire_type()), e.wire_fields(), e.wire_tail());
}

/// The same holds of a media update framed on its own.
pub proof fn lemma_media_round_trip(m: MediaInfo)
    requires
        free_of_delimiter(text_field(m.title)),
        free_of_delimiter(text_field(m.artist)),
        free_of_delimiter(text_field(m.album)),
        media_tail(m).len() == 0 || media_tail(m).last() != 0,
    ensures
        decode_stream(frames_of(code_of(m.wire_type()), join_fields(m.wire_fields(), m.wire_tail())).flatten())
            == Some((code_of(m.wire_type()), media_fields(m), media_tail(m))),
{
    let f = media_fields(m);
    assert forall|i: int| 0 <= i < f.len() implies free_of_delimiter(#[trigger] f[i]) by {
        if i == 3 {
            assert(free_of_delimiter(shuffle_field(m.is_shuffle)));
        }
    }
    lemma_round_trip(code_of(m.wire_type()), f, media_tail(m));
}

} // verus!
