//! The incremental decode buffer: raw bytes go in as the source delivers
//! them, and come out as they are or decoded to UTF-8.

use vstd::prelude::*;
use vstd::slice::slice_subrange;
use vstd::utf8::valid_utf8;

use crate::charset::{encoding_for_label, Charset};

verus! {

#[verifier::external_type_specification]
#[verifier::external_body]
pub struct ExDecoder(encoding_rs::Decoder);

/// Whether a decoder of encoding_rs has seen the end of its stream: it has
/// then been run with `last` set and has taken all its input, and must not
/// be run again.
pub uninterp spec fn decoder_ended(decoder: encoding_rs::Decoder) -> bool;

/// The name of the encoding that a decoder of encoding_rs decodes from, as
/// `Decoder::encoding` gives it. A decoder that was made without handling
/// of byte-order marks keeps it for good.
pub uninterp spec fn decoder_encoding(decoder: encoding_rs::Decoder) -> Seq<char>;

/// What `Decoder::decode_to_utf8` of encoding_rs makes of the bytes `src`
/// with a decoder in the given state, `room` bytes to write to, and `last`
/// as given: how many of the bytes it reads, and the text that it writes.
pub uninterp spec fn decoded(
    decoder: encoding_rs::Decoder,
    src: Seq<u8>,
    room: nat,
    last: bool,
) -> (nat, Seq<u8>);

/// The size of the region of raw bytes.
pub const RAW_SIZE: usize = 4096;

/// The size of the region of decoded text: three bytes of UTF-8 for each
/// raw byte.
pub const TEXT_SIZE: usize = 12288;

/// The longest run of raw bytes that is carried over to the front of the
/// region before more are read; no character of any encoding is longer.
pub const CARRY_SIZE: usize = 32;

/// The number of bytes at the start of a stream that tell its encoding.
pub const LEAD_SIZE: usize = 4;

/// `Encoding::for_label` of encoding_rs, followed by
/// `Encoding::new_decoder_without_bom_handling` on what it found: a decoder
/// at the start of its stream for a label that stands for an encoding,
/// which decodes from that encoding, and nothing for another label.
#[verifier::external_body]
fn new_decoder(label: &[u8]) -> (r: Option<encoding_rs::Decoder>)
    ensures
        r is Some <==> encoding_for_label(label@) is Some,
        r matches Some(d) ==> !decoder_ended(d),
        r matches Some(d) ==> encoding_for_label(label@) == Some(decoder_encoding(d)),
{
    encoding_rs::Encoding::for_label(label).map(|e| e.new_decoder_without_bom_handling())
}

/// `Decoder::decode_to_utf8` of encoding_rs, which hands back how many bytes
/// of `src` it read and how many bytes it wrote to the front of `dst`. It
/// takes at least four bytes of room and a decoder that has not ended; what
/// it writes is UTF-8 of whole characters; run without `last`, it leaves
/// the decoder ready for more, and it never changes the encoding that the
/// decoder decodes from. The contract gives both counts and the text their
/// name.
#[verifier::external_body]
fn decode_to_utf8(
    decoder: &mut encoding_rs::Decoder,
    src: &[u8],
    dst: &mut Vec<u8>,
    last: bool,
) -> (r: (usize, usize))
    requires
        !decoder_ended(*old(decoder)),
        old(dst)@.len() >= 4,
    ensures
        r.0 <= src@.len(),
        r.1 <= old(dst)@.len(),
        final(dst)@.len() == old(dst)@.len(),
        r.0 == decoded(*old(decoder), src@, old(dst)@.len(), last).0,
        final(dst)@.subrange(0, r.1 as int) == decoded(
            *old(decoder),
            src@,
            old(dst)@.len(),
            last,
        ).1,
        valid_utf8(final(dst)@.subrange(0, r.1 as int)),
        !last ==> !decoder_ended(*final(decoder)),
        decoder_encoding(*final(decoder)) == decoder_encoding(*old(decoder)),
{
    let (_, read, written, _) = decoder.decode_to_utf8(src, dst.as_mut_slice(), last);
    (read, written)
}

/// The decode buffer.
pub struct DecodeReader {
    decoder: Option<encoding_rs::Decoder>,
    undecoded: Vec<u8>,
    undecoded_pos: usize,
    undecoded_cap: usize,
    remaining: Vec<u8>,
    decoded: Vec<u8>,
    decoded_pos: usize,
    decoded_cap: usize,
    done: bool,
}

impl DecodeReader {
    /// The invariant of the buffer: both regions have their size, each
    /// cursor is within its fill level, and a decoder that has ended is
    /// never run again.
    pub closed spec fn wf(&self) -> bool {
        &&& self.undecoded@.len() == RAW_SIZE
        &&& self.remaining@.len() == CARRY_SIZE
        &&& self.decoded@.len() == TEXT_SIZE
        &&& self.undecoded_pos <= self.undecoded_cap <= RAW_SIZE
        &&& self.decoded_pos <= self.decoded_cap <= TEXT_SIZE
        &&& self.decoder matches Some(d) ==> (decoder_ended(d) ==> self.done)
    }

    /// Whether a decoder is set. Without one the raw bytes pass through.
    pub closed spec fn decoding(&self) -> bool {
        self.decoder is Some
    }

    /// The decoder, in the state that it is in.
    pub closed spec fn decoder_state(&self) -> Option<encoding_rs::Decoder> {
        self.decoder
    }

    /// The encoding that the buffer decodes from; none where the raw bytes
    /// pass through.
    pub closed spec fn encoding(&self) -> Option<Seq<char>> {
        match self.decoder {
            Some(d) => Some(decoder_encoding(d)),
            None => None,
        }
    }

    /// Whether the source was found to be exhausted.
    pub closed spec fn exhausted(&self) -> bool {
        self.done
    }

    /// The raw bytes that were read and not yet decoded or handed out.
    pub closed spec fn raw(&self) -> Seq<u8> {
        self.undecoded@.subrange(self.undecoded_pos as int, self.undecoded_cap as int)
    }

    /// The decoded text that was not yet handed out.
    pub closed spec fn text(&self) -> Seq<u8> {
        self.decoded@.subrange(self.decoded_pos as int, self.decoded_cap as int)
    }

    /// The bytes that the buffer offers to its reader.
    pub open spec fn buffered(&self) -> Seq<u8> {
        if self.decoding() {
            self.text()
        } else {
            self.raw()
        }
    }

    /// Whether the bytes at the start of the stream can be told: enough of
    /// them are buffered, or the stream has no more. Only a buffer without
    /// decoder holds the start of a stream as it is.
    pub open spec fn lead_ready(&self) -> bool {
        !self.decoding() && (self.raw().len() >= LEAD_SIZE || self.exhausted())
    }

    /// How many bytes the buffer takes from the source before the start of
    /// the stream can be told.
    pub open spec fn lead_room(&self) -> nat {
        if !self.decoding() && !self.lead_ready() {
            (RAW_SIZE - self.raw().len()) as nat
        } else {
            0
        }
    }

    /// Whether the buffer has nothing to offer although a decoder is set and
    /// the source is not exhausted: the decoder waits for the rest of a
    /// character, and the buffer is to be filled again.
    pub open spec fn starved(&self) -> bool {
        self.decoding() && self.text().len() == 0 && !self.exhausted()
    }

    /// What the decoder makes of the raw bytes that are left with `input`
    /// behind them, at the next fill: how many of them it reads, and the
    /// text that it writes. It is told that the source is exhausted where
    /// the buffer had room and `input` is empty.
    pub open spec fn next_decoded(&self, input: Seq<u8>) -> (nat, Seq<u8>) {
        decoded(
            self.decoder_state()->0,
            self.raw() + input,
            TEXT_SIZE as nat,
            self.room() > 0 && input.len() == 0,
        )
    }

    /// How many bytes the next fill takes from the source: none while the
    /// buffer has something to offer or the source is exhausted, else what
    /// the raw region has room for.
    pub open spec fn room(&self) -> nat {
        if self.decoding() {
            if self.text().len() == 0 && !self.exhausted() && self.raw().len() <= CARRY_SIZE {
                (RAW_SIZE - self.raw().len()) as nat
            } else {
                0
            }
        } else {
            if self.raw().len() == 0 {
                RAW_SIZE as nat
            } else {
                0
            }
        }
    }

    /// An empty buffer that decodes from the given encoding, or passes the
    /// raw bytes through where there is none.
    pub fn new(encoding: Option<&Charset>) -> (r: DecodeReader)
        ensures
            r.wf(),
            r.raw().len() == 0,
            r.text().len() == 0,
            !r.exhausted(),
            r.decoding() == (encoding is Some),
            r.encoding() == (match encoding {
                Some(c) => Some(c@),
                None => None,
            }),
    {
        let decoder = match encoding {
            Some(c) => new_decoder(c.name().as_bytes()),
            None => None,
        };
        DecodeReader {
            decoder,
            undecoded: vec![0u8; 4096],
            undecoded_pos: 0,
            undecoded_cap: 0,
            remaining: vec![0u8; 32],
            decoded: vec![0u8; 12288],
            decoded_pos: 0,
            decoded_cap: 0,
            done: false,
        }
    }

    /// Replaces the decoder by a new one, which decodes from the given
    /// encoding, or removes it. What is buffered stays: the raw bytes that
    /// no decoder has taken yet go to the new decoder.
    pub fn set_encoding(&mut self, encoding: Option<&Charset>)
        requires
            old(self).wf(),
        ensures
            final(self).wf(),
            final(self).raw() == old(self).raw(),
            final(self).text() == old(self).text(),
            !final(self).exhausted(),
            final(self).decoding() == (encoding is Some),
            final(self).encoding() == (match encoding {
                Some(c) => Some(c@),
                None => None,
            }),
    {
        self.decoder = match encoding {
            Some(c) => new_decoder(c.name().as_bytes()),
            None => None,
        };
        self.done = false;
    }

    /// How many bytes the next fill takes from the source.
    pub fn read_room(&self) -> (n: usize)
        requires
            self.wf(),
        ensures
            n == self.room(),
            n <= RAW_SIZE,
    {
        let raw_len = self.undecoded_cap - self.undecoded_pos;
        if self.decoder.is_some() {
            if self.decoded_pos >= self.decoded_cap && !self.done && raw_len <= CARRY_SIZE {
                RAW_SIZE - raw_len
            } else {
                0
            }
        } else {
            if raw_len == 0 {
                RAW_SIZE
            } else {
                0
            }
        }
    }

    /// The bytes that the buffer offers to its reader.
    pub fn buffer(&self) -> (r: &[u8])
        requires
            self.wf(),
        ensures
            r@ == self.buffered(),
    {
        if self.decoder.is_some() {
            slice_subrange(self.decoded.as_slice(), self.decoded_pos, self.decoded_cap)
        } else {
            slice_subrange(self.undecoded.as_slice(), self.undecoded_pos, self.undecoded_cap)
        }
    }

    /// The region of decoded text as a whole.
    pub closed spec fn region(&self) -> Seq<u8> {
        self.decoded@
    }

    /// The whole region of decoded text, whatever of it was handed out.
    pub fn text_region(&self) -> (r: &[u8])
        requires
            self.wf(),
        ensures
            r@ == self.region(),
            r@.len() == TEXT_SIZE,
    {
        self.decoded.as_slice()
    }

    /// Marks `amt` of the offered bytes as handed out, or all of them where
    /// there are fewer.
    pub fn consume(&mut self, amt: usize)
        requires
            old(self).wf(),
        ensures
            final(self).wf(),
            final(self).encoding() == old(self).encoding(),
            final(self).decoding() == old(self).decoding(),
            final(self).exhausted() == old(self).exhausted(),
            amt <= old(self).buffered().len() ==> final(self).buffered()
                == old(self).buffered().skip(amt as int),
            amt > old(self).buffered().len() ==> final(self).buffered().len() == 0,
            old(self).decoding() ==> final(self).raw() == old(self).raw(),
            !old(self).decoding() ==> final(self).text() == old(self).text(),
    {
        if self.decoder.is_some() {
            if amt >= self.decoded_cap - self.decoded_pos {
                self.decoded_pos = self.decoded_cap;
            } else {
                self.decoded_pos = self.decoded_pos + amt;
            }
            assert(amt <= old(self).text().len() ==> self.text() =~= old(self).text().skip(
                amt as int,
            ));
        } else {
            if amt >= self.undecoded_cap - self.undecoded_pos {
                self.undecoded_pos = self.undecoded_cap;
            } else {
                self.undecoded_pos = self.undecoded_pos + amt;
            }
            assert(amt <= old(self).raw().len() ==> self.raw() =~= old(self).raw().skip(
                amt as int,
            ));
        }
    }

    /// Moves the raw bytes that are left, which fit the carry region, over
    /// that region to the front of their own, and puts `input` behind them.
    fn refill(&mut self, input: &[u8])
        requires
            old(self).wf(),
            old(self).raw().len() <= CARRY_SIZE,
            old(self).raw().len() + input@.len() <= RAW_SIZE,
        ensures
            final(self).wf(),
            final(self).raw() == old(self).raw() + input@,
            final(self).undecoded_pos == 0,
            final(self).decoder == old(self).decoder,
            final(self).done == old(self).done,
            final(self).decoded == old(self).decoded,
            final(self).decoded_pos == old(self).decoded_pos,
            final(self).decoded_cap == old(self).decoded_cap,
    {
        let ghost left = self.raw();
        let start = self.undecoded_pos;
        let remaining = self.undecoded_cap - self.undecoded_pos;
        let mut i: usize = 0;
        while i < remaining
            invariant
                i <= remaining <= CARRY_SIZE,
                start + remaining <= RAW_SIZE,
                self.undecoded@.len() == RAW_SIZE,
                self.remaining@.len() == CARRY_SIZE,
                left.len() == remaining,
                forall|j: int| 0 <= j < i ==> self.remaining@[j] == left[j],
                forall|j: int|
                    0 <= j < remaining ==> #[trigger] self.undecoded@[start + j] == left[j],
                self.decoder == old(self).decoder,
                self.done == old(self).done,
                self.undecoded == old(self).undecoded,
                self.decoded == old(self).decoded,
                self.decoded_pos == old(self).decoded_pos,
                self.decoded_cap == old(self).decoded_cap,
            decreases remaining - i,
        {
            let b = self.undecoded[start + i];
            self.remaining[i] = b;
            i += 1;
        }
        let mut m: usize = 0;
        while m < remaining
            invariant
                m <= remaining <= CARRY_SIZE,
                self.undecoded@.len() == RAW_SIZE,
                self.remaining@.len() == CARRY_SIZE,
                left.len() == remaining,
                forall|j: int| 0 <= j < remaining ==> self.remaining@[j] == left[j],
                forall|j: int| 0 <= j < m ==> self.undecoded@[j] == left[j],
                self.decoder == old(self).decoder,
                self.done == old(self).done,
                self.decoded == old(self).decoded,
                self.decoded_pos == old(self).decoded_pos,
                self.decoded_cap == old(self).decoded_cap,
            decreases remaining - m,
        {
            let b = self.remaining[m];
            self.undecoded[m] = b;
            m += 1;
        }
        let n = input.len();
        let mut k: usize = 0;
        while k < n
            invariant
                k <= n,
                n == input@.len(),
                remaining + n <= RAW_SIZE,
                self.undecoded@.len() == RAW_SIZE,
                self.remaining@.len() == CARRY_SIZE,
                left.len() == remaining,
                forall|j: int| 0 <= j < remaining ==> self.undecoded@[j] == left[j],
                forall|j: int| 0 <= j < k ==> self.undecoded@[remaining + j] == input@[j],
                self.decoder == old(self).decoder,
                self.done == old(self).done,
                self.decoded == old(self).decoded,
                self.decoded_pos == old(self).decoded_pos,
                self.decoded_cap == old(self).decoded_cap,
            decreases n - k,
        {
            self.undecoded[remaining + k] = input[k];
            k += 1;
        }
        self.undecoded_pos = 0;
        self.undecoded_cap = remaining + n;
        assert(self.raw() =~= left + input@);
    }

    /// Whether the bytes at the start of the stream can be told.
    pub fn is_lead_ready(&self) -> (r: bool)
        requires
            self.wf(),
        ensures
            r == self.lead_ready(),
    {
        self.decoder.is_none() && (self.undecoded_cap - self.undecoded_pos >= LEAD_SIZE
            || self.done)
    }

    /// How many bytes the buffer takes from the source before the start of
    /// the stream can be told.
    pub fn lead_read_room(&self) -> (n: usize)
        requires
            self.wf(),
        ensures
            n == self.lead_room(),
            n <= RAW_SIZE,
    {
        if self.is_lead_ready() || self.decoder.is_some() {
            0
        } else {
            RAW_SIZE - (self.undecoded_cap - self.undecoded_pos)
        }
    }

    /// Takes bytes from the start of the stream, until the start can be
    /// told: `input` goes behind the raw bytes that are held, and an empty
    /// `input` where the buffer had room marks the source as exhausted.
    pub fn fill_lead(&mut self, input: &[u8])
        requires
            old(self).wf(),
            !old(self).decoding(),
            input@.len() <= old(self).lead_room(),
        ensures
            final(self).wf(),
            final(self).encoding() == old(self).encoding(),
            !final(self).decoding(),
            final(self).raw() == old(self).raw() + input@,
            final(self).text() == old(self).text(),
            final(self).exhausted() == (old(self).exhausted() || (old(self).lead_room() > 0
                && input@.len() == 0)),
    {
        if self.lead_read_room() > 0 {
            self.refill(input);
            if input.len() == 0 {
                self.done = true;
            }
        } else {
            assert(self.raw() + input@ =~= self.raw());
        }
    }

    /// Whether the buffer is to be filled again before its reader is
    /// answered: a decoder is set and wrote nothing, and the source is not
    /// exhausted.
    pub fn is_starved(&self) -> (r: bool)
        requires
            self.wf(),
        ensures
            r == self.starved(),
    {
        self.decoder.is_some() && self.decoded_pos >= self.decoded_cap && !self.done
    }

    /// Takes over what a run of the decoder did: the `read` first of the raw
    /// bytes that were left are gone, and the `written` first bytes of the
    /// text region are the text that the buffer offers.
    pub fn take_decoded(&mut self, read: usize, written: usize)
        requires
            old(self).wf(),
            read <= old(self).raw().len(),
            written <= TEXT_SIZE,
        ensures
            final(self).wf(),
            final(self).encoding() == old(self).encoding(),
            final(self).raw() == old(self).raw().skip(read as int),
            final(self).text() == old(self).region().subrange(0, written as int),
            final(self).region() == old(self).region(),
            final(self).decoding() == old(self).decoding(),
            final(self).exhausted() == old(self).exhausted(),
            final(self).decoder_state() == old(self).decoder_state(),
    {
        self.undecoded_pos = self.undecoded_pos + read;
        self.decoded_cap = written;
        self.decoded_pos = 0;
        assert(self.raw() =~= old(self).raw().skip(read as int));
    }

    /// Fills the buffer where no decoder is set: while raw bytes are left it
    /// takes nothing, else `input` is what it offers next.
    pub fn fill_buf_without_decode(&mut self, input: &[u8])
        requires
            old(self).wf(),
            !old(self).decoding(),
            input@.len() <= old(self).room(),
        ensures
            final(self).wf(),
            final(self).encoding() == old(self).encoding(),
            !final(self).decoding(),
            final(self).exhausted() == old(self).exhausted(),
            final(self).raw() == old(self).raw() + input@,
            final(self).text() == old(self).text(),
    {
        if self.undecoded_pos >= self.undecoded_cap {
            self.refill(input);
        } else {
            assert(self.raw() + input@ =~= self.raw());
        }
    }

    /// Fills the buffer where a decoder is set. While decoded text is left,
    /// or once the source is exhausted, nothing happens. Else `input` goes
    /// behind the raw bytes that are left, an empty `input` where the
    /// buffer had room marks the source as exhausted, and the decoder runs
    /// once: what it takes leaves the raw bytes, what it does not take
    /// stays, and what it writes is the text that the buffer offers next.
    pub fn fill_buf_decode(&mut self, input: &[u8])
        requires
            old(self).wf(),
            old(self).decoding(),
            input@.len() <= old(self).room(),
        ensures
            final(self).wf(),
            final(self).encoding() == old(self).encoding(),
            final(self).decoding(),
            old(self).text().len() > 0 || old(self).exhausted() ==> {
                &&& final(self).raw() == old(self).raw()
                &&& final(self).text() == old(self).text()
                &&& final(self).exhausted() == old(self).exhausted()
            },
            old(self).text().len() == 0 && !old(self).exhausted() ==> {
                let supplied = old(self).raw() + input@;
                let made = old(self).next_decoded(input@);
                &&& made.0 <= supplied.len()
                &&& final(self).raw() == supplied.skip(made.0 as int)
                &&& final(self).text() == made.1
                &&& final(self).exhausted() == (old(self).room() > 0 && input@.len() == 0)
                &&& valid_utf8(final(self).text())
            },
    {
        if self.decoded_pos >= self.decoded_cap {
            if self.done {
                return ;
            }
            let remaining = self.undecoded_cap - self.undecoded_pos;
            if remaining <= CARRY_SIZE {
                self.refill(input);
                self.done = input.len() == 0;
            } else {
                assert(self.raw() + input@ =~= self.raw());
            }
            let last = self.done;
            let src = slice_subrange(
                self.undecoded.as_slice(),
                self.undecoded_pos,
                self.undecoded_cap,
            );
            let (read, written) = match &mut self.decoder {
                Some(decoder) => decode_to_utf8(decoder, src, &mut self.decoded, last),
                None => (0, 0),
            };
            self.take_decoded(read, written);
        }
    }

    /// Fills the buffer: `input` is what the source delivered when asked
    /// for at most `read_room` bytes, and is empty where the source is at
    /// its end or nothing was asked for.
    pub fn fill_buf(&mut self, input: &[u8])
        requires
            old(self).wf(),
            input@.len() <= old(self).room(),
        ensures
            final(self).wf(),
            final(self).encoding() == old(self).encoding(),
            final(self).decoding() == old(self).decoding(),
            !old(self).decoding() ==> {
                &&& final(self).raw() == old(self).raw() + input@
                &&& final(self).text() == old(self).text()
                &&& final(self).exhausted() == old(self).exhausted()
            },
            old(self).decoding() && (old(self).text().len() > 0 || old(self).exhausted()) ==> {
                &&& final(self).raw() == old(self).raw()
                &&& final(self).text() == old(self).text()
                &&& final(self).exhausted() == old(self).exhausted()
            },
            old(self).decoding() && old(self).text().len() == 0 && !old(self).exhausted() ==> {
                let supplied = old(self).raw() + input@;
                let made = old(self).next_decoded(input@);
                &&& made.0 <= supplied.len()
                &&& final(self).raw() == supplied.skip(made.0 as int)
                &&& final(self).text() == made.1
                &&& final(self).exhausted() == (old(self).room() > 0 && input@.len() == 0)
                &&& valid_utf8(final(self).text())
            },
    {
        if self.decoder.is_some() {
            self.fill_buf_decode(input)
        } else {
            self.fill_buf_without_decode(input)
        }
    }
}

} // verus!
