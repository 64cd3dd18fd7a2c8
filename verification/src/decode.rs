//! Guessing a saved page's text encoding and decoding it.
use vstd::prelude::*;

verus! {

#[verifier::external_type_specification]
#[verifier::external_body]
pub struct ExDecoder(encoding_rs::Decoder);

/// The name of the encoding chardetng guesses for `bytes` when it is fed all
/// of them at once (no top-level domain, UTF-8 allowed).
pub uninterp spec fn guessed_encoding(bytes: Seq<u8>) -> Seq<char>;

/// The text a fresh encoding_rs decoder for the encoding named `enc` (which
/// sniffs a byte order mark) has written once it has read `input`, with more
/// input still to come: an incomplete sequence at the end is held back. The
/// decoder is a state machine over the bytes read, so this text does not
/// depend on how the input was split into calls.
pub uninterp spec fn stream_decoded(enc: Seq<char>, input: Seq<u8>) -> Seq<char>;

/// The name of the encoding that decoder `d` decodes.
pub uninterp spec fn decoder_encoding(d: encoding_rs::Decoder) -> Seq<char>;

/// The bytes decoder `d` has read since it was made: the stream whose
/// state it holds.
pub uninterp spec fn decoder_read(d: encoding_rs::Decoder) -> Seq<u8>;

/// The text of `bytes` read with the encoding guessed for them, an
/// incomplete sequence at the very end left out.
pub open spec fn guessed_decoding(bytes: Seq<u8>) -> Seq<char> {
    stream_decoded(guessed_encoding(bytes), bytes)
}

/// chardetng's `EncodingDetector`, fed all of `bytes` (`feed(bytes, true)`),
/// guesses their encoding (`guess(None, true)`); encoding_rs's `new_decoder`
/// makes a decoder for it, which has read nothing and written nothing.
#[verifier::external_body]
fn guess_decoder(bytes: &[u8]) -> (d: encoding_rs::Decoder)
    ensures
        decoder_encoding(d) == guessed_encoding(bytes@),
        decoder_read(d) == Seq::<u8>::empty(),
        stream_decoded(decoder_encoding(d), decoder_read(d)) == Seq::<char>::empty(),
{
    let mut detector = chardetng::EncodingDetector::new();
    detector.feed(bytes, true);
    detector.guess(None, true).new_decoder()
}

/// `Decoder::decode_to_str(src, dst, false)` into a fresh buffer of `room`
/// bytes (encoding_rs asks for at least four). It gives whether the output
/// filled up (`OutputFull`, not `InputEmpty`), how many bytes were read and
/// written, and the text written. The decoder keeps its encoding and has read
/// `src[..read]` more; the text is what its output grows by; `InputEmpty`
/// means all of `src` was read; a character takes at least one byte. With a
/// whole eight-byte buffer the decoder always has room for its next piece of
/// output (at most a replacement character and one more character), so it
/// reports the buffer full only after writing something into it.
#[verifier::external_body]
fn decode_step(d: &mut encoding_rs::Decoder, src: &[u8], room: usize) -> (r: (bool, usize, usize, String))
    requires
        4 <= room <= 8,
    ensures
        decoder_encoding(*final(d)) == decoder_encoding(*old(d)),
        r.1 <= src@.len(),
        decoder_read(*final(d)) == decoder_read(*old(d)) + src@.subrange(0, r.1 as int),
        stream_decoded(decoder_encoding(*old(d)), decoder_read(*final(d))) == stream_decoded(decoder_encoding(*old(d)), decoder_read(*old(d))) + r.3@,
        !r.0 ==> r.1 == src@.len(),
        r.3@.len() <= r.2 <= room,
        room == 8 && r.0 ==> r.3@.len() > 0,
{
    let mut buffer = [0u8; 8];
    let dst = std::str::from_utf8_mut(&mut buffer[..room]).unwrap();
    let (result, read, written, _) = d.decode_to_str(src, dst, false);
    let full = match result {
        encoding_rs::CoderResult::InputEmpty => false,
        encoding_rs::CoderResult::OutputFull => true,
    };
    (full, read, written, dst[..written].to_string())
}

/// Decode a saved page with the encoding guessed for it, through an
/// eight-byte buffer: each time the buffer fills it is added to the text; the
/// text written in the last round, once the input has run out, is not added.
/// So the result is the decoder's text after some first part of the input,
/// and at most eight characters short of the whole decoded page.
pub fn decode_bytes(bytes: &[u8]) -> (r: String)
    ensures
        r@.is_prefix_of(guessed_decoding(bytes@)),
        guessed_decoding(bytes@).len() - r@.len() <= 8,
        exists|k: int| 0 <= k <= bytes@.len()
            && r@ == #[trigger] stream_decoded(guessed_encoding(bytes@), bytes@.take(k)),
{
    let mut decoder = guess_decoder(bytes);
    let ghost enc = guessed_encoding(bytes@);
    let mut output = String::new();
    let mut read_total: usize = 0;
    let mut done = false;
    let ghost mut last: Seq<char> = Seq::empty();
    let ghost mut k: int = 0;
    let n = bytes.len();
    proof {
        assert(bytes@.take(0) =~= Seq::<u8>::empty());
    }
    while !done
        invariant
            n == bytes@.len(),
            read_total <= bytes@.len(),
            decoder_encoding(decoder) == enc,
            decoder_read(decoder) == bytes@.take(read_total as int),
            0 <= k <= bytes@.len(),
            output@ == stream_decoded(enc, bytes@.take(k)),
            !done ==> k == read_total && last.len() == 0,
            done ==> read_total == bytes@.len() && last.len() <= 8,
            stream_decoded(enc, decoder_read(decoder)) == output@ + last,
        decreases n - read_total + (if done { 0int } else { 1int }),
    {
        let rest = bytes.split_at(read_total).1;
        assert(rest@.len() == bytes@.len() - read_total);
        let ghost before = decoder_read(decoder);
        let (full, read, _written, text) = decode_step(&mut decoder, rest, 8);
        proof {
            assert(decoder_read(decoder) =~= bytes@.take(read_total + read));
            if full && read == 0 {
                assert(decoder_read(decoder) =~= before);
                assert((stream_decoded(enc, before) + text@).len() == stream_decoded(enc, before).len() + text@.len());
            }
        }
        read_total = read_total + read;
        if full {
            output.append(text.as_str());
            proof {
                k = read_total as int;
            }
        } else {
            done = true;
            proof {
                last = text@;
            }
        }
    }
    proof {
        assert(decoder_read(decoder) =~= bytes@);
        let whole = stream_decoded(enc, bytes@);
        assert(whole == output@ + last);
        assert(whole.subrange(0, output@.len() as int) =~= output@);
    }
    output
}

} // verus!
