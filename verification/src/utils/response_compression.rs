//! How response bodies are compressed.

use crate::codecs;
use crate::utils::compress_encoder;
use crate::utils::compress_encoder::CompressionEncoder;
use vstd::prelude::*;

verus! {

/// The best of the accepted encodings that bodies can be sent in.
pub open spec fn preferred(encodings: Seq<CompressionEncoder>) -> CompressionEncoder {
    if encodings.contains(CompressionEncoder::StatsigBrotli) {
        CompressionEncoder::StatsigBrotli
    } else if encodings.contains(CompressionEncoder::Brotli) {
        CompressionEncoder::Brotli
    } else if encodings.contains(CompressionEncoder::Gzip) {
        CompressionEncoder::Gzip
    } else {
        CompressionEncoder::PlainText
    }
}

pub fn preferred_response_compression(encodings: &[CompressionEncoder]) -> (r: CompressionEncoder)
    ensures
        r == preferred(encodings@),
{
    if compress_encoder::has_encoder(encodings, CompressionEncoder::StatsigBrotli) {
        CompressionEncoder::StatsigBrotli
    } else if compress_encoder::has_encoder(encodings, CompressionEncoder::Brotli) {
        CompressionEncoder::Brotli
    } else if compress_encoder::has_encoder(encodings, CompressionEncoder::Gzip) {
        CompressionEncoder::Gzip
    } else {
        CompressionEncoder::PlainText
    }
}

/// A body in an encoding, where bodies are sent in it: gzip at its best level,
/// brotli at quality 5 with a window of 22 bits.
pub open spec fn compressed(payload: Seq<u8>, encoding: CompressionEncoder) -> Option<Seq<u8>> {
    match encoding {
        CompressionEncoder::PlainText => Some(payload),
        CompressionEncoder::Gzip => codecs::gzipped(payload, 9),
        CompressionEncoder::Brotli => codecs::brotlied(payload, 4096, 5, 22),
        CompressionEncoder::StatsigBrotli => codecs::brotlied(payload, 4096, 5, 22),
        _ => None,
    }
}

/// What a body in an encoding holds.
pub open spec fn decompressed(body: Seq<u8>, encoding: CompressionEncoder) -> Option<Seq<u8>> {
    match encoding {
        CompressionEncoder::PlainText => Some(body),
        CompressionEncoder::Gzip => codecs::gunzipped(body),
        CompressionEncoder::Brotli => codecs::unbrotlied(body, 4096),
        CompressionEncoder::StatsigBrotli => codecs::unbrotlied(body, 4096),
        _ => None,
    }
}

/// A compressed body reads back as what went in.
pub fn compress_response_payload(payload: &[u8], encoding: CompressionEncoder) -> (r: Option<
    Vec<u8>,
>)
    ensures
        codecs::bytes_option(r) == compressed(payload@, encoding),
        r matches Some(body) ==> decompressed(body@, encoding) == Some(payload@),
{
    match encoding {
        CompressionEncoder::PlainText => {
            let mut r: Vec<u8> = Vec::new();
            r.extend_from_slice(payload);
            assert(r@ =~= payload@);
            Some(r)
        },
        CompressionEncoder::Gzip => codecs::gzip(payload, 9),
        CompressionEncoder::Brotli | CompressionEncoder::StatsigBrotli => codecs::brotli_compress(
            payload,
            4096,
            5,
            22,
        ),
        _ => None,
    }
}

/// The `Content-Encoding` of a body, where it has one.
pub open spec fn content_encoding(encoding: CompressionEncoder) -> Option<Seq<char>> {
    if encoding == CompressionEncoder::PlainText || encoding == CompressionEncoder::Identity {
        None
    } else {
        Some(compress_encoder::encoder_name(encoding))
    }
}

pub fn content_encoding_header_value(encoding: CompressionEncoder) -> (r: Option<&'static str>)
    ensures
        match r {
            Some(t) => content_encoding(encoding) == Some(t@),
            None => content_encoding(encoding) is None,
        },
{
    match encoding {
        CompressionEncoder::PlainText | CompressionEncoder::Identity => None,
        _ => Some(encoding.to_str()),
    }
}

/// A body is only ever sent in an encoding that was accepted, or as it is.
pub proof fn law_bodies_are_sent_as_accepted(encodings: Seq<CompressionEncoder>)
    ensures
        preferred(encodings) == CompressionEncoder::PlainText || encodings.contains(
            preferred(encodings),
        ),
        content_encoding(preferred(encodings)) is None <==> preferred(encodings)
            == CompressionEncoder::PlainText,
{
}

/// Statsig's brotli is taken wherever it is accepted, plain brotli where that is not, and
/// gzip only where neither is. Nothing else is ever chosen.
pub proof fn law_the_best_accepted_encoding_is_chosen(encodings: Seq<CompressionEncoder>)
    ensures
        preferred(encodings) == CompressionEncoder::StatsigBrotli <==> encodings.contains(
            CompressionEncoder::StatsigBrotli,
        ),
        preferred(encodings) == CompressionEncoder::Brotli <==> encodings.contains(
            CompressionEncoder::Brotli,
        ) && !encodings.contains(CompressionEncoder::StatsigBrotli),
        preferred(encodings) == CompressionEncoder::Gzip <==> encodings.contains(
            CompressionEncoder::Gzip,
        ) && !encodings.contains(CompressionEncoder::StatsigBrotli) && !encodings.contains(
            CompressionEncoder::Brotli,
        ),
        preferred(encodings) == CompressionEncoder::PlainText <==> !encodings.contains(
            CompressionEncoder::StatsigBrotli,
        ) && !encodings.contains(CompressionEncoder::Brotli) && !encodings.contains(
            CompressionEncoder::Gzip,
        ),
{
}

/// The header that names the encoding of a body is read back as that encoding. A body
/// without the header is as it is.
pub proof fn law_headers_name_the_encoding(
    payload: Seq<u8>,
    encoding: CompressionEncoder,
    encodings: Seq<CompressionEncoder>,
)
    ensures
        content_encoding(encoding) matches Some(name) ==> compress_encoder::encoder_named(name)
            == Some(encoding),
        content_encoding(encoding) is None <==> encoding == CompressionEncoder::PlainText
            || encoding == CompressionEncoder::Identity,
        content_encoding(preferred(encodings)) is None ==> compressed(
            payload,
            preferred(encodings),
        ) == Some(payload),
{
    compress_encoder::law_encodings_are_read_by_name(encoding, Seq::empty());
}

} // verus!
