//! Undoing the `Content-Encoding` of a subscription response, within the size limit.
use std::io::Read;

use vstd::prelude::*;

use crate::fetcher::MAX_SUBSCRIPTION_BYTES;
use crate::text::{
    ascii_lower, chars_of, concat, decimal, decimal_of, has_prefix, lowercase, same_str, split,
    split_all, starts_with, string_from, texts_view, trim, trimmed,
};

verus! {

/// The most bytes a decoded body may have.
pub const DECODED_BODY_LIMIT: usize = MAX_SUBSCRIPTION_BYTES;

/// How many bytes a decoder is asked for: one more than the limit, so that a body over
/// the limit shows.
pub const DECODED_BODY_LIMIT_PLUS_ONE: u64 = 5 * 1024 * 1024 + 1;

/// What `brotli::Decompressor` yields from `payload`, read through `Read::take(cap)`:
/// the bytes, or the text of the read error.
pub uninterp spec fn brotli_read(payload: Seq<u8>, cap: u64) -> Result<Seq<u8>, Seq<char>>;

/// What `flate2::read::GzDecoder` yields from `payload`, read through `Read::take(cap)`.
pub uninterp spec fn gzip_read(payload: Seq<u8>, cap: u64) -> Result<Seq<u8>, Seq<char>>;

/// What `flate2::read::ZlibDecoder` yields from `payload`, read through `Read::take(cap)`.
pub uninterp spec fn zlib_read(payload: Seq<u8>, cap: u64) -> Result<Seq<u8>, Seq<char>>;

/// What `flate2::read::DeflateDecoder` (raw deflate, no zlib header) yields from
/// `payload`, read through `Read::take(cap)`.
pub uninterp spec fn raw_deflate_read(payload: Seq<u8>, cap: u64) -> Result<Seq<u8>, Seq<char>>;

/// The view of a read outcome.
pub open spec fn read_view(r: Result<Vec<u8>, String>) -> Result<Seq<u8>, Seq<char>> {
    match r {
        Ok(d) => Ok(d@),
        Err(e) => Err(e@),
    }
}

/// At most `cap` bytes when the read succeeded.
pub open spec fn within(r: Result<Vec<u8>, String>, cap: u64) -> bool {
    match r {
        Ok(d) => d@.len() <= cap,
        Err(_) => true,
    }
}

/// Decompresses Brotli with `brotli::Decompressor` (4096-byte buffer), reading at most
/// `cap` bytes with `Read::take` and `read_to_end`; a read error becomes its text. The
/// outcome is named by [`brotli_read`]; `take` never yields more than `cap` bytes.
#[verifier::external_body]
fn read_brotli(payload: &[u8], cap: u64) -> (r: Result<Vec<u8>, String>)
    ensures
        read_view(r) == brotli_read(payload@, cap),
        within(r, cap),
{
    let mut decoded = Vec::new();
    match brotli::Decompressor::new(payload, 4096).take(cap).read_to_end(&mut decoded) {
        Ok(_) => Ok(decoded),
        Err(error) => Err(error.to_string()),
    }
}

/// Decompresses gzip with `flate2::read::GzDecoder`, reading at most `cap` bytes; see
/// [`read_brotli`]. The outcome is named by [`gzip_read`].
#[verifier::external_body]
fn read_gzip(payload: &[u8], cap: u64) -> (r: Result<Vec<u8>, String>)
    ensures
        read_view(r) == gzip_read(payload@, cap),
        within(r, cap),
{
    let mut decoded = Vec::new();
    match flate2::read::GzDecoder::new(payload).take(cap).read_to_end(&mut decoded) {
        Ok(_) => Ok(decoded),
        Err(error) => Err(error.to_string()),
    }
}

/// Decompresses zlib-wrapped deflate with `flate2::read::ZlibDecoder`, reading at most
/// `cap` bytes; see [`read_brotli`]. The outcome is named by [`zlib_read`].
#[verifier::external_body]
fn read_zlib(payload: &[u8], cap: u64) -> (r: Result<Vec<u8>, String>)
    ensures
        read_view(r) == zlib_read(payload@, cap),
        within(r, cap),
{
    let mut decoded = Vec::new();
    match flate2::read::ZlibDecoder::new(payload).take(cap).read_to_end(&mut decoded) {
        Ok(_) => Ok(decoded),
        Err(error) => Err(error.to_string()),
    }
}

/// Decompresses raw deflate with `flate2::read::DeflateDecoder`, reading at most `cap`
/// bytes; see [`read_brotli`]. The outcome is named by [`raw_deflate_read`].
#[verifier::external_body]
fn read_raw_deflate(payload: &[u8], cap: u64) -> (r: Result<Vec<u8>, String>)
    ensures
        read_view(r) == raw_deflate_read(payload@, cap),
        within(r, cap),
{
    let mut decoded = Vec::new();
    match flate2::read::DeflateDecoder::new(payload).take(cap).read_to_end(&mut decoded) {
        Ok(_) => Ok(decoded),
        Err(error) => Err(error.to_string()),
    }
}

/// The message of a decoded body of `actual` bytes, over the limit.
pub open spec fn too_large_text(actual: nat) -> Seq<char> {
    "上游响应体过大："@ + decimal(actual) + " bytes（限制 "@ + decimal(DECODED_BODY_LIMIT as nat)
        + " bytes）"@
}

/// Whether an error message reports a decoded body over the limit.
pub open spec fn too_large(message: Seq<char>) -> bool {
    starts_with(message, "上游响应体过大："@)
}

/// What a bounded read of a decoder gives: its error, prefixed with the encoding's
/// label; an error when the bytes are over the limit; else the bytes.
pub open spec fn bounded(read: Result<Seq<u8>, Seq<char>>, label: Seq<char>) -> Result<Seq<u8>, Seq<char>> {
    match read {
        Err(e) => Err(label + " 解压失败："@ + e),
        Ok(d) => if d.len() > DECODED_BODY_LIMIT {
            Err(too_large_text(d.len()))
        } else {
            Ok(d)
        },
    }
}

/// Undoes one encoding: `br`, `gzip` (or `x-gzip`), `deflate` (zlib-wrapped, else raw
/// unless the zlib read was over the limit); any other encoding leaves the payload.
pub open spec fn decode_step(payload: Seq<u8>, encoding: Seq<char>) -> Result<Seq<u8>, Seq<char>> {
    if encoding == "br"@ {
        bounded(brotli_read(payload, DECODED_BODY_LIMIT_PLUS_ONE), "br"@)
    } else if encoding == "gzip"@ || encoding == "x-gzip"@ {
        bounded(gzip_read(payload, DECODED_BODY_LIMIT_PLUS_ONE), "gzip"@)
    } else if encoding == "deflate"@ {
        match bounded(zlib_read(payload, DECODED_BODY_LIMIT_PLUS_ONE), "deflate"@) {
            Ok(d) => Ok(d),
            Err(e) => if too_large(e) {
                Err(e)
            } else {
                bounded(raw_deflate_read(payload, DECODED_BODY_LIMIT_PLUS_ONE), "deflate"@)
            },
        }
    } else {
        Ok(payload)
    }
}

/// An encoding this module decodes.
pub open spec fn is_compression(encoding: Seq<char>) -> bool {
    encoding == "br"@ || encoding == "gzip"@ || encoding == "x-gzip"@ || encoding == "deflate"@
}

/// The encodings among comma-separated pieces: each trimmed and in ASCII lowercase,
/// blank ones and `identity` left out.
pub open spec fn listed_encodings(pieces: Seq<Seq<char>>) -> Seq<Seq<char>>
    decreases pieces.len(),
{
    if pieces.len() == 0 {
        Seq::empty()
    } else {
        let e = ascii_lower(trim(pieces.last()));
        if e.len() > 0 && e != "identity"@ {
            listed_encodings(pieces.drop_last()).push(e)
        } else {
            listed_encodings(pieces.drop_last())
        }
    }
}

/// The encodings a `Content-Encoding` header lists, in the order they were applied.
pub open spec fn encodings_of(content_encoding: Option<Seq<char>>) -> Seq<Seq<char>> {
    match content_encoding {
        None => Seq::empty(),
        Some(ce) => if trim(ce).len() == 0 {
            Seq::empty()
        } else {
            listed_encodings(split(trim(ce), ','))
        },
    }
}

/// Undoes `encodings`, the last applied first.
pub open spec fn apply_encodings(payload: Seq<u8>, encodings: Seq<Seq<char>>) -> Result<Seq<u8>, Seq<char>>
    decreases encodings.len(),
{
    if encodings.len() == 0 {
        Ok(payload)
    } else {
        match decode_step(payload, encodings.last()) {
            Err(e) => Err(e),
            Ok(p) => apply_encodings(p, encodings.drop_last()),
        }
    }
}

/// The body a response decodes to, given its `Content-Encoding` header.
pub open spec fn decoded_body(raw: Seq<u8>, content_encoding: Option<Seq<char>>) -> Result<Seq<u8>, Seq<char>> {
    apply_encodings(raw, encodings_of(content_encoding))
}

/// A body decompressed by at least one of the listed encodings is within the limit.
pub proof fn lemma_decoded_within_limit(payload: Seq<u8>, encodings: Seq<Seq<char>>)
    requires
        exists|i: int| 0 <= i < encodings.len() && is_compression(#[trigger] encodings[i]),
        apply_encodings(payload, encodings) is Ok,
    ensures
        apply_encodings(payload, encodings)->Ok_0.len() <= DECODED_BODY_LIMIT,
    decreases encodings.len(),
{
    let last = encodings.last();
    let step = decode_step(payload, last);
    let rest = encodings.drop_last();
    let p = step->Ok_0;
    if exists|i: int| 0 <= i < rest.len() && is_compression(#[trigger] rest[i]) {
        lemma_decoded_within_limit(p, rest);
    } else {
        let i = choose|i: int| 0 <= i < encodings.len() && is_compression(#[trigger] encodings[i]);
        if i < encodings.len() - 1 {
            assert(rest[i] == encodings[i]);
        }
        assert(is_compression(last));
        lemma_passes_through(p, rest);
    }
}

/// Encodings that are not compressions leave the payload as it is.
pub proof fn lemma_passes_through(payload: Seq<u8>, encodings: Seq<Seq<char>>)
    requires
        forall|i: int| 0 <= i < encodings.len() ==> !is_compression(#[trigger] encodings[i]),
    ensures
        apply_encodings(payload, encodings) == Ok::<Seq<u8>, Seq<char>>(payload),
    decreases encodings.len(),
{
    if encodings.len() > 0 {
        assert(!is_compression(encodings[encodings.len() - 1]));
        let rest = encodings.drop_last();
        assert forall|i: int| 0 <= i < rest.len() implies !is_compression(#[trigger] rest[i]) by {
            assert(rest[i] == encodings[i]);
        }
        lemma_passes_through(payload, rest);
    }
}

/// The message of a decoded body over the limit.
pub fn response_body_too_large_message(actual_bytes: usize) -> (r: String)
    ensures
        r@ == too_large_text(actual_bytes as nat),
{
    let a = concat(chars_of("上游响应体过大：").as_slice(), decimal_of(actual_bytes as u128).as_slice());
    let b = concat(a.as_slice(), chars_of(" bytes（限制 ").as_slice());
    let c = concat(b.as_slice(), decimal_of(DECODED_BODY_LIMIT as u128).as_slice());
    let d = concat(c.as_slice(), chars_of(" bytes）").as_slice());
    string_from(d.as_slice())
}

/// Whether an error message reports a decoded body over the limit.
pub fn is_decoded_body_too_large(error: &str) -> (r: bool)
    ensures
        r == too_large(error@),
{
    has_prefix(chars_of(error).as_slice(), chars_of("上游响应体过大：").as_slice())
}

/// What a bounded read of a decoder gives (see [`bounded`]).
pub fn read_bounded_decode(read: Result<Vec<u8>, String>, label: &str) -> (r: Result<Vec<u8>, String>)
    ensures
        read_view(r) == bounded(read_view(read), label@),
{
    match read {
        Err(error) => {
            let m = concat(
                concat(chars_of(label).as_slice(), chars_of(" 解压失败：").as_slice()).as_slice(),
                chars_of(error.as_str()).as_slice(),
            );
            Err(string_from(m.as_slice()))
        },
        Ok(decoded) => {
            if decoded.len() > DECODED_BODY_LIMIT {
                Err(response_body_too_large_message(decoded.len()))
            } else {
                Ok(decoded)
            }
        },
    }
}

fn decode_brotli(payload: &[u8]) -> (r: Result<Vec<u8>, String>)
    ensures
        read_view(r) == bounded(brotli_read(payload@, DECODED_BODY_LIMIT_PLUS_ONE), "br"@),
{
    read_bounded_decode(read_brotli(payload, DECODED_BODY_LIMIT_PLUS_ONE), "br")
}

fn decode_gzip(payload: &[u8]) -> (r: Result<Vec<u8>, String>)
    ensures
        read_view(r) == bounded(gzip_read(payload@, DECODED_BODY_LIMIT_PLUS_ONE), "gzip"@),
{
    read_bounded_decode(read_gzip(payload, DECODED_BODY_LIMIT_PLUS_ONE), "gzip")
}

fn decode_deflate(payload: &[u8]) -> (r: Result<Vec<u8>, String>)
    ensures
        read_view(r) == decode_step(payload@, "deflate"@),
{
    proof {
        reveal_strlit("deflate");
        reveal_strlit("br");
        reveal_strlit("gzip");
        reveal_strlit("x-gzip");
    }
    match read_bounded_decode(read_zlib(payload, DECODED_BODY_LIMIT_PLUS_ONE), "deflate") {
        Ok(decoded) => Ok(decoded),
        Err(zlib_error) => {
            if is_decoded_body_too_large(zlib_error.as_str()) {
                Err(zlib_error)
            } else {
                read_bounded_decode(read_raw_deflate(payload, DECODED_BODY_LIMIT_PLUS_ONE), "deflate")
            }
        },
    }
}

/// Undoes one encoding (see [`decode_step`]).
fn decode_one(payload: Vec<u8>, encoding: &[char]) -> (r: Result<Vec<u8>, String>)
    ensures
        read_view(r) == decode_step(payload@, encoding@),
{
    if same_str(encoding, "br") {
        decode_brotli(payload.as_slice())
    } else if same_str(encoding, "gzip") || same_str(encoding, "x-gzip") {
        decode_gzip(payload.as_slice())
    } else if same_str(encoding, "deflate") {
        decode_deflate(payload.as_slice())
    } else {
        Ok(payload)
    }
}

/// The encodings a non-blank `Content-Encoding` header lists (see [`listed_encodings`]).
fn encoding_list(header: &[char]) -> (r: Vec<Vec<char>>)
    ensures
        texts_view(r@) == listed_encodings(split(header@, ',')),
{
    let pieces = split_all(header, ',');
    let ghost pv = split(header@, ',');
    let mut out: Vec<Vec<char>> = Vec::new();
    let mut i: usize = 0;
    assert(pv.take(0) =~= Seq::<Seq<char>>::empty());
    assert(texts_view(out@) =~= Seq::<Seq<char>>::empty());
    while i < pieces.len()
        invariant
            i <= pieces@.len(),
            pieces@.len() == pv.len(),
            forall|k: int| 0 <= k < pieces@.len() ==> #[trigger] pieces@[k]@ == pv[k],
            texts_view(out@) == listed_encodings(pv.take(i as int)),
        decreases pieces@.len() - i,
    {
        proof {
            assert(pv.take(i + 1).drop_last() =~= pv.take(i as int));
            assert(pv.take(i + 1).last() == pieces@[i as int]@);
        }
        let e = lowercase(trimmed(pieces[i].as_slice()).as_slice());
        if e.len() > 0 && !same_str(e.as_slice(), "identity") {
            let ghost prev = out@;
            out.push(e);
            assert(texts_view(out@) =~= texts_view(prev).push(e@));
        }
        i += 1;
    }
    assert(pv.take(pieces@.len() as int) =~= pv);
    out
}

/// Decodes a response body by its `Content-Encoding` header: the listed encodings are
/// undone from the last to the first; `identity` and unknown encodings leave the body as
/// it is. Each decompression reads at most one byte past [`DECODED_BODY_LIMIT`] and fails
/// when the output is over it.
pub fn decode_response_body(raw: Vec<u8>, content_encoding: Option<&str>) -> (r: Result<Vec<u8>, String>)
    ensures
        read_view(r) == decoded_body(
            raw@,
            match content_encoding {
                Some(c) => Some(c@),
                None => None,
            },
        ),
        ({
            let encodings = encodings_of(
                match content_encoding {
                    Some(c) => Some(c@),
                    None => None,
                },
            );
            (r is Ok && exists|i: int| 0 <= i < encodings.len() && is_compression(#[trigger] encodings[i]))
                ==> r->Ok_0@.len() <= DECODED_BODY_LIMIT
        }),
{
    let ghost ce = match content_encoding {
        Some(c) => Some(c@),
        None => None::<Seq<char>>,
    };
    let ghost all = encodings_of(ce);
    let header = match content_encoding {
        None => {
            return Ok(raw);
        },
        Some(c) => trimmed(chars_of(c).as_slice()),
    };
    if header.len() == 0 {
        return Ok(raw);
    }
    let mut encodings = encoding_list(header.as_slice());
    let mut payload = raw;
    while encodings.len() > 0
        invariant
            ce == match content_encoding {
                Some(c) => Some(c@),
                None => None,
            },
            decoded_body(raw@, ce) == apply_encodings(payload@, texts_view(encodings@)),
        decreases encodings@.len(),
    {
        let ghost before = texts_view(encodings@);
        let encoding = encodings.pop().unwrap();
        proof {
            assert(texts_view(encodings@) =~= before.drop_last());
            assert(encoding@ == before.last());
        }
        let ghost p0 = payload@;
        let step = decode_one(payload, encoding.as_slice());
        match step {
            Ok(p) => {
                payload = p;
            },
            Err(e) => {
                assert(apply_encodings(p0, before) == Err::<Seq<u8>, Seq<char>>(e@));
                return Err(e);
            },
        }
    }
    proof {
        if exists|i: int| 0 <= i < all.len() && is_compression(#[trigger] all[i]) {
            lemma_decoded_within_limit(raw@, all);
        }
    }
    Ok(payload)
}

} // verus!
