//! The envelope's text form: `<hex nonce>/<hex ciphertext>/<hex tag>`, three
//! lowercase hexadecimal fields joined by `/`.
use crate::error::CryptoError;
use vstd::prelude::*;
use vstd::string::StringSliceAdditionalSpecFns;
use vstd::utf8::{encode_utf8, is_ascii_chars, is_ascii_chars_encode_utf8};

verus! {

/// The field delimiter `/`, as a byte.
pub const SLASH: u8 = 47;

/// Length in bytes of a nonce.
pub const NONCE_LEN: usize = 12;

/// Length in bytes of an authentication tag.
pub const TAG_LEN: usize = 16;

#[verifier::external_type_specification]
#[verifier::external_body]
pub struct ExFromHexError(hex::FromHexError);

/// A sealed document: nonce, ciphertext and tag.
pub struct Envelope {
    pub nonce: Vec<u8>,
    pub ciphertext: Vec<u8>,
    pub tag: Vec<u8>,
}

impl View for Envelope {
    type V = (Seq<u8>, Seq<u8>, Seq<u8>);

    open spec fn view(&self) -> (Seq<u8>, Seq<u8>, Seq<u8>) {
        (self.nonce@, self.ciphertext@, self.tag@)
    }
}

/// The lowercase hexadecimal digit for a value below sixteen, as a byte.
pub open spec fn hex_digit(v: u8) -> u8 {
    if v < 10 {
        (48 + v) as u8
    } else {
        (87 + v) as u8
    }
}

/// Lowercase hexadecimal text of a byte sequence, high nibble first.
pub open spec fn hex_lower(b: Seq<u8>) -> Seq<u8> {
    Seq::new(
        2 * b.len(),
        |i: int|
            if i % 2 == 0 {
                hex_digit(b[i / 2] / 16)
            } else {
                hex_digit(b[i / 2] % 16)
            },
    )
}

/// Characters whose code points are the given bytes.
pub open spec fn ascii_text(b: Seq<u8>) -> Seq<char> {
    b.map_values(|c: u8| c as char)
}

/// The value of a hexadecimal digit of either case, given as a byte.
pub open spec fn hex_value(c: u8) -> Option<u8> {
    if 48 <= c <= 57 {
        Some((c - 48) as u8)
    } else if 97 <= c <= 102 {
        Some((c - 87) as u8)
    } else if 65 <= c <= 70 {
        Some((c - 55) as u8)
    } else {
        None
    }
}

/// An even number of hexadecimal digits.
pub open spec fn is_hex(s: Seq<u8>) -> bool {
    &&& s.len() % 2 == 0
    &&& forall|i: int| 0 <= i < s.len() ==> #[trigger] hex_value(s[i]) is Some
}

/// The bytes that hexadecimal text stands for, two digits per byte.
pub open spec fn hex_bytes(s: Seq<u8>) -> Seq<u8> {
    Seq::new(
        s.len() / 2,
        |i: int| (hex_value(s[2 * i])->0 * 16 + hex_value(s[2 * i + 1])->0) as u8,
    )
}

/// Positions of the delimiter in a byte sequence, in increasing order.
pub open spec fn slash_positions(b: Seq<u8>) -> Seq<int>
    decreases b.len(),
{
    if b.len() == 0 {
        Seq::empty()
    } else {
        let p = slash_positions(b.drop_last());
        if b.last() == SLASH {
            p.push(b.len() - 1)
        } else {
            p
        }
    }
}

/// The three fields of the text, when it splits on the delimiter into
/// exactly three.
pub open spec fn split_fields(b: Seq<u8>) -> Option<(Seq<u8>, Seq<u8>, Seq<u8>)> {
    let p = slash_positions(b);
    if p.len() == 2 {
        Some((b.subrange(0, p[0]), b.subrange(p[0] + 1, p[1]), b.subrange(p[1] + 1, b.len() as int)))
    } else {
        None
    }
}

/// The envelope that a text stands for: three hexadecimal fields, a nonce
/// of twelve bytes and a tag of sixteen.
pub open spec fn parsed_envelope(b: Seq<u8>) -> Option<(Seq<u8>, Seq<u8>, Seq<u8>)> {
    match split_fields(b) {
        Some((f0, f1, f2)) => {
            if is_hex(f0) && is_hex(f1) && is_hex(f2) && hex_bytes(f0).len() == NONCE_LEN
                && hex_bytes(f2).len() == TAG_LEN {
                Some((hex_bytes(f0), hex_bytes(f1), hex_bytes(f2)))
            } else {
                None
            }
        },
        None => None,
    }
}

/// The text form of an envelope, as bytes.
pub open spec fn envelope_bytes(nonce: Seq<u8>, ciphertext: Seq<u8>, tag: Seq<u8>) -> Seq<u8> {
    hex_lower(nonce) + seq![SLASH] + hex_lower(ciphertext) + seq![SLASH] + hex_lower(tag)
}

/// Relies on hex::encode: two lowercase digits per byte, high nibble first.
#[verifier::external_body]
fn hex_encode(b: &[u8]) -> (r: String)
    ensures
        r@ == ascii_text(hex_lower(b@)),
{
    hex::encode(b)
}

/// Relies on hex::decode: it succeeds exactly on an even number of
/// hexadecimal digits of either case, and gives one byte per pair.
#[verifier::external_body]
fn hex_decode(s: &[u8]) -> (r: Result<Vec<u8>, hex::FromHexError>)
    ensures
        r is Ok <==> is_hex(s@),
        r is Ok ==> r->Ok_0@ == hex_bytes(s@),
{
    hex::decode(s)
}

proof fn lemma_hex_digit(v: u8)
    requires
        v < 16,
    ensures
        hex_digit(v) != SLASH,
        hex_digit(v) < 128,
        hex_value(hex_digit(v)) == Some(v),
{
}

/// Hexadecimal text decodes back to the bytes it was made from, and holds
/// only ASCII characters other than the delimiter.
proof fn lemma_hex_lower(b: Seq<u8>)
    ensures
        is_hex(hex_lower(b)),
        hex_bytes(hex_lower(b)) == b,
        forall|i: int|
            0 <= i < hex_lower(b).len() ==> #[trigger] hex_lower(b)[i] != SLASH
                && hex_lower(b)[i] < 128,
{
    let h = hex_lower(b);
    assert forall|i: int| 0 <= i < h.len() implies #[trigger] hex_value(h[i]) is Some && h[i]
        != SLASH && h[i] < 128 by {
        lemma_hex_digit(b[i / 2] / 16);
        lemma_hex_digit(b[i / 2] % 16);
    }
    assert forall|i: int| 0 <= i < b.len() implies #[trigger] hex_bytes(h)[i] == b[i] by {
        assert((2 * i) / 2 == i && (2 * i) % 2 == 0);
        assert((2 * i + 1) / 2 == i && (2 * i + 1) % 2 == 1);
        lemma_hex_digit(b[i] / 16);
        lemma_hex_digit(b[i] % 16);
        assert(h[2 * i] == hex_digit(b[i] / 16));
        assert(h[2 * i + 1] == hex_digit(b[i] % 16));
    }
    assert(hex_bytes(h) =~= b);
}

/// Appending text without a delimiter adds no delimiter position.
proof fn lemma_append_no_slash(a: Seq<u8>, x: Seq<u8>)
    requires
        forall|i: int| 0 <= i < x.len() ==> #[trigger] x[i] != SLASH,
    ensures
        slash_positions(a + x) == slash_positions(a),
    decreases x.len(),
{
    if x.len() == 0 {
        assert(a + x =~= a);
    } else {
        lemma_append_no_slash(a, x.drop_last());
        assert((a + x).drop_last() =~= a + x.drop_last());
    }
}

proof fn lemma_push_slash(a: Seq<u8>)
    ensures
        slash_positions(a + seq![SLASH]) == slash_positions(a).push(a.len() as int),
{
    assert((a + seq![SLASH]).drop_last() =~= a);
}

/// Delimiter positions lie inside the text, point at delimiters, and
/// increase.
proof fn lemma_slash_positions(b: Seq<u8>)
    ensures
        forall|k: int|
            0 <= k < slash_positions(b).len() ==> 0 <= #[trigger] slash_positions(b)[k] < b.len()
                && b[slash_positions(b)[k]] == SLASH,
        forall|k: int, l: int|
            0 <= k < l < slash_positions(b).len() ==> #[trigger] slash_positions(b)[k]
                < #[trigger] slash_positions(b)[l],
    decreases b.len(),
{
    if b.len() > 0 {
        let d = b.drop_last();
        lemma_slash_positions(d);
        let q = slash_positions(d);
        let p = slash_positions(b);
        assert forall|k: int| 0 <= k < p.len() implies 0 <= #[trigger] p[k] < b.len() && b[p[k]]
            == SLASH by {
            if k < q.len() {
                assert(p[k] == q[k]);
                assert(d[q[k]] == b[q[k]]);
            }
        }
        assert forall|k: int, l: int| 0 <= k < l < p.len() implies #[trigger] p[k] < #[trigger] p[l] by {
            if l < q.len() {
                assert(p[k] == q[k] && p[l] == q[l]);
            } else {
                assert(p[k] == q[k]);
            }
        }
    }
}

/// Three delimiter-free fields joined by the delimiter split back into
/// the same three.
proof fn lemma_split_three(h0: Seq<u8>, h1: Seq<u8>, h2: Seq<u8>)
    requires
        forall|i: int| 0 <= i < h0.len() ==> #[trigger] h0[i] != SLASH,
        forall|i: int| 0 <= i < h1.len() ==> #[trigger] h1[i] != SLASH,
        forall|i: int| 0 <= i < h2.len() ==> #[trigger] h2[i] != SLASH,
    ensures
        split_fields(h0 + seq![SLASH] + h1 + seq![SLASH] + h2) == Some((h0, h1, h2)),
{
    let s1 = h0 + seq![SLASH];
    let s2 = s1 + h1;
    let s3 = s2 + seq![SLASH];
    let e = s3 + h2;
    lemma_append_no_slash(Seq::empty(), h0);
    assert(Seq::<u8>::empty() + h0 =~= h0);
    lemma_push_slash(h0);
    lemma_append_no_slash(s1, h1);
    lemma_push_slash(s2);
    lemma_append_no_slash(s3, h2);
    let p = slash_positions(e);
    assert(p =~= seq![h0.len() as int, s2.len() as int]);
    assert(e.subrange(0, p[0]) =~= h0);
    assert(e.subrange(p[0] + 1, p[1]) =~= h1);
    assert(e.subrange(p[1] + 1, e.len() as int) =~= h2);
}

/// Parsing the text form of an envelope whose nonce and tag have the
/// required lengths gives back the same nonce, ciphertext and tag.
pub proof fn lemma_envelope_round_trip(nonce: Seq<u8>, ciphertext: Seq<u8>, tag: Seq<u8>)
    requires
        nonce.len() == NONCE_LEN,
        tag.len() == TAG_LEN,
    ensures
        parsed_envelope(envelope_bytes(nonce, ciphertext, tag)) == Some((nonce, ciphertext, tag)),
{
    lemma_hex_lower(nonce);
    lemma_hex_lower(ciphertext);
    lemma_hex_lower(tag);
    lemma_split_three(hex_lower(nonce), hex_lower(ciphertext), hex_lower(tag));
}

/// The text form of an envelope is ASCII, so its UTF-8 bytes are the bytes
/// it was written from.
pub proof fn lemma_envelope_utf8(nonce: Seq<u8>, ciphertext: Seq<u8>, tag: Seq<u8>)
    ensures
        encode_utf8(ascii_text(envelope_bytes(nonce, ciphertext, tag))) == envelope_bytes(
            nonce,
            ciphertext,
            tag,
        ),
{
    let e = envelope_bytes(nonce, ciphertext, tag);
    let t = ascii_text(e);
    lemma_hex_lower(nonce);
    lemma_hex_lower(ciphertext);
    lemma_hex_lower(tag);
    assert forall|i: int| 0 <= i < e.len() implies #[trigger] e[i] < 128 by {
        let h0 = hex_lower(nonce);
        let h1 = hex_lower(ciphertext);
        if i < h0.len() {
            assert(e[i] == h0[i]);
        } else if i == h0.len() {
        } else if i < h0.len() + 1 + h1.len() {
            assert(e[i] == h1[i - h0.len() - 1]);
        } else if i == h0.len() + 1 + h1.len() {
        } else {
            assert(e[i] == hex_lower(tag)[i - h0.len() - 2 - h1.len()]);
        }
    }
    assert(is_ascii_chars(t));
    is_ascii_chars_encode_utf8(t);
    assert(encode_utf8(t) =~= e);
}

/// Writes an envelope in its text form.
pub fn serialize(envelope: &Envelope) -> (r: String)
    ensures
        r@ == ascii_text(envelope_bytes(envelope.nonce@, envelope.ciphertext@, envelope.tag@)),
{
    let mut out = hex_encode(envelope.nonce.as_slice());
    let body = hex_encode(envelope.ciphertext.as_slice());
    let tag = hex_encode(envelope.tag.as_slice());
    out.append("/");
    out.append(body.as_str());
    out.append("/");
    out.append(tag.as_str());
    proof {
        reveal_strlit("/");
        assert(ascii_text(seq![SLASH]) =~= "/"@);
        let h0 = hex_lower(envelope.nonce@);
        let h1 = hex_lower(envelope.ciphertext@);
        let h2 = hex_lower(envelope.tag@);
        assert(ascii_text(h0 + seq![SLASH] + h1 + seq![SLASH] + h2) =~= ascii_text(h0)
            + ascii_text(seq![SLASH]) + ascii_text(h1) + ascii_text(seq![SLASH]) + ascii_text(
            h2,
        ));
    }
    out
}

/// Reads an envelope from its text form. Fails with `Format` unless the
/// text splits on `/` into exactly three hexadecimal fields whose first
/// stands for twelve bytes and whose last stands for sixteen.
pub fn deserialize(input: &str) -> (r: Result<Envelope, CryptoError>)
    ensures
        match r {
            Ok(e) => parsed_envelope(input.spec_bytes()) == Some(e@),
            Err(err) => parsed_envelope(input.spec_bytes()) is None && err == CryptoError::Format,
        },
{
    let b: &[u8] = input.as_bytes();
    let mut cuts: Vec<usize> = Vec::new();
    let mut i: usize = 0;
    while i < b.len()
        invariant
            i <= b@.len(),
            cuts@.len() == slash_positions(b@.subrange(0, i as int)).len(),
            forall|k: int|
                0 <= k < cuts@.len() ==> cuts@[k] as int == #[trigger] slash_positions(
                    b@.subrange(0, i as int),
                )[k],
        decreases b.len() - i,
    {
        assert(b@.subrange(0, i + 1).drop_last() =~= b@.subrange(0, i as int));
        if b[i] == SLASH {
            cuts.push(i);
        }
        i = i + 1;
    }
    assert(b@.subrange(0, b@.len() as int) =~= b@);
    if cuts.len() != 2 {
        return Err(CryptoError::Format);
    }
    proof {
        lemma_slash_positions(b@);
    }
    let c0 = cuts[0];
    let c1 = cuts[1];
    let nonce = match hex_decode(&b[0..c0]) {
        Ok(v) => v,
        Err(_) => return Err(CryptoError::Format),
    };
    let ciphertext = match hex_decode(&b[c0 + 1..c1]) {
        Ok(v) => v,
        Err(_) => return Err(CryptoError::Format),
    };
    let tag = match hex_decode(&b[c1 + 1..b.len()]) {
        Ok(v) => v,
        Err(_) => return Err(CryptoError::Format),
    };
    if nonce.len() != NONCE_LEN || tag.len() != TAG_LEN {
        return Err(CryptoError::Format);
    }
    Ok(Envelope { nonce, ciphertext, tag })
}

} // verus!
