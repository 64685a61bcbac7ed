//! The `Sec-WebSocket-Accept` value: the SHA-1 digest of the client's key
//! followed by the WebSocket GUID, encoded in standard base64.

use vstd::prelude::*;

verus! {

/// The GUID that RFC 6455 appends to the client's key before hashing.
pub const WEBSOCKET_GUID: &'static str = "258EAFA5-E914-47DA-95CA-C5AB0DC85B11";

/// SHA-1 of a byte sequence (20 bytes), as the `sha1` crate computes it.
pub uninterp spec fn sha1_digest(data: Seq<u8>) -> Seq<u8>;

/// The standard base64 alphabet of RFC 4648: the character for each 6-bit value.
pub open spec fn base64_alphabet() -> Seq<char> {
    seq![
        'A', 'B', 'C', 'D', 'E', 'F', 'G', 'H', 'I', 'J', 'K', 'L', 'M',
        'N', 'O', 'P', 'Q', 'R', 'S', 'T', 'U', 'V', 'W', 'X', 'Y', 'Z',
        'a', 'b', 'c', 'd', 'e', 'f', 'g', 'h', 'i', 'j', 'k', 'l', 'm',
        'n', 'o', 'p', 'q', 'r', 's', 't', 'u', 'v', 'w', 'x', 'y', 'z',
        '0', '1', '2', '3', '4', '5', '6', '7', '8', '9', '+', '/',
    ]
}

/// The alphabet character of a 6-bit value.
pub open spec fn b64(v: int) -> char {
    base64_alphabet()[v]
}

/// Standard padded base64 (RFC 4648): each group of three bytes becomes four
/// characters of six bits each; a final group of one or two bytes is padded
/// with zero bits and completed with `==` or `=`.
pub open spec fn base64_standard(data: Seq<u8>) -> Seq<char>
    decreases data.len(),
{
    if data.len() == 0 {
        Seq::empty()
    } else if data.len() == 1 {
        let b0 = data[0] as int;
        seq![b64(b0 / 4), b64((b0 % 4) * 16), '=', '=']
    } else if data.len() == 2 {
        let (b0, b1) = (data[0] as int, data[1] as int);
        seq![b64(b0 / 4), b64((b0 % 4) * 16 + b1 / 16), b64((b1 % 16) * 4), '=']
    } else {
        let (b0, b1, b2) = (data[0] as int, data[1] as int, data[2] as int);
        seq![b64(b0 / 4), b64((b0 % 4) * 16 + b1 / 16), b64((b1 % 16) * 4 + b2 / 64), b64(b2 % 64)]
            + base64_standard(data.skip(3))
    }
}

/// Number of `=` characters that pad the base64 text of `n` bytes.
pub open spec fn base64_pad(n: nat) -> nat {
    if n % 3 == 0 {
        0
    } else {
        (3 - n % 3) as nat
    }
}

/// Length of the standard padded base64 text of `n` bytes.
pub open spec fn base64_len(n: nat) -> nat {
    4 * ((n + 2) / 3)
}

/// The longest input whose bit count the SHA-1 state can hold in a `u64`.
pub open spec fn sha1_input_limit() -> nat {
    0x1FFF_FFFF_FFFF_FFFF
}

/// The bytes hashed for a key: its UTF-8 encoding followed by the GUID's.
pub open spec fn accept_input(key: Seq<char>) -> Seq<u8> {
    vstd::utf8::encode_utf8(key) + vstd::utf8::encode_utf8(WEBSOCKET_GUID@)
}

/// The accept value that answers a client key.
pub open spec fn accept_value(key: Seq<char>) -> Seq<char> {
    base64_standard(sha1_digest(accept_input(key)))
}

/// Keys short enough to hash: with the GUID the input stays within the limit.
pub open spec fn key_within_limit(key: Seq<char>) -> bool {
    vstd::utf8::encode_utf8(key).len() + 36 <= sha1_input_limit()
}

/// Calls `sha1::Sha1::from(data).digest().bytes()` (sha1 0.6, i.e. `sha1_smol`).
/// Claimed: the 20 bytes returned are `sha1_digest` of the input. The length
/// is the array type's. The crate counts the message's bits in a `u64`, which
/// overflows past `sha1_input_limit` bytes, so longer inputs are left out.
#[verifier::external_body]
fn sha1_bytes(data: &[u8]) -> (digest: [u8; 20])
    requires
        data@.len() <= sha1_input_limit(),
    ensures
        digest@ == sha1_digest(data@),
{
    sha1::Sha1::from(data).digest().bytes()
}

/// Calls `base64::encode` (base64 0.13, the STANDARD configuration).
/// Claimed: the text is the standard padded base64 of the input,
/// `base64_standard`. `encode` panics when the text's length
/// `4 * ceil(n / 3)` (`encoded_size`) does not fit in a `usize`, so such
/// inputs are left out.
#[verifier::external_body]
fn base64_encode(data: &[u8]) -> (text: String)
    requires
        base64_len(data@.len()) <= usize::MAX,
    ensures
        text@ == base64_standard(data@),
{
    base64::encode(data)
}

/// The base64 text of `n` bytes has `4 * ceil(n / 3)` characters: alphabet
/// characters followed by `base64_pad(n)` padding characters `=`.
pub proof fn lemma_base64_shape(data: Seq<u8>)
    ensures
        base64_standard(data).len() == base64_len(data.len()),
        base64_pad(data.len()) <= base64_len(data.len()),
        forall|i: int|
            0 <= i < base64_len(data.len()) - base64_pad(data.len()) ==> base64_alphabet().contains(
                #[trigger] base64_standard(data)[i],
            ),
        forall|i: int|
            base64_len(data.len()) - base64_pad(data.len()) <= i < base64_len(data.len())
                ==> #[trigger] base64_standard(data)[i] == '=',
    decreases data.len(),
{
    let a = base64_alphabet();
    let out = base64_standard(data);
    let n = data.len();
    if n == 0 {
    } else if n == 1 {
        let b0 = data[0] as int;
        assert(a[b0 / 4] == b64(b0 / 4));
        assert(a[(b0 % 4) * 16] == b64((b0 % 4) * 16));
        assert forall|i: int| 0 <= i < 2 implies a.contains(#[trigger] out[i]) by {
            if i == 0 {
                assert(a[b0 / 4] == out[i]);
            } else {
                assert(a[(b0 % 4) * 16] == out[i]);
            }
        }
    } else if n == 2 {
        let (b0, b1) = (data[0] as int, data[1] as int);
        assert forall|i: int| 0 <= i < 3 implies a.contains(#[trigger] out[i]) by {
            if i == 0 {
                assert(a[b0 / 4] == out[i]);
            } else if i == 1 {
                assert(a[(b0 % 4) * 16 + b1 / 16] == out[i]);
            } else {
                assert(a[(b1 % 16) * 4] == out[i]);
            }
        }
    } else {
        let (b0, b1, b2) = (data[0] as int, data[1] as int, data[2] as int);
        let rest = data.skip(3);
        lemma_base64_shape(rest);
        let tail = base64_standard(rest);
        assert(base64_len(n) == 4 + base64_len(rest.len()));
        assert(base64_pad(n) == base64_pad(rest.len()));
        assert forall|i: int| 0 <= i < base64_len(n) - base64_pad(n) implies a.contains(
            #[trigger] out[i],
        ) by {
            if i == 0 {
                assert(a[b0 / 4] == out[i]);
            } else if i == 1 {
                assert(a[(b0 % 4) * 16 + b1 / 16] == out[i]);
            } else if i == 2 {
                assert(a[(b1 % 16) * 4 + b2 / 64] == out[i]);
            } else if i == 3 {
                assert(a[b2 % 64] == out[i]);
            } else {
                assert(out[i] == tail[i - 4]);
            }
        }
        assert forall|i: int| base64_len(n) - base64_pad(n) <= i < base64_len(n) implies #[trigger] out[i]
            == '=' by {
            assert(out[i] == tail[i - 4]);
        }
    }
}

/// The bytes of the GUID `258EAFA5-E914-47DA-95CA-C5AB0DC85B11`, one per character.
pub open spec fn guid_bytes() -> Seq<u8> {
    seq![
        50u8, 53u8, 56u8, 69u8, 65u8, 70u8, 65u8, 53u8, 45u8, 69u8, 57u8, 49u8, 52u8, 45u8, 52u8,
        55u8, 68u8, 65u8, 45u8, 57u8, 53u8, 67u8, 65u8, 45u8, 67u8, 53u8, 65u8, 66u8, 48u8, 68u8,
        67u8, 56u8, 53u8, 66u8, 49u8, 49u8,
    ]
}

/// What is hashed for a key: every byte of the key's UTF-8 encoding,
/// unchanged and in order, followed by the 36 bytes of the GUID; the accept
/// value is the base64 text of the SHA-1 digest of exactly those bytes.
pub proof fn lemma_accept_hashes_key_then_guid(key: Seq<char>)
    ensures
        accept_input(key).len() == vstd::utf8::encode_utf8(key).len() + 36,
        forall|i: int|
            0 <= i < vstd::utf8::encode_utf8(key).len() ==> #[trigger] accept_input(key)[i]
                == vstd::utf8::encode_utf8(key)[i],
        forall|i: int|
            0 <= i < 36 ==> accept_input(key)[vstd::utf8::encode_utf8(key).len() + i] == #[trigger] guid_bytes()[i],
        accept_value(key) == base64_standard(sha1_digest(vstd::utf8::encode_utf8(key) + guid_bytes())),
{
    lemma_guid_bytes();
    let k = vstd::utf8::encode_utf8(key);
    assert(vstd::utf8::encode_utf8(WEBSOCKET_GUID@) =~= guid_bytes());
    assert forall|i: int| 0 <= i < 36 implies accept_input(key)[k.len() + i] == #[trigger] guid_bytes()[i] by {
    }
}

/// The base64 alphabet is `A`..=`Z`, `a`..=`z`, `0`..=`9`, `+`, `/` in that
/// order: 64 distinct characters.
pub proof fn lemma_base64_alphabet()
    ensures
        base64_alphabet().len() == 64,
        forall|v: int| 0 <= v < 26 ==> (#[trigger] base64_alphabet()[v]) as u32 == 65 + v,
        forall|v: int| 26 <= v < 52 ==> (#[trigger] base64_alphabet()[v]) as u32 == 97 + (v - 26),
        forall|v: int| 52 <= v < 62 ==> (#[trigger] base64_alphabet()[v]) as u32 == 48 + (v - 52),
        base64_alphabet()[62] == '+',
        base64_alphabet()[63] == '/',
        forall|v: int, w: int|
            0 <= v < 64 && 0 <= w < 64 && v != w ==> #[trigger] base64_alphabet()[v]
                != #[trigger] base64_alphabet()[w],
{
    let a = base64_alphabet();
    assert forall|v: int| 0 <= v < 64 implies #[trigger] a[v] as u32 == if v < 26 {
        65 + v
    } else if v < 52 {
        97 + (v - 26)
    } else if v < 62 {
        48 + (v - 52)
    } else if v == 62 {
        43
    } else {
        47
    } by {
        assert(0 <= v < 64);
    }
}

/// Each group of the base64 text spells the bits of its bytes, most
/// significant first, six bits per alphabet character: three bytes give four
/// characters holding their 24 bits; a final single byte gives two characters
/// holding its 8 bits and four zero bits, then `==`; a final pair of bytes
/// gives three characters holding its 16 bits and two zero bits, then `=`.
/// The text of the bytes after the first group follows the first group's
/// four characters.
#[verifier::rlimit(40)]
pub proof fn lemma_base64_groups(data: Seq<u8>)
    ensures
        data.len() == 0 ==> base64_standard(data).len() == 0,
        data.len() >= 3 ==> exists|v0: int, v1: int, v2: int, v3: int|
            #![trigger base64_alphabet()[v0], base64_alphabet()[v1], base64_alphabet()[v2], base64_alphabet()[v3]]
            0 <= v0 < 64 && 0 <= v1 < 64 && 0 <= v2 < 64 && 0 <= v3 < 64
                && base64_standard(data).take(4) == seq![
                base64_alphabet()[v0],
                base64_alphabet()[v1],
                base64_alphabet()[v2],
                base64_alphabet()[v3],
            ] && v0 * 262144 + v1 * 4096 + v2 * 64 + v3 == (data[0] as int) * 65536 + (data[1] as int)
                * 256 + (data[2] as int),
        data.len() >= 3 ==> base64_standard(data).skip(4) == base64_standard(data.skip(3)),
        data.len() == 2 ==> exists|v0: int, v1: int, v2: int|
            #![trigger base64_alphabet()[v0], base64_alphabet()[v1], base64_alphabet()[v2]]
            0 <= v0 < 64 && 0 <= v1 < 64 && 0 <= v2 < 64 && base64_standard(data) == seq![
                base64_alphabet()[v0],
                base64_alphabet()[v1],
                base64_alphabet()[v2],
                '=',
            ] && v0 * 4096 + v1 * 64 + v2 == ((data[0] as int) * 256 + (data[1] as int)) * 4,
        data.len() == 1 ==> exists|v0: int, v1: int|
            #![trigger base64_alphabet()[v0], base64_alphabet()[v1]]
            0 <= v0 < 64 && 0 <= v1 < 64 && base64_standard(data) == seq![
                base64_alphabet()[v0],
                base64_alphabet()[v1],
                '=',
                '=',
            ] && v0 * 64 + v1 == (data[0] as int) * 16,
{
    let a = base64_alphabet();
    let out = base64_standard(data);
    if data.len() >= 3 {
        let (b0, b1, b2) = (data[0] as int, data[1] as int, data[2] as int);
        let (v0, v1, v2, v3) = (b0 / 4, (b0 % 4) * 16 + b1 / 16, (b1 % 16) * 4 + b2 / 64, b2 % 64);
        assert(v0 * 262144 + v1 * 4096 + v2 * 64 + v3 == b0 * 65536 + b1 * 256 + b2) by (nonlinear_arith)
            requires
                0 <= b0 < 256,
                0 <= b1 < 256,
                0 <= b2 < 256,
                v0 == b0 / 4,
                v1 == (b0 % 4) * 16 + b1 / 16,
                v2 == (b1 % 16) * 4 + b2 / 64,
                v3 == b2 % 64,
        ;
        assert(out.take(4) =~= seq![a[v0], a[v1], a[v2], a[v3]]);
        assert(out.skip(4) =~= base64_standard(data.skip(3)));
    } else if data.len() == 2 {
        let (b0, b1) = (data[0] as int, data[1] as int);
        let (v0, v1, v2) = (b0 / 4, (b0 % 4) * 16 + b1 / 16, (b1 % 16) * 4);
        assert(v0 * 4096 + v1 * 64 + v2 == (b0 * 256 + b1) * 4) by (nonlinear_arith)
            requires
                0 <= b0 < 256,
                0 <= b1 < 256,
                v0 == b0 / 4,
                v1 == (b0 % 4) * 16 + b1 / 16,
                v2 == (b1 % 16) * 4,
        ;
        assert(out =~= seq![a[v0], a[v1], a[v2], '=']);
    } else if data.len() == 1 {
        let b0 = data[0] as int;
        let (v0, v1) = (b0 / 4, (b0 % 4) * 16);
        assert(v0 * 64 + v1 == b0 * 16) by (nonlinear_arith)
            requires
                0 <= b0 < 256,
                v0 == b0 / 4,
                v1 == (b0 % 4) * 16,
        ;
        assert(out =~= seq![a[v0], a[v1], '=', '=']);
    }
}

proof fn lemma_guid_bytes()
    ensures
        vstd::utf8::encode_utf8(WEBSOCKET_GUID@).len() == 36,
        vstd::utf8::encode_utf8(WEBSOCKET_GUID@) == guid_bytes(),
{
    reveal_strlit("258EAFA5-E914-47DA-95CA-C5AB0DC85B11");
    vstd::utf8::is_ascii_chars_encode_utf8(WEBSOCKET_GUID@);
    assert(vstd::utf8::encode_utf8(WEBSOCKET_GUID@) =~= guid_bytes());
}

/// Computes the `Sec-WebSocket-Accept` value for a client's `Sec-WebSocket-Key`.
pub fn convert_key(key: &str) -> (accept: String)
    requires
        key_within_limit(key@),
    ensures
        accept@ == accept_value(key@),
        accept@.len() == 28,
        forall|i: int| 0 <= i < 27 ==> base64_alphabet().contains(#[trigger] accept@[i]),
        accept@[27] == '=',
{
    proof {
        lemma_guid_bytes();
    }
    let key_bytes: &[u8] = key.as_bytes();
    let guid_bytes: &[u8] = WEBSOCKET_GUID.as_bytes();
    let mut data: Vec<u8> = Vec::new();
    let mut i: usize = 0;
    while i < key_bytes.len()
        invariant
            i <= key_bytes@.len(),
            data@ == key_bytes@.subrange(0, i as int),
        decreases key_bytes@.len() - i,
    {
        data.push(key_bytes[i]);
        i += 1;
    }
    let mut j: usize = 0;
    while j < guid_bytes.len()
        invariant
            i == key_bytes@.len(),
            j <= guid_bytes@.len(),
            data@ == key_bytes@ + guid_bytes@.subrange(0, j as int),
        decreases guid_bytes@.len() - j,
    {
        data.push(guid_bytes[j]);
        j += 1;
    }
    assert(guid_bytes@.subrange(0, j as int) =~= guid_bytes@);
    assert(data@ == accept_input(key@));
    let digest: [u8; 20] = sha1_bytes(data.as_slice());
    proof {
        lemma_base64_shape(digest@);
    }
    base64_encode(digest.as_slice())
}

} // verus!
