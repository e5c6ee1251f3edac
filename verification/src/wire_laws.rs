//! Round-trip laws of the wire grammar: the decoders accept the canonical
//! encoding of every message, and return exactly the message encoded.

use vstd::prelude::*;
use crate::codec::RBRACE;
use crate::codec::is_digit;
use crate::codec::lit_discard_head;
use crate::codec::lit_hs_req_head;
use crate::codec::lit_hs_req_mid;
use crate::codec::lit_null;
use crate::codec::lit_start_match;
use crate::codec::lit_tile_mid;
use crate::codec::spec_decode_client_request;
use crate::codec::spec_decode_handshake_request;
use crate::codec::spec_digits;
use crate::codec::spec_encode_opt_credentials;
use crate::codec::spec_encode_version;
use crate::codec::spec_match_lit;
use crate::codec::spec_parse_digits;
use crate::codec::spec_parse_number;
use crate::codec::spec_parse_version;
use crate::codec::spec_seat_code;
use crate::codec::spec_seat_of_code;
use crate::messages::ClientRequest;
use crate::messages::Credentials;
use crate::messages::DiscardTileRequest;
use crate::messages::HandshakeRequest;
use crate::messages::Tile;
use crate::version::SemanticVersion;

verus! {

/// Powers of ten.
pub open spec fn pow10(e: int) -> int
    decreases e,
{
    if e <= 0 {
        1
    } else {
        10 * pow10(e - 1)
    }
}

/// Powers of ten are positive.
proof fn lemma_pow10_pos(e: int)
    ensures
        pow10(e) >= 1,
    decreases e,
{
    if e > 0 {
        lemma_pow10_pos(e - 1);
    }
}

/// Every byte of a canonical digit run is a digit, the first is `0` only
/// for the number zero, and the run's value is below `pow10` of its length.
proof fn lemma_digits_shape(n: int)
    requires
        0 <= n,
    ensures
        spec_digits(n).len() >= 1,
        forall|k: int| 0 <= k < spec_digits(n).len() ==> is_digit(#[trigger] spec_digits(n)[k]),
        n > 0 ==> spec_digits(n)[0] != 48,
        n < pow10(spec_digits(n).len() as int),
    decreases n,
{
    if n < 10 {
        assert(spec_digits(n) =~= seq![(48 + n) as u8]);
        assert(pow10(0) == 1);
        assert(pow10(1) == 10);
    } else {
        lemma_digits_shape(n / 10);
        let prefix = spec_digits(n / 10);
        let whole = spec_digits(n);
        assert(whole =~= prefix.push((48 + n % 10) as u8));
        assert(whole[0] == prefix[0]);
        assert(n / 10 < pow10(prefix.len() as int));
        assert(n == 10 * (n / 10) + n % 10);
        assert(pow10(whole.len() as int) == 10 * pow10(prefix.len() as int));
        assert(n < pow10(whole.len() as int)) by (nonlinear_arith)
            requires
                n == 10 * (n / 10) + n % 10,
                0 <= n % 10 < 10,
                n / 10 < pow10(prefix.len() as int),
                pow10(whole.len() as int) == 10 * pow10(prefix.len() as int),
        ;
    }
}

/// Running the digit parser over the canonical digits of `n` carries the
/// accumulator past them: it lands just after the run with the accumulator
/// shifted by the run's length and increased by `n`, as long as that value
/// stays in the 32-bit range.
proof fn lemma_parse_digits_continues(s: Seq<u8>, i: int, acc: int, any: bool, n: int)
    requires
        0 <= n,
        0 <= i,
        i + spec_digits(n).len() <= s.len(),
        s.subrange(i, i + spec_digits(n).len()) == spec_digits(n),
        0 <= acc,
        acc * pow10(spec_digits(n).len() as int) + n <= u32::MAX,
    ensures
        spec_parse_digits(s, i, acc, any) == spec_parse_digits(
            s,
            i + spec_digits(n).len(),
            acc * pow10(spec_digits(n).len() as int) + n,
            true,
        ),
    decreases n,
{
    lemma_digits_shape(n);
    let whole = spec_digits(n);
    if n < 10 {
        assert(s[i] == whole[0]);
        assert(s[i] == (48 + n) as u8);
        assert(is_digit(s[i]));
        assert(pow10(0) == 1);
        assert(pow10(1) == 10);
        assert(acc * 10 + (s[i] - 48) == acc * pow10(1) + n);
    } else {
        let prefix = spec_digits(n / 10);
        let plen = prefix.len() as int;
        assert(whole =~= prefix.push((48 + n % 10) as u8));
        assert(s.subrange(i, i + plen) =~= whole.subrange(0, plen));
        assert(whole.subrange(0, plen) =~= prefix);
        lemma_digits_shape(n / 10);
        lemma_pow10_pos(plen);
        assert(whole.len() as int == plen + 1);
        assert(pow10(plen + 1) == 10 * pow10(plen));
        assert(acc * pow10(plen + 1) + n <= u32::MAX);
        let mid = acc * pow10(plen) + n / 10;
        assert(mid <= u32::MAX && 0 <= mid) by (nonlinear_arith)
            requires
                mid == acc * pow10(plen) + n / 10,
                0 <= acc,
                0 <= n / 10,
                n == 10 * (n / 10) + n % 10,
                0 <= n % 10 < 10,
                pow10(plen + 1) == 10 * pow10(plen),
                pow10(plen) >= 1,
                acc * pow10(plen + 1) + n <= u32::MAX,
        ;
        lemma_parse_digits_continues(s, i, acc, any, n / 10);
        let j = i + plen;
        assert(s[j] == whole[plen]);
        assert(s[j] == (48 + n % 10) as u8);
        assert(is_digit(s[j]));
        assert(mid * 10 + (s[j] - 48) == acc * pow10(plen + 1) + n) by (nonlinear_arith)
            requires
                mid == acc * pow10(plen) + n / 10,
                s[j] == (48 + n % 10) as u8,
                n == 10 * (n / 10) + n % 10,
                0 <= n % 10 < 10,
                pow10(plen + 1) == 10 * pow10(plen),
        ;
        assert(spec_parse_digits(s, j, mid, true) == spec_parse_digits(
            s,
            j + 1,
            acc * pow10(plen + 1) + n,
            true,
        ));
    }
}

/// The number parser reads the canonical digits of `n` exactly when they
/// are followed by the frame's end or a non-digit.
proof fn lemma_parse_number_of_encoding(s: Seq<u8>, i: int, n: int)
    requires
        0 <= n <= u32::MAX,
        0 <= i,
        i + spec_digits(n).len() <= s.len(),
        s.subrange(i, i + spec_digits(n).len()) == spec_digits(n),
        i + spec_digits(n).len() == s.len() || !is_digit(s[i + spec_digits(n).len()]),
    ensures
        spec_parse_number(s, i) == Some((n as u32, i + spec_digits(n).len())),
{
    lemma_digits_shape(n);
    let whole = spec_digits(n);
    let j = i + whole.len() as int;
    assert(s[i] == whole[0]);
    if n == 0 {
        assert(whole =~= seq![48u8]);
        assert(s[i] == 48);
        assert(j == i + 1);
        assert(i + 1 < s.len() ==> !is_digit(s[i + 1]));
    } else {
        assert(s[i] != 48);
        assert(pow10(0) == 1);
        lemma_parse_digits_continues(s, i, 0, false, n);
        assert(0 * pow10(whole.len() as int) + n == n) by (nonlinear_arith);
        assert(spec_parse_digits(s, i, 0, false) == spec_parse_digits(s, j, n, true));
        assert(spec_parse_digits(s, j, n, true) == Some((n, j)));
    }
}

/// Pointwise view of a region equality: each byte of the region is the
/// matching byte of the encoded sequence.
proof fn lemma_region_bytes(s: Seq<u8>, i: int, enc: Seq<u8>)
    requires
        0 <= i,
        i + enc.len() <= s.len(),
        s.subrange(i, i + enc.len()) == enc,
    ensures
        forall|m: int| 0 <= m < enc.len() ==> s[i + m] == enc[m],
{
    assert forall|m: int| 0 <= m < enc.len() implies s[i + m] == enc[m] by {
        assert(s.subrange(i, i + enc.len())[m] == s[i + m]);
    }
}

/// The version parser reads the canonical encoding of `v` exactly when it
/// is followed by the frame's end or a non-digit.
proof fn lemma_parse_version_of_encoding(s: Seq<u8>, i: int, v: SemanticVersion)
    requires
        0 <= i,
        i + spec_encode_version(v).len() <= s.len(),
        s.subrange(i, i + spec_encode_version(v).len()) == spec_encode_version(v),
        i + spec_encode_version(v).len() == s.len() || !is_digit(
            s[i + spec_encode_version(v).len()],
        ),
    ensures
        spec_parse_version(s, i) == Some((v, i + spec_encode_version(v).len())),
{
    let enc = spec_encode_version(v);
    let dmaj = spec_digits(v.major as int);
    let dmin = spec_digits(v.minor as int);
    let dpat = spec_digits(v.patch as int);
    lemma_digits_shape(v.major as int);
    lemma_digits_shape(v.minor as int);
    lemma_digits_shape(v.patch as int);
    lemma_region_bytes(s, i, enc);
    let lmaj = dmaj.len() as int;
    let lmin = dmin.len() as int;
    let lpat = dpat.len() as int;
    let i1 = i + lmaj;
    let i2 = i1 + 1 + lmin;
    let end = i2 + 1 + lpat;
    assert(enc.len() == lmaj + 1 + lmin + 1 + lpat);

    assert(enc.subrange(0, lmaj) =~= dmaj);
    assert(s.subrange(i, i1) =~= enc.subrange(0, lmaj));
    assert(s[i1] == enc[lmaj]);
    assert(enc[lmaj] == 46);
    lemma_parse_number_of_encoding(s, i, v.major as int);
    assert(spec_parse_number(s, i) == Some((v.major, i1)));

    assert(enc.subrange(lmaj + 1, lmaj + 1 + lmin) =~= dmin);
    assert(s.subrange(i1 + 1, i1 + 1 + lmin) =~= enc.subrange(lmaj + 1, lmaj + 1 + lmin));
    assert(s[i2] == enc[lmaj + 1 + lmin]);
    assert(enc[lmaj + 1 + lmin] == 46);
    lemma_parse_number_of_encoding(s, i1 + 1, v.minor as int);
    assert(spec_parse_number(s, i1 + 1) == Some((v.minor, i2)));

    assert(enc.subrange(lmaj + 1 + lmin + 1, enc.len() as int) =~= dpat);
    assert(s.subrange(i2 + 1, i2 + 1 + lpat) =~= enc.subrange(
        lmaj + 1 + lmin + 1,
        enc.len() as int,
    ));
    lemma_parse_number_of_encoding(s, i2 + 1, v.patch as int);
    assert(spec_parse_number(s, i2 + 1) == Some((v.patch, end)));

    assert(SemanticVersion { major: v.major, minor: v.minor, patch: v.patch } == v);
}

/// The canonical handshake request frame for `r`:
/// `{"client_version":"<version>","credentials":<creds-or-null>}`.
pub open spec fn spec_encode_handshake_request(r: HandshakeRequest) -> Seq<u8> {
    lit_hs_req_head() + spec_encode_version(r.client_version) + lit_hs_req_mid()
        + spec_encode_opt_credentials(r.credentials) + seq![RBRACE]
}

/// Law: the handshake request grammar round-trips. Decoding the canonical
/// frame of any request yields exactly that request, so the decoder's
/// `MalformedHandshake` outcome never hits a well-formed client.
pub proof fn lemma_handshake_request_round_trip(r: HandshakeRequest)
    ensures
        spec_decode_handshake_request(spec_encode_handshake_request(r)) == Some(r),
{
    let s = spec_encode_handshake_request(r);
    let head = lit_hs_req_head();
    let venc = spec_encode_version(r.client_version);
    let mid = lit_hs_req_mid();
    let cenc = spec_encode_opt_credentials(r.credentials);
    let i0 = head.len() as int;
    let i1 = i0 + venc.len() as int;
    let i2 = i1 + mid.len() as int;
    let i3 = i2 + cenc.len() as int;
    assert(s.len() == i3 + 1);

    assert(s.subrange(0, i0) =~= head);
    assert(spec_match_lit(s, 0, head));

    assert(s.subrange(i0, i1) =~= venc);
    assert(s[i1] == 34 && !is_digit(s[i1]));
    lemma_parse_version_of_encoding(s, i0, r.client_version);

    assert(s.subrange(i1, i2) =~= mid);
    assert(spec_match_lit(s, i1, mid));

    match r.credentials {
        None => {
            assert(cenc == lit_null());
            assert(s.subrange(i2, i2 + lit_null().len()) =~= lit_null());
            assert(spec_match_lit(s, i2, lit_null()));
        },
        Some(c) => {
            lemma_digits_shape(c.token as int);
            assert(s.subrange(i2, i3) =~= spec_digits(c.token as int));
            lemma_region_bytes(s, i2, spec_digits(c.token as int));
            assert(s[i2] != 110) by {
                assert(is_digit(s[i2]));
            }
            assert(!spec_match_lit(s, i2, lit_null())) by {
                if spec_match_lit(s, i2, lit_null()) {
                    assert(s.subrange(i2, i2 + lit_null().len())[0] == s[i2]);
                }
            }
            assert(s[i3] == RBRACE && !is_digit(s[i3]));
            lemma_parse_number_of_encoding(s, i2, c.token as int);
            assert(Credentials { token: c.token } == c);
        },
    }
    assert(s[i3] == RBRACE);
    assert(HandshakeRequest { client_version: r.client_version, credentials: r.credentials }
        == r);
}

/// The canonical client request frame for `r`: `"StartMatch"`, or
/// `{"DiscardTile":{"player":<seat>,"tile":<tile>}}`.
pub open spec fn spec_encode_client_request(r: ClientRequest) -> Seq<u8> {
    match r {
        ClientRequest::StartMatch => lit_start_match(),
        ClientRequest::DiscardTile(d) => lit_discard_head() + spec_digits(
            spec_seat_code(d.player) as int,
        ) + lit_tile_mid() + spec_digits(d.tile.id as int) + seq![RBRACE, RBRACE],
    }
}

/// Law: the client request grammar round-trips. Decoding the canonical
/// frame of any request yields exactly that request, so the dispatcher's
/// `MalformedRequest` outcome never hits a well-formed client.
pub proof fn lemma_client_request_round_trip(r: ClientRequest)
    ensures
        spec_decode_client_request(spec_encode_client_request(r)) == Some(r),
{
    let s = spec_encode_client_request(r);
    match r {
        ClientRequest::StartMatch => {
            assert(s == lit_start_match());
        },
        ClientRequest::DiscardTile(d) => {
            let head = lit_discard_head();
            let code = spec_seat_code(d.player);
            let dseat = spec_digits(code as int);
            let mid = lit_tile_mid();
            let dtile = spec_digits(d.tile.id as int);
            lemma_digits_shape(code as int);
            lemma_digits_shape(d.tile.id as int);
            let i0 = head.len() as int;
            let i1 = i0 + dseat.len() as int;
            let i2 = i1 + mid.len() as int;
            let i3 = i2 + dtile.len() as int;
            assert(s.len() == i3 + 2);

            assert(s[0] == 123);
            assert(s != lit_start_match()) by {
                if s == lit_start_match() {
                    assert(s[0] == lit_start_match()[0]);
                }
            }

            assert(s.subrange(0, i0) =~= head);
            assert(spec_match_lit(s, 0, head));

            assert(s.subrange(i0, i1) =~= dseat);
            assert(s[i1] == 44 && !is_digit(s[i1]));
            lemma_parse_number_of_encoding(s, i0, code as int);
            assert(spec_parse_number(s, i0) == Some((code, i1)));
            assert(spec_seat_of_code(code) == Some(d.player));

            assert(s.subrange(i1, i2) =~= mid);
            assert(spec_match_lit(s, i1, mid));

            assert(s.subrange(i2, i3) =~= dtile);
            assert(s[i3] == RBRACE && !is_digit(s[i3]));
            lemma_parse_number_of_encoding(s, i2, d.tile.id as int);

            assert(s[i3 + 1] == RBRACE);
            assert(Tile { id: d.tile.id } == d.tile);
            assert(DiscardTileRequest { player: d.player, tile: d.tile } == d);
        },
    }
}

} // verus!
