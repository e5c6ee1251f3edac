//! Wire framing: the JSON text frames of the session protocol.
//!
//! One frame is one logical message. The protocol fixes the canonical
//! spelling of each message: field names are literal and stand in the
//! stated order, no whitespace separates tokens, and numbers are canonical
//! decimals (no sign, no leading zero, at most `u32::MAX`); a frame with
//! extra bytes, another field order or another spacing is malformed. The
//! decoders accept exactly that grammar and nothing else; their contracts
//! state the result for every input through the `spec_decode_*` functions,
//! and the encoders produce exactly the sequences the `spec_encode_*`
//! functions describe.

use vstd::prelude::*;
use crate::messages::ClientRequest;
use crate::messages::Credentials;
use crate::messages::DiscardTileRequest;
use crate::messages::HandshakeRequest;
use crate::messages::HandshakeResponse;
use crate::messages::MatchEvent;
use crate::messages::RequestError;
use crate::messages::Seat;
use crate::messages::StartMatchResponse;
use crate::messages::Tile;
use crate::version::SemanticVersion;

verus! {

/// `.`
pub const DOT: u8 = 46;

/// `}`
pub const RBRACE: u8 = 125;

/// Whether `i` starts an occurrence of `lit` inside `s`.
pub open spec fn spec_match_lit(s: Seq<u8>, i: int, lit: Seq<u8>) -> bool {
    &&& 0 <= i
    &&& i + lit.len() <= s.len()
    &&& s.subrange(i, i + lit.len()) == lit
}

/// An ASCII decimal digit.
pub open spec fn is_digit(b: u8) -> bool {
    48 <= b && b <= 57
}

/// Reads a run of digits starting at `i`, most significant first, on top of
/// the value `acc` already read; `any` records whether a digit was read yet.
/// Stops at the first non-digit; fails on an empty run or on a value above
/// `u32::MAX`.
pub open spec fn spec_parse_digits(s: Seq<u8>, i: int, acc: int, any: bool) -> Option<(int, int)>
    decreases s.len() - i,
{
    if 0 <= i && i < s.len() && is_digit(s[i]) {
        if acc * 10 + (s[i] - 48) > u32::MAX {
            None
        } else {
            spec_parse_digits(s, i + 1, acc * 10 + (s[i] - 48), true)
        }
    } else {
        if any {
            Some((acc, i))
        } else {
            None
        }
    }
}

/// Reads one canonical decimal number at `i`: a single `0`, or a run of
/// digits whose first digit is not `0`, valued at most `u32::MAX`. Returns
/// the value and the index just past it.
pub open spec fn spec_parse_number(s: Seq<u8>, i: int) -> Option<(u32, int)> {
    if 0 <= i && i < s.len() && s[i] == 48 {
        if i + 1 < s.len() && is_digit(s[i + 1]) {
            None
        } else {
            Some((0u32, i + 1))
        }
    } else {
        match spec_parse_digits(s, i, 0, false) {
            Some(p) => Some((p.0 as u32, p.1)),
            None => None,
        }
    }
}

/// Reads a version at `i`: three canonical numbers separated by dots.
pub open spec fn spec_parse_version(s: Seq<u8>, i: int) -> Option<(SemanticVersion, int)> {
    match spec_parse_number(s, i) {
        None => None,
        Some((major, i1)) => if !(i1 < s.len() && s[i1] == DOT) {
            None
        } else {
            match spec_parse_number(s, i1 + 1) {
                None => None,
                Some((minor, i2)) => if !(i2 < s.len() && s[i2] == DOT) {
                    None
                } else {
                    match spec_parse_number(s, i2 + 1) {
                        None => None,
                        Some((patch, i3)) => Some(
                            (SemanticVersion { major, minor, patch }, i3),
                        ),
                    }
                },
            }
        },
    }
}

/// Reads a credential slot at `i`: `null` for absence, else a bare token.
pub open spec fn spec_parse_opt_credentials(s: Seq<u8>, i: int) -> Option<
    (Option<Credentials>, int),
> {
    if spec_match_lit(s, i, lit_null()) {
        Some((None::<Credentials>, i + lit_null().len()))
    } else {
        match spec_parse_number(s, i) {
            Some((token, j)) => Some((Some(Credentials { token }), j)),
            None => None,
        }
    }
}

/// The handshake request a frame holds, if any: exactly
/// `{"client_version":"<version>","credentials":<creds-or-null>}`.
pub open spec fn spec_decode_handshake_request(s: Seq<u8>) -> Option<HandshakeRequest> {
    if !spec_match_lit(s, 0, lit_hs_req_head()) {
        None
    } else {
        match spec_parse_version(s, lit_hs_req_head().len() as int) {
            None => None,
            Some((client_version, i1)) => if !spec_match_lit(s, i1, lit_hs_req_mid()) {
                None
            } else {
                match spec_parse_opt_credentials(s, i1 + lit_hs_req_mid().len()) {
                    None => None,
                    Some((credentials, i2)) => if i2 + 1 == s.len() && s[i2] == RBRACE {
                        Some(HandshakeRequest { client_version, credentials })
                    } else {
                        None
                    },
                }
            },
        }
    }
}

/// A seat's index in east-first turn order.
pub open spec fn spec_seat_code(seat: Seat) -> u32 {
    match seat {
        Seat::East => 0,
        Seat::South => 1,
        Seat::West => 2,
        Seat::North => 3,
    }
}

/// The seat a wire index names, if it names one.
pub open spec fn spec_seat_of_code(code: u32) -> Option<Seat> {
    if code == 0 {
        Some(Seat::East)
    } else if code == 1 {
        Some(Seat::South)
    } else if code == 2 {
        Some(Seat::West)
    } else if code == 3 {
        Some(Seat::North)
    } else {
        None
    }
}

/// The client request a frame holds, if any: `"StartMatch"`, or exactly
/// `{"DiscardTile":{"player":<seat>,"tile":<tile>}}`.
pub open spec fn spec_decode_client_request(s: Seq<u8>) -> Option<ClientRequest> {
    if s == lit_start_match() {
        Some(ClientRequest::StartMatch)
    } else if !spec_match_lit(s, 0, lit_discard_head()) {
        None
    } else {
        match spec_parse_number(s, lit_discard_head().len() as int) {
            None => None,
            Some((code, i1)) => match spec_seat_of_code(code) {
                None => None,
                Some(player) => if !spec_match_lit(s, i1, lit_tile_mid()) {
                    None
                } else {
                    match spec_parse_number(s, i1 + lit_tile_mid().len()) {
                        None => None,
                        Some((tile_id, i2)) => if tile_id <= 255 && i2 + 2 == s.len() && s[i2]
                            == RBRACE && s[i2 + 1] == RBRACE {
                            Some(
                                ClientRequest::DiscardTile(
                                    DiscardTileRequest { player, tile: Tile { id: tile_id as u8 } },
                                ),
                            )
                        } else {
                            None
                        },
                    }
                },
            },
        }
    }
}

/// The canonical decimal digits of `n`, most significant first.
pub open spec fn spec_digits(n: int) -> Seq<u8>
    decreases n,
{
    if n < 10 {
        seq![(48 + n) as u8]
    } else {
        spec_digits(n / 10).push((48 + n % 10) as u8)
    }
}

/// `<major>.<minor>.<patch>`, each component in canonical decimal.
pub open spec fn spec_encode_version(v: SemanticVersion) -> Seq<u8> {
    spec_digits(v.major as int) + seq![DOT] + spec_digits(v.minor as int) + seq![DOT]
        + spec_digits(v.patch as int)
}

/// `null` for absent credentials, else the bare token.
pub open spec fn spec_encode_opt_credentials(c: Option<Credentials>) -> Seq<u8> {
    match c {
        None => lit_null(),
        Some(c) => spec_digits(c.token as int),
    }
}

/// `{"server_version":"<version>","new_credentials":<creds-or-null>,"account_data":<account>}`
pub open spec fn spec_encode_handshake_response(r: HandshakeResponse) -> Seq<u8> {
    lit_hs_resp_head() + spec_encode_version(r.server_version) + lit_hs_resp_mid_creds()
        + spec_encode_opt_credentials(r.new_credentials) + lit_hs_resp_mid_account()
        + spec_digits(r.account_data.account_id as int) + seq![RBRACE]
}

/// `{"state":<snapshot>}`
pub open spec fn spec_encode_start_match_response(r: StartMatchResponse) -> Seq<u8> {
    lit_sm_resp_head() + spec_digits(r.state.snapshot as int) + seq![RBRACE]
}

/// `{"TileDiscarded":{"seat":<seat>,"tile":<tile>}}`
pub open spec fn spec_encode_match_event(e: MatchEvent) -> Seq<u8> {
    match e {
        MatchEvent::TileDiscarded { seat, tile } => lit_event_head() + spec_digits(
            spec_seat_code(seat) as int,
        ) + lit_tile_mid() + spec_digits(tile.id as int) + seq![RBRACE, RBRACE],
    }
}

/// The bytes of `{"client_version":"`.
pub open spec fn lit_hs_req_head() -> Seq<u8> {
    seq![123u8, 34, 99, 108, 105, 101, 110, 116, 95, 118, 101, 114, 115, 105, 111, 110, 34, 58, 34]
}

fn lit_hs_req_head_vec() -> (v: Vec<u8>)
    ensures
        v@ == lit_hs_req_head(),
{
    let mut v: Vec<u8> = Vec::new();
    v.push(123);
    v.push(34);
    v.push(99);
    v.push(108);
    v.push(105);
    v.push(101);
    v.push(110);
    v.push(116);
    v.push(95);
    v.push(118);
    v.push(101);
    v.push(114);
    v.push(115);
    v.push(105);
    v.push(111);
    v.push(110);
    v.push(34);
    v.push(58);
    v.push(34);
    proof { assert(v@ =~= lit_hs_req_head()); }
    v
}

/// The bytes of `","credentials":`.
pub open spec fn lit_hs_req_mid() -> Seq<u8> {
    seq![34u8, 44, 34, 99, 114, 101, 100, 101, 110, 116, 105, 97, 108, 115, 34, 58]
}

fn lit_hs_req_mid_vec() -> (v: Vec<u8>)
    ensures
        v@ == lit_hs_req_mid(),
{
    let mut v: Vec<u8> = Vec::new();
    v.push(34);
    v.push(44);
    v.push(34);
    v.push(99);
    v.push(114);
    v.push(101);
    v.push(100);
    v.push(101);
    v.push(110);
    v.push(116);
    v.push(105);
    v.push(97);
    v.push(108);
    v.push(115);
    v.push(34);
    v.push(58);
    proof { assert(v@ =~= lit_hs_req_mid()); }
    v
}

/// The bytes of `null`.
pub open spec fn lit_null() -> Seq<u8> {
    seq![110u8, 117, 108, 108]
}

fn lit_null_vec() -> (v: Vec<u8>)
    ensures
        v@ == lit_null(),
{
    let mut v: Vec<u8> = Vec::new();
    v.push(110);
    v.push(117);
    v.push(108);
    v.push(108);
    proof { assert(v@ =~= lit_null()); }
    v
}

/// The bytes of `{"server_version":"`.
pub open spec fn lit_hs_resp_head() -> Seq<u8> {
    seq![123u8, 34, 115, 101, 114, 118, 101, 114, 95, 118, 101, 114, 115, 105, 111, 110, 34, 58, 34]
}

fn lit_hs_resp_head_vec() -> (v: Vec<u8>)
    ensures
        v@ == lit_hs_resp_head(),
{
    let mut v: Vec<u8> = Vec::new();
    v.push(123);
    v.push(34);
    v.push(115);
    v.push(101);
    v.push(114);
    v.push(118);
    v.push(101);
    v.push(114);
    v.push(95);
    v.push(118);
    v.push(101);
    v.push(114);
    v.push(115);
    v.push(105);
    v.push(111);
    v.push(110);
    v.push(34);
    v.push(58);
    v.push(34);
    proof { assert(v@ =~= lit_hs_resp_head()); }
    v
}

/// The bytes of `","new_credentials":`.
pub open spec fn lit_hs_resp_mid_creds() -> Seq<u8> {
    seq![34u8, 44, 34, 110, 101, 119, 95, 99, 114, 101, 100, 101, 110, 116, 105, 97, 108, 115, 34, 58]
}

fn lit_hs_resp_mid_creds_vec() -> (v: Vec<u8>)
    ensures
        v@ == lit_hs_resp_mid_creds(),
{
    let mut v: Vec<u8> = Vec::new();
    v.push(34);
    v.push(44);
    v.push(34);
    v.push(110);
    v.push(101);
    v.push(119);
    v.push(95);
    v.push(99);
    v.push(114);
    v.push(101);
    v.push(100);
    v.push(101);
    v.push(110);
    v.push(116);
    v.push(105);
    v.push(97);
    v.push(108);
    v.push(115);
    v.push(34);
    v.push(58);
    proof { assert(v@ =~= lit_hs_resp_mid_creds()); }
    v
}

/// The bytes of `,"account_data":`.
pub open spec fn lit_hs_resp_mid_account() -> Seq<u8> {
    seq![44u8, 34, 97, 99, 99, 111, 117, 110, 116, 95, 100, 97, 116, 97, 34, 58]
}

fn lit_hs_resp_mid_account_vec() -> (v: Vec<u8>)
    ensures
        v@ == lit_hs_resp_mid_account(),
{
    let mut v: Vec<u8> = Vec::new();
    v.push(44);
    v.push(34);
    v.push(97);
    v.push(99);
    v.push(99);
    v.push(111);
    v.push(117);
    v.push(110);
    v.push(116);
    v.push(95);
    v.push(100);
    v.push(97);
    v.push(116);
    v.push(97);
    v.push(34);
    v.push(58);
    proof { assert(v@ =~= lit_hs_resp_mid_account()); }
    v
}

/// The bytes of `"StartMatch"`.
pub open spec fn lit_start_match() -> Seq<u8> {
    seq![34u8, 83, 116, 97, 114, 116, 77, 97, 116, 99, 104, 34]
}

fn lit_start_match_vec() -> (v: Vec<u8>)
    ensures
        v@ == lit_start_match(),
{
    let mut v: Vec<u8> = Vec::new();
    v.push(34);
    v.push(83);
    v.push(116);
    v.push(97);
    v.push(114);
    v.push(116);
    v.push(77);
    v.push(97);
    v.push(116);
    v.push(99);
    v.push(104);
    v.push(34);
    proof { assert(v@ =~= lit_start_match()); }
    v
}

/// The bytes of `{"DiscardTile":{"player":`.
pub open spec fn lit_discard_head() -> Seq<u8> {
    seq![123u8, 34, 68, 105, 115, 99, 97, 114, 100, 84, 105, 108, 101, 34, 58, 123, 34, 112, 108, 97, 121, 101, 114, 34, 58]
}

fn lit_discard_head_vec() -> (v: Vec<u8>)
    ensures
        v@ == lit_discard_head(),
{
    let mut v: Vec<u8> = Vec::new();
    v.push(123);
    v.push(34);
    v.push(68);
    v.push(105);
    v.push(115);
    v.push(99);
    v.push(97);
    v.push(114);
    v.push(100);
    v.push(84);
    v.push(105);
    v.push(108);
    v.push(101);
    v.push(34);
    v.push(58);
    v.push(123);
    v.push(34);
    v.push(112);
    v.push(108);
    v.push(97);
    v.push(121);
    v.push(101);
    v.push(114);
    v.push(34);
    v.push(58);
    proof { assert(v@ =~= lit_discard_head()); }
    v
}

/// The bytes of `,"tile":`.
pub open spec fn lit_tile_mid() -> Seq<u8> {
    seq![44u8, 34, 116, 105, 108, 101, 34, 58]
}

fn lit_tile_mid_vec() -> (v: Vec<u8>)
    ensures
        v@ == lit_tile_mid(),
{
    let mut v: Vec<u8> = Vec::new();
    v.push(44);
    v.push(34);
    v.push(116);
    v.push(105);
    v.push(108);
    v.push(101);
    v.push(34);
    v.push(58);
    proof { assert(v@ =~= lit_tile_mid()); }
    v
}

/// The bytes of `{"state":`.
pub open spec fn lit_sm_resp_head() -> Seq<u8> {
    seq![123u8, 34, 115, 116, 97, 116, 101, 34, 58]
}

fn lit_sm_resp_head_vec() -> (v: Vec<u8>)
    ensures
        v@ == lit_sm_resp_head(),
{
    let mut v: Vec<u8> = Vec::new();
    v.push(123);
    v.push(34);
    v.push(115);
    v.push(116);
    v.push(97);
    v.push(116);
    v.push(101);
    v.push(34);
    v.push(58);
    proof { assert(v@ =~= lit_sm_resp_head()); }
    v
}

/// The bytes of `{"TileDiscarded":{"seat":`.
pub open spec fn lit_event_head() -> Seq<u8> {
    seq![123u8, 34, 84, 105, 108, 101, 68, 105, 115, 99, 97, 114, 100, 101, 100, 34, 58, 123, 34, 115, 101, 97, 116, 34, 58]
}

fn lit_event_head_vec() -> (v: Vec<u8>)
    ensures
        v@ == lit_event_head(),
{
    let mut v: Vec<u8> = Vec::new();
    v.push(123);
    v.push(34);
    v.push(84);
    v.push(105);
    v.push(108);
    v.push(101);
    v.push(68);
    v.push(105);
    v.push(115);
    v.push(99);
    v.push(97);
    v.push(114);
    v.push(100);
    v.push(101);
    v.push(100);
    v.push(34);
    v.push(58);
    v.push(123);
    v.push(34);
    v.push(115);
    v.push(101);
    v.push(97);
    v.push(116);
    v.push(34);
    v.push(58);
    proof { assert(v@ =~= lit_event_head()); }
    v
}

/// The bytes of `ping`.
pub open spec fn lit_ping() -> Seq<u8> {
    seq![112u8, 105, 110, 103]
}

pub(crate) fn lit_ping_vec() -> (v: Vec<u8>)
    ensures
        v@ == lit_ping(),
{
    let mut v: Vec<u8> = Vec::new();
    v.push(112);
    v.push(105);
    v.push(110);
    v.push(103);
    proof { assert(v@ =~= lit_ping()); }
    v
}

// ---------------------------------------------------------------------------
// Executable decoders
// ---------------------------------------------------------------------------

/// Whether `i` starts an occurrence of `lit` inside `s`.
fn match_lit(s: &Vec<u8>, i: usize, lit: &Vec<u8>) -> (r: bool)
    ensures
        r == spec_match_lit(s@, i as int, lit@),
{
    if i > s.len() || lit.len() > s.len() - i {
        return false;
    }
    let mut k: usize = 0;
    while k < lit.len()
        invariant
            i + lit.len() <= s.len(),
            k <= lit.len(),
            forall|m: int| 0 <= m < k ==> s@[i + m] == lit@[m],
        decreases lit.len() - k,
    {
        if s[i + k] != lit[k] {
            proof {
                assert(spec_match_lit(s@, i as int, lit@) ==> s@.subrange(
                    i as int,
                    i + lit@.len(),
                )[k as int] == lit@[k as int]);
            }
            return false;
        }
        k += 1;
    }
    proof {
        assert(s@.subrange(i as int, i + lit@.len()) =~= lit@);
    }
    true
}

/// Exec mirror of `spec_parse_digits`.
fn parse_digits(s: &Vec<u8>, i: usize, acc: u64, any: bool) -> (r: Option<(u64, usize)>)
    requires
        i <= s.len(),
        acc <= u32::MAX,
    ensures
        (match (r, spec_parse_digits(s@, i as int, acc as int, any)) {
            (Some(p), Some(q)) => p.0 == q.0 && p.1 == q.1 && p.0 <= u32::MAX && p.1 <= s@.len(),
            (None, None) => true,
            _ => false,
        }),
    decreases s.len() - i,
{
    if i < s.len() && 48 <= s[i] && s[i] <= 57 {
        let d: u64 = (s[i] - 48) as u64;
        if acc * 10 + d > 4294967295 {
            None
        } else {
            parse_digits(s, i + 1, acc * 10 + d, true)
        }
    } else {
        if any {
            Some((acc, i))
        } else {
            None
        }
    }
}

/// Exec mirror of `spec_parse_number`.
fn parse_number(s: &Vec<u8>, i: usize) -> (r: Option<(u32, usize)>)
    requires
        i <= s.len(),
    ensures
        (match (r, spec_parse_number(s@, i as int)) {
            (Some(p), Some(q)) => p.0 == q.0 && p.1 == q.1 && p.1 <= s@.len(),
            (None, None) => true,
            _ => false,
        }),
{
    if i < s.len() && s[i] == 48 {
        if i + 1 < s.len() && 48 <= s[i + 1] && s[i + 1] <= 57 {
            None
        } else {
            Some((0, i + 1))
        }
    } else {
        match parse_digits(s, i, 0, false) {
            Some(p) => Some((p.0 as u32, p.1)),
            None => None,
        }
    }
}

/// Exec mirror of `spec_parse_version`.
fn parse_version(s: &Vec<u8>, i: usize) -> (r: Option<(SemanticVersion, usize)>)
    requires
        i <= s.len(),
    ensures
        (match (r, spec_parse_version(s@, i as int)) {
            (Some(p), Some(q)) => p.0 == q.0 && p.1 == q.1 && p.1 <= s@.len(),
            (None, None) => true,
            _ => false,
        }),
{
    match parse_number(s, i) {
        None => None,
        Some((major, i1)) => {
            if !(i1 < s.len() && s[i1] == DOT) {
                return None;
            }
            match parse_number(s, i1 + 1) {
                None => None,
                Some((minor, i2)) => {
                    if !(i2 < s.len() && s[i2] == DOT) {
                        return None;
                    }
                    match parse_number(s, i2 + 1) {
                        None => None,
                        Some((patch, i3)) => Some((SemanticVersion { major, minor, patch }, i3)),
                    }
                },
            }
        },
    }
}

/// Exec mirror of `spec_parse_opt_credentials`.
fn parse_opt_credentials(s: &Vec<u8>, i: usize) -> (r: Option<(Option<Credentials>, usize)>)
    requires
        i <= s.len(),
    ensures
        (match (r, spec_parse_opt_credentials(s@, i as int)) {
            (Some(p), Some(q)) => p.0 == q.0 && p.1 == q.1 && p.1 <= s@.len(),
            (None, None) => true,
            _ => false,
        }),
{
    let null_lit = lit_null_vec();
    if match_lit(s, i, &null_lit) {
        Some((None, i + null_lit.len()))
    } else {
        match parse_number(s, i) {
            Some((token, j)) => Some((Some(Credentials { token }), j)),
            None => None,
        }
    }
}

/// Decodes a handshake request frame; `None` is a malformed frame. The frame
/// must hold exactly the request grammar, with no bytes to spare.
pub fn decode_handshake_request(s: &Vec<u8>) -> (r: Option<HandshakeRequest>)
    ensures
        r == spec_decode_handshake_request(s@),
{
    let head = lit_hs_req_head_vec();
    if !match_lit(s, 0, &head) {
        return None;
    }
    let i0: usize = head.len();
    match parse_version(s, i0) {
        None => None,
        Some((client_version, i1)) => {
            let mid = lit_hs_req_mid_vec();
            if !match_lit(s, i1, &mid) {
                return None;
            }
            let total: usize = s.len();
            proof {
                assert(i1 + mid@.len() <= total);
            }
            let i2: usize = i1 + mid.len();
            match parse_opt_credentials(s, i2) {
                None => None,
                Some((credentials, i3)) => {
                    if i3 < s.len() && s.len() - i3 == 1 && s[i3] == RBRACE {
                        Some(HandshakeRequest { client_version, credentials })
                    } else {
                        None
                    }
                },
            }
        },
    }
}

/// The seat a wire index names, if it names one.
fn seat_of_code(code: u32) -> (r: Option<Seat>)
    ensures
        r == spec_seat_of_code(code),
{
    if code == 0 {
        Some(Seat::East)
    } else if code == 1 {
        Some(Seat::South)
    } else if code == 2 {
        Some(Seat::West)
    } else if code == 3 {
        Some(Seat::North)
    } else {
        None
    }
}

/// Decodes a client request frame; `None` is a malformed frame. The frame
/// must hold exactly the request grammar, with no bytes to spare.
pub fn decode_client_request(s: &Vec<u8>) -> (r: Option<ClientRequest>)
    ensures
        r == spec_decode_client_request(s@),
{
    let start = lit_start_match_vec();
    if match_lit(s, 0, &start) && s.len() == start.len() {
        proof {
            assert(s@ =~= lit_start_match());
        }
        return Some(ClientRequest::StartMatch);
    }
    proof {
        if s@ == lit_start_match() {
            assert(s@.subrange(0, lit_start_match().len() as int) =~= lit_start_match());
        }
    }
    let head = lit_discard_head_vec();
    if !match_lit(s, 0, &head) {
        return None;
    }
    let i0: usize = head.len();
    match parse_number(s, i0) {
        None => None,
        Some((code, i1)) => match seat_of_code(code) {
            None => None,
            Some(player) => {
                let mid = lit_tile_mid_vec();
                if !match_lit(s, i1, &mid) {
                    return None;
                }
                let total: usize = s.len();
                proof {
                    assert(i1 + mid@.len() <= total);
                }
                let i2: usize = i1 + mid.len();
                match parse_number(s, i2) {
                    None => None,
                    Some((tile_id, i3)) => {
                        if tile_id <= 255 && i3 < s.len() && s.len() - i3 == 2 && s[i3] == RBRACE
                            && s[i3 + 1] == RBRACE {
                            Some(
                                ClientRequest::DiscardTile(
                                    DiscardTileRequest {
                                        player,
                                        tile: Tile { id: tile_id as u8 },
                                    },
                                ),
                            )
                        } else {
                            None
                        }
                    },
                }
            },
        },
    }
}

// ---------------------------------------------------------------------------
// Executable encoders
// ---------------------------------------------------------------------------

/// Appends all of `src` to `out`.
fn push_all(out: &mut Vec<u8>, src: &Vec<u8>)
    ensures
        final(out)@ == old(out)@ + src@,
{
    let mut k: usize = 0;
    while k < src.len()
        invariant
            k <= src.len(),
            out@ == old(out)@ + src@.subrange(0, k as int),
        decreases src.len() - k,
    {
        out.push(src[k]);
        k += 1;
        proof {
            assert(out@ =~= old(out)@ + src@.subrange(0, k as int));
        }
    }
    proof {
        assert(src@.subrange(0, src@.len() as int) =~= src@);
    }
}

/// Appends the canonical decimal digits of `n`.
fn push_digits(out: &mut Vec<u8>, n: u32)
    ensures
        final(out)@ == old(out)@ + spec_digits(n as int),
    decreases n,
{
    if n < 10 {
        out.push((48 + n) as u8);
        proof {
            assert(out@ =~= old(out)@ + spec_digits(n as int));
        }
    } else {
        push_digits(out, n / 10);
        out.push((48 + (n % 10)) as u8);
        proof {
            assert(out@ =~= old(out)@ + spec_digits(n as int));
        }
    }
}

/// Appends `<major>.<minor>.<patch>`.
fn push_version(out: &mut Vec<u8>, v: &SemanticVersion)
    ensures
        final(out)@ == old(out)@ + spec_encode_version(*v),
{
    push_digits(out, v.major);
    out.push(DOT);
    push_digits(out, v.minor);
    out.push(DOT);
    push_digits(out, v.patch);
    proof {
        assert(out@ =~= old(out)@ + spec_encode_version(*v));
    }
}

/// Appends `null` or the bare credential token.
fn push_opt_credentials(out: &mut Vec<u8>, c: &Option<Credentials>)
    ensures
        final(out)@ == old(out)@ + spec_encode_opt_credentials(*c),
{
    match c {
        None => {
            let null_lit = lit_null_vec();
            push_all(out, &null_lit);
        },
        Some(c) => {
            push_digits(out, c.token);
        },
    }
}

/// Encodes the response to an accepted handshake.
pub fn encode_handshake_response(r: &HandshakeResponse) -> (out: Vec<u8>)
    ensures
        out@ == spec_encode_handshake_response(*r),
{
    let mut out: Vec<u8> = Vec::new();
    let head = lit_hs_resp_head_vec();
    push_all(&mut out, &head);
    push_version(&mut out, &r.server_version);
    let mid_creds = lit_hs_resp_mid_creds_vec();
    push_all(&mut out, &mid_creds);
    push_opt_credentials(&mut out, &r.new_credentials);
    let mid_account = lit_hs_resp_mid_account_vec();
    push_all(&mut out, &mid_account);
    push_digits(&mut out, r.account_data.account_id);
    out.push(RBRACE);
    proof {
        assert(out@ =~= spec_encode_handshake_response(*r));
    }
    out
}

/// Encodes the response to a successful `StartMatch`.
pub fn encode_start_match_response(r: &StartMatchResponse) -> (out: Vec<u8>)
    ensures
        out@ == spec_encode_start_match_response(*r),
{
    let mut out: Vec<u8> = Vec::new();
    let head = lit_sm_resp_head_vec();
    push_all(&mut out, &head);
    push_digits(&mut out, r.state.snapshot);
    out.push(RBRACE);
    proof {
        assert(out@ =~= spec_encode_start_match_response(*r));
    }
    out
}

/// Encodes a server-pushed match event.
pub fn encode_match_event(e: &MatchEvent) -> (out: Vec<u8>)
    ensures
        out@ == spec_encode_match_event(*e),
{
    let mut out: Vec<u8> = Vec::new();
    match e {
        MatchEvent::TileDiscarded { seat, tile } => {
            let head = lit_event_head_vec();
            push_all(&mut out, &head);
            let code: u32 = match seat {
                Seat::East => 0,
                Seat::South => 1,
                Seat::West => 2,
                Seat::North => 3,
            };
            push_digits(&mut out, code);
            let mid = lit_tile_mid_vec();
            push_all(&mut out, &mid);
            push_digits(&mut out, tile.id as u32);
            out.push(RBRACE);
            out.push(RBRACE);
        },
    }
    proof {
        assert(out@ =~= spec_encode_match_event(*e));
    }
    out
}


/// The bytes of `{"error":{"kind":`.
pub open spec fn lit_error_head() -> Seq<u8> {
    seq![123u8, 34, 101, 114, 114, 111, 114, 34, 58, 123, 34, 107, 105, 110, 100, 34, 58]
}

fn lit_error_head_vec() -> (v: Vec<u8>)
    ensures
        v@ == lit_error_head(),
{
    let mut v: Vec<u8> = Vec::new();
    v.push(123);
    v.push(34);
    v.push(101);
    v.push(114);
    v.push(114);
    v.push(111);
    v.push(114);
    v.push(34);
    v.push(58);
    v.push(123);
    v.push(34);
    v.push(107);
    v.push(105);
    v.push(110);
    v.push(100);
    v.push(34);
    v.push(58);
    proof { assert(v@ =~= lit_error_head()); }
    v
}

/// The bytes of `,"code":`.
pub open spec fn lit_error_code_mid() -> Seq<u8> {
    seq![44u8, 34, 99, 111, 100, 101, 34, 58]
}

fn lit_error_code_mid_vec() -> (v: Vec<u8>)
    ensures
        v@ == lit_error_code_mid(),
{
    let mut v: Vec<u8> = Vec::new();
    v.push(44);
    v.push(34);
    v.push(99);
    v.push(111);
    v.push(100);
    v.push(101);
    v.push(34);
    v.push(58);
    proof { assert(v@ =~= lit_error_code_mid()); }
    v
}

/// The wire index of a request-level error: malformed request 0, not in
/// match 1, already in match 2, discard rejected 3.
pub open spec fn spec_error_kind(e: RequestError) -> u32 {
    match e {
        RequestError::MalformedRequest => 0,
        RequestError::NotInMatch => 1,
        RequestError::AlreadyInMatch => 2,
        RequestError::DiscardRejected(..) => 3,
    }
}

/// The detail code of a request-level error: the match controller's own
/// code for a rejected discard, zero otherwise.
pub open spec fn spec_error_code(e: RequestError) -> u32 {
    match e {
        RequestError::DiscardRejected(m) => m.code,
        _ => 0,
    }
}

/// `{"error":{"kind":<kind>,"code":<code>}}`
pub open spec fn spec_encode_error_response(e: RequestError) -> Seq<u8> {
    lit_error_head() + spec_digits(spec_error_kind(e) as int) + lit_error_code_mid()
        + spec_digits(spec_error_code(e) as int) + seq![RBRACE, RBRACE]
}

/// Encodes the error response answering one failed request, so that the
/// caller reports the failure back to the client instead of dropping it.
pub fn encode_error_response(e: &RequestError) -> (out: Vec<u8>)
    ensures
        out@ == spec_encode_error_response(*e),
{
    let mut out: Vec<u8> = Vec::new();
    let head = lit_error_head_vec();
    push_all(&mut out, &head);
    let kind: u32 = match e {
        RequestError::MalformedRequest => 0,
        RequestError::NotInMatch => 1,
        RequestError::AlreadyInMatch => 2,
        RequestError::DiscardRejected(..) => 3,
    };
    push_digits(&mut out, kind);
    let mid = lit_error_code_mid_vec();
    push_all(&mut out, &mid);
    let code: u32 = match e {
        RequestError::DiscardRejected(m) => m.code,
        _ => 0,
    };
    push_digits(&mut out, code);
    out.push(RBRACE);
    out.push(RBRACE);
    proof {
        assert(out@ =~= spec_encode_error_response(*e));
    }
    out
}

} // verus!
