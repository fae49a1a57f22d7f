//! Byte-stable encoding of bridge request records for persistence.
//!
//! Every string is written as its UTF-8 bytes preceded by their count as
//! eight little-endian bytes; the optional token address and the status are
//! written behind one tag byte each.  The decoder accepts exactly the byte
//! strings the encoder produces: decoding an encoding returns the original
//! record, and re-encoding a decoded record returns the original bytes.

use vstd::prelude::*;

use vstd::bytes::{
    lemma_auto_spec_u64_to_from_le_bytes, spec_u64_from_le_bytes, spec_u64_to_le_bytes,
    u64_from_le_bytes, u64_to_le_bytes,
};
use vstd::utf8::{
    decode_utf8, decode_utf8_encode_utf8, encode_utf8, encode_utf8_decode_utf8,
    encode_utf8_valid_utf8, valid_utf8,
};

use crate::model::{opt_view, BridgeRequest, RequestStatus, RequestView, StatusView};

verus! {

/// The encoding of one string: its UTF-8 byte count as eight little-endian
/// bytes, then the UTF-8 bytes themselves.
pub open spec fn spec_encode_str(s: Seq<char>) -> Seq<u8> {
    spec_u64_to_le_bytes(encode_utf8(s).len() as u64) + encode_utf8(s)
}

/// The length prefix is faithful only when the byte count fits it.
pub open spec fn str_len_ok(s: Seq<char>) -> bool {
    encode_utf8(s).len() <= u64::MAX
}

/// The encoding of the optional token address: a tag byte, then the string
/// when present.
pub open spec fn spec_encode_opt(o: Option<Seq<char>>) -> Seq<u8> {
    match o {
        Option::None => seq![0u8],
        Option::Some(s) => seq![1u8] + spec_encode_str(s),
    }
}

pub open spec fn opt_len_ok(o: Option<Seq<char>>) -> bool {
    match o {
        Option::None => true,
        Option::Some(s) => str_len_ok(s),
    }
}

/// The encoding of a status: a tag byte, then the payload strings.
pub open spec fn spec_encode_status(st: StatusView) -> Seq<u8> {
    match st {
        StatusView::Created => seq![0u8],
        StatusView::Doing { to_txn_hash } => seq![1u8] + spec_encode_str(to_txn_hash),
        StatusView::Error { to_txn_hash, error } => seq![2u8] + spec_encode_str(to_txn_hash)
            + spec_encode_str(error),
        StatusView::Done { to_txn_hash } => seq![3u8] + spec_encode_str(to_txn_hash),
    }
}

pub open spec fn status_len_ok(st: StatusView) -> bool {
    match st {
        StatusView::Created => true,
        StatusView::Doing { to_txn_hash } => str_len_ok(to_txn_hash),
        StatusView::Error { to_txn_hash, error } => str_len_ok(to_txn_hash) && str_len_ok(error),
        StatusView::Done { to_txn_hash } => str_len_ok(to_txn_hash),
    }
}

/// The encoding of a whole record: the five fields in order, then the status.
pub open spec fn spec_encode_request(m: RequestView) -> Seq<u8> {
    spec_encode_str(m.to_blockchain) + spec_encode_str(m.to_token) + spec_encode_str(m.to_address)
        + spec_encode_opt(m.from_token_address) + spec_encode_str(m.from_amount_atom)
        + spec_encode_status(m.status)
}

pub open spec fn request_len_ok(m: RequestView) -> bool {
    str_len_ok(m.to_blockchain) && str_len_ok(m.to_token) && str_len_ok(m.to_address) && opt_len_ok(
        m.from_token_address,
    ) && str_len_ok(m.from_amount_atom) && status_len_ok(m.status)
}

/// Reads one length-prefixed string from the front of `b`; yields the
/// decoded characters and the remaining bytes.
pub open spec fn spec_read_str(b: Seq<u8>) -> Option<(Seq<char>, Seq<u8>)> {
    if b.len() < 8 {
        Option::None
    } else {
        let l = spec_u64_from_le_bytes(b.take(8)) as int;
        if b.len() < 8 + l {
            Option::None
        } else {
            let chunk = b.subrange(8, 8 + l);
            if valid_utf8(chunk) {
                Option::Some((decode_utf8(chunk), b.skip(8 + l)))
            } else {
                Option::None
            }
        }
    }
}

/// Reads the optional token address from the front of `b`.
pub open spec fn spec_read_opt(b: Seq<u8>) -> Option<(Option<Seq<char>>, Seq<u8>)> {
    if b.len() < 1 {
        Option::None
    } else if b[0] == 0u8 {
        Option::Some((Option::None, b.skip(1)))
    } else if b[0] == 1u8 {
        match spec_read_str(b.skip(1)) {
            Option::Some((s, r)) => Option::Some((Option::Some(s), r)),
            Option::None => Option::None,
        }
    } else {
        Option::None
    }
}

/// Reads a status from the front of `b`.
pub open spec fn spec_read_status(b: Seq<u8>) -> Option<(StatusView, Seq<u8>)> {
    if b.len() < 1 {
        Option::None
    } else if b[0] == 0u8 {
        Option::Some((StatusView::Created, b.skip(1)))
    } else if b[0] == 1u8 {
        match spec_read_str(b.skip(1)) {
            Option::Some((h, r)) => Option::Some((StatusView::Doing { to_txn_hash: h }, r)),
            Option::None => Option::None,
        }
    } else if b[0] == 2u8 {
        match spec_read_str(b.skip(1)) {
            Option::Some((h, r1)) => match spec_read_str(r1) {
                Option::Some((e, r2)) => Option::Some(
                    (StatusView::Error { to_txn_hash: h, error: e }, r2),
                ),
                Option::None => Option::None,
            },
            Option::None => Option::None,
        }
    } else if b[0] == 3u8 {
        match spec_read_str(b.skip(1)) {
            Option::Some((h, r)) => Option::Some((StatusView::Done { to_txn_hash: h }, r)),
            Option::None => Option::None,
        }
    } else {
        Option::None
    }
}

/// The decoder: a record is exactly six components with nothing left over.
pub open spec fn spec_decode_request(b: Seq<u8>) -> Option<RequestView> {
    match spec_read_str(b) {
        Option::None => Option::None,
        Option::Some((to_blockchain, b1)) => match spec_read_str(b1) {
            Option::None => Option::None,
            Option::Some((to_token, b2)) => match spec_read_str(b2) {
                Option::None => Option::None,
                Option::Some((to_address, b3)) => match spec_read_opt(b3) {
                    Option::None => Option::None,
                    Option::Some((from_token_address, b4)) => match spec_read_str(b4) {
                        Option::None => Option::None,
                        Option::Some((from_amount_atom, b5)) => match spec_read_status(b5) {
                            Option::None => Option::None,
                            Option::Some((status, b6)) => if b6.len() == 0 {
                                Option::Some(
                                    RequestView {
                                        to_blockchain,
                                        to_token,
                                        to_address,
                                        from_token_address,
                                        from_amount_atom,
                                        status,
                                    },
                                )
                            } else {
                                Option::None
                            },
                        },
                    },
                },
            },
        },
    }
}

proof fn lemma_read_encoded_str(s: Seq<char>, rest: Seq<u8>)
    requires
        str_len_ok(s),
    ensures
        spec_read_str(spec_encode_str(s) + rest) == Option::Some((s, rest)),
{
    lemma_auto_spec_u64_to_from_le_bytes();
    let le = spec_u64_to_le_bytes(encode_utf8(s).len() as u64);
    let b = spec_encode_str(s) + rest;
    assert(b.take(8) =~= le);
    let l = spec_u64_from_le_bytes(b.take(8)) as int;
    assert(l == encode_utf8(s).len());
    assert(b.subrange(8, 8 + l) =~= encode_utf8(s));
    encode_utf8_valid_utf8(s);
    encode_utf8_decode_utf8(s);
    assert(b.skip(8 + l) =~= rest);
}

proof fn lemma_read_str_sound(b: Seq<u8>)
    ensures
        spec_read_str(b) matches Option::Some(p) ==> {
            &&& spec_encode_str(p.0) + p.1 == b
            &&& str_len_ok(p.0)
            &&& p.1.len() + 8 <= b.len()
        },
{
    if spec_read_str(b) is Some {
        lemma_auto_spec_u64_to_from_le_bytes();
        let l = spec_u64_from_le_bytes(b.take(8)) as int;
        let chunk = b.subrange(8, 8 + l);
        let s = decode_utf8(chunk);
        decode_utf8_encode_utf8(chunk);
        assert(encode_utf8(s) == chunk);
        assert(encode_utf8(s).len() == l);
        assert(spec_u64_to_le_bytes(spec_u64_from_le_bytes(b.take(8))) == b.take(8));
        assert(spec_encode_str(s) + b.skip(8 + l) =~= b);
    }
}

proof fn lemma_read_encoded_opt(o: Option<Seq<char>>, rest: Seq<u8>)
    requires
        opt_len_ok(o),
    ensures
        spec_read_opt(spec_encode_opt(o) + rest) == Option::Some((o, rest)),
{
    let b = spec_encode_opt(o) + rest;
    match o {
        Option::None => {
            assert(b[0] == 0u8);
            assert(b.skip(1) =~= rest);
        },
        Option::Some(s) => {
            assert(b[0] == 1u8);
            assert(b.skip(1) =~= spec_encode_str(s) + rest);
            lemma_read_encoded_str(s, rest);
        },
    }
}

proof fn lemma_read_opt_sound(b: Seq<u8>)
    ensures
        spec_read_opt(b) matches Option::Some(p) ==> {
            &&& spec_encode_opt(p.0) + p.1 == b
            &&& opt_len_ok(p.0)
            &&& p.1.len() < b.len()
        },
{
    if spec_read_opt(b) is Some {
        if b[0] == 0u8 {
            assert(spec_encode_opt(Option::None) + b.skip(1) =~= b);
        } else {
            lemma_read_str_sound(b.skip(1));
            match spec_read_str(b.skip(1)) {
                Option::Some((s, r)) => {
                    assert(spec_encode_str(s) + r == b.skip(1));
                    assert(b[0] == 1u8);
                    assert((seq![1u8] + spec_encode_str(s)) + r =~= seq![1u8] + (spec_encode_str(
                        s,
                    ) + r));
                    assert(seq![1u8] + b.skip(1) =~= b);
                    assert(spec_encode_opt(Option::Some(s)) + r == b);
                },
                Option::None => {},
            }
        }
    }
}

proof fn lemma_read_encoded_status(st: StatusView, rest: Seq<u8>)
    requires
        status_len_ok(st),
    ensures
        spec_read_status(spec_encode_status(st) + rest) == Option::Some((st, rest)),
{
    let b = spec_encode_status(st) + rest;
    match st {
        StatusView::Created => {
            assert(b[0] == 0u8);
            assert(b.skip(1) =~= rest);
        },
        StatusView::Doing { to_txn_hash } => {
            assert(b[0] == 1u8);
            assert(b.skip(1) =~= spec_encode_str(to_txn_hash) + rest);
            lemma_read_encoded_str(to_txn_hash, rest);
        },
        StatusView::Error { to_txn_hash, error } => {
            assert(b[0] == 2u8);
            assert(b.skip(1) =~= spec_encode_str(to_txn_hash) + (spec_encode_str(error) + rest));
            lemma_read_encoded_str(to_txn_hash, spec_encode_str(error) + rest);
            lemma_read_encoded_str(error, rest);
        },
        StatusView::Done { to_txn_hash } => {
            assert(b[0] == 3u8);
            assert(b.skip(1) =~= spec_encode_str(to_txn_hash) + rest);
            lemma_read_encoded_str(to_txn_hash, rest);
        },
    }
}

proof fn lemma_read_status_sound(b: Seq<u8>)
    ensures
        spec_read_status(b) matches Option::Some(p) ==> {
            &&& spec_encode_status(p.0) + p.1 == b
            &&& status_len_ok(p.0)
            &&& p.1.len() < b.len()
        },
{
    if spec_read_status(b) is Some {
        if b[0] == 0u8 {
            assert(spec_encode_status(StatusView::Created) + b.skip(1) =~= b);
        } else if b[0] == 1u8 {
            lemma_read_str_sound(b.skip(1));
            match spec_read_str(b.skip(1)) {
                Option::Some((h, r)) => {
                    assert(spec_encode_str(h) + r == b.skip(1));
                    assert((seq![1u8] + spec_encode_str(h)) + r =~= seq![1u8] + (spec_encode_str(
                        h,
                    ) + r));
                    assert(seq![1u8] + b.skip(1) =~= b);
                    assert(spec_encode_status(StatusView::Doing { to_txn_hash: h }) + r == b);
                },
                Option::None => {},
            }
        } else if b[0] == 2u8 {
            lemma_read_str_sound(b.skip(1));
            match spec_read_str(b.skip(1)) {
                Option::Some((h, r1)) => {
                    lemma_read_str_sound(r1);
                    match spec_read_str(r1) {
                        Option::Some((e, r2)) => {
                            let st = StatusView::Error { to_txn_hash: h, error: e };
                            assert(spec_encode_str(h) + r1 == b.skip(1));
                            assert(spec_encode_str(e) + r2 == r1);
                            assert((seq![2u8] + spec_encode_str(h) + spec_encode_str(e)) + r2
                                =~= seq![2u8] + (spec_encode_str(h) + (spec_encode_str(e) + r2)));
                            assert(spec_encode_str(h) + (spec_encode_str(e) + r2) == b.skip(1));
                            assert(seq![2u8] + b.skip(1) =~= b);
                            assert(spec_encode_status(st) + r2 == b);
                        },
                        Option::None => {},
                    }
                },
                Option::None => {},
            }
        } else {
            lemma_read_str_sound(b.skip(1));
            match spec_read_str(b.skip(1)) {
                Option::Some((h, r)) => {
                    assert(spec_encode_str(h) + r == b.skip(1));
                    assert((seq![3u8] + spec_encode_str(h)) + r =~= seq![3u8] + (spec_encode_str(
                        h,
                    ) + r));
                    assert(seq![3u8] + b.skip(1) =~= b);
                    assert(spec_encode_status(StatusView::Done { to_txn_hash: h }) + r == b);
                },
                Option::None => {},
            }
        }
    }
}

/// Half of the storage round trip: decoding the encoding of any record whose
/// byte counts fit the length prefixes yields that record again.
pub proof fn lemma_decode_of_encode(m: RequestView)
    requires
        request_len_ok(m),
    ensures
        spec_decode_request(spec_encode_request(m)) == Option::Some(m),
{
    let e1 = spec_encode_str(m.to_blockchain);
    let e2 = spec_encode_str(m.to_token);
    let e3 = spec_encode_str(m.to_address);
    let e4 = spec_encode_opt(m.from_token_address);
    let e5 = spec_encode_str(m.from_amount_atom);
    let e6 = spec_encode_status(m.status);
    let r5 = e6 + Seq::<u8>::empty();
    let r4 = e5 + r5;
    let r3 = e4 + r4;
    let r2 = e3 + r3;
    let r1 = e2 + r2;
    assert(spec_encode_request(m) =~= e1 + r1);
    lemma_read_encoded_str(m.to_blockchain, r1);
    lemma_read_encoded_str(m.to_token, r2);
    lemma_read_encoded_str(m.to_address, r3);
    lemma_read_encoded_opt(m.from_token_address, r4);
    lemma_read_encoded_str(m.from_amount_atom, r5);
    lemma_read_encoded_status(m.status, Seq::<u8>::empty());
    assert(r5 =~= e6 + Seq::<u8>::empty());
}

/// The other half of the storage round trip: any byte string the decoder
/// accepts is exactly the encoding of the record it returns.
#[verifier::rlimit(100)]
pub proof fn lemma_encode_of_decode(b: Seq<u8>)
    ensures
        spec_decode_request(b) matches Option::Some(m) ==> {
            &&& spec_encode_request(m) == b
            &&& request_len_ok(m)
        },
{
    if spec_decode_request(b) is Some {
        lemma_read_str_sound(b);
        match spec_read_str(b) {
            Option::Some((tb, b1)) => {
                lemma_read_str_sound(b1);
                match spec_read_str(b1) {
                    Option::Some((tt, b2)) => {
                        lemma_read_str_sound(b2);
                        match spec_read_str(b2) {
                            Option::Some((ta, b3)) => {
                                lemma_read_opt_sound(b3);
                                match spec_read_opt(b3) {
                                    Option::Some((fta, b4)) => {
                                        lemma_read_str_sound(b4);
                                        match spec_read_str(b4) {
                                            Option::Some((amt, b5)) => {
                                                lemma_read_status_sound(b5);
                                                match spec_read_status(b5) {
                                                    Option::Some((st, b6)) => {
                                                        assert(b6.len() == 0);
                                                        let m = RequestView {
                                                            to_blockchain: tb,
                                                            to_token: tt,
                                                            to_address: ta,
                                                            from_token_address: fta,
                                                            from_amount_atom: amt,
                                                            status: st,
                                                        };
                                                        let e1 = spec_encode_str(tb);
                                                        let e2 = spec_encode_str(tt);
                                                        let e3 = spec_encode_str(ta);
                                                        let e4 = spec_encode_opt(fta);
                                                        let e5 = spec_encode_str(amt);
                                                        let e6 = spec_encode_status(st);
                                                        assert(e6 =~= b5);
                                                        assert(e5 + e6 == b4);
                                                        assert(e4 + (e5 + e6) == b3);
                                                        assert(e3 + (e4 + (e5 + e6)) == b2);
                                                        assert(e2 + (e3 + (e4 + (e5 + e6)))
                                                            == b1);
                                                        assert(e1 + (e2 + (e3 + (e4 + (e5
                                                            + e6)))) == b);
                                                        assert(((((e1 + e2) + e3) + e4) + e5)
                                                            + e6 =~= e1 + (e2 + (e3 + (e4 + (e5
                                                            + e6)))));
                                                        assert(spec_encode_request(m) == b);
                                                    },
                                                    Option::None => {},
                                                }
                                            },
                                            Option::None => {},
                                        }
                                    },
                                    Option::None => {},
                                }
                            },
                            Option::None => {},
                        }
                    },
                    Option::None => {},
                }
            },
            Option::None => {},
        }
    }
}

/// Relies on `core::str::from_utf8`: succeeds exactly on valid UTF-8 input
/// and returns the character sequence those bytes encode.
#[verifier::external_body]
pub(crate) fn string_from_utf8(v: &[u8]) -> (r: Option<String>)
    ensures
        r is Some <==> valid_utf8(v@),
        r matches Some(s) ==> s@ == decode_utf8(v@),
{
    match core::str::from_utf8(v) {
        Ok(s) => Some(s.to_owned()),
        Err(_) => None,
    }
}

/// Appends every byte of `b` to `out`.
fn append_bytes(out: &mut Vec<u8>, b: &[u8])
    ensures
        final(out)@ == old(out)@ + b@,
{
    let n = b.len();
    let mut i: usize = 0;
    while i < n
        invariant
            n == b@.len(),
            i <= n,
            out@ == old(out)@ + b@.take(i as int),
        decreases n - i,
    {
        out.push(b[i]);
        proof {
            assert(out@ =~= old(out)@ + b@.take(i + 1));
        }
        i = i + 1;
    }
    proof {
        assert(out@ =~= old(out)@ + b@);
    }
}

/// Appends the encoding of one string field to `out`.
fn write_str(out: &mut Vec<u8>, s: &String)
    ensures
        final(out)@ == old(out)@ + spec_encode_str(s@),
        str_len_ok(s@),
{
    let bytes: &[u8] = s.as_str().as_bytes();
    let n: usize = bytes.len();
    let mut le: Vec<u8> = u64_to_le_bytes(n as u64);
    out.append(&mut le);
    append_bytes(out, bytes);
    proof {
        assert(bytes@ == encode_utf8(s@));
        assert(out@ =~= old(out)@ + spec_encode_str(s@));
    }
}

impl BridgeRequest {
    /// Encodes the record into its byte-stable storage form.
    pub fn serialize(&self) -> (out: Vec<u8>)
        ensures
            out@ == spec_encode_request(self@),
            request_len_ok(self@),
    {
        let mut out: Vec<u8> = Vec::new();
        write_str(&mut out, &self.to_blockchain);
        write_str(&mut out, &self.to_token);
        write_str(&mut out, &self.to_address);
        match &self.from_token_address {
            Option::None => {
                out.push(0u8);
            },
            Option::Some(s) => {
                out.push(1u8);
                write_str(&mut out, s);
            },
        }
        write_str(&mut out, &self.from_amount_atom);
        match &self.status {
            RequestStatus::Created => {
                out.push(0u8);
            },
            RequestStatus::Doing { to_txn_hash } => {
                out.push(1u8);
                write_str(&mut out, to_txn_hash);
            },
            RequestStatus::Error { to_txn_hash, error } => {
                out.push(2u8);
                write_str(&mut out, to_txn_hash);
                write_str(&mut out, error);
            },
            RequestStatus::Done { to_txn_hash } => {
                out.push(3u8);
                write_str(&mut out, to_txn_hash);
            },
        }
        proof {
            assert(out@ =~= spec_encode_request(self@));
        }
        out
    }

    /// Decodes a record from its byte-stable storage form; yields nothing
    /// unless the bytes are exactly an encoded record.
    pub fn deserialize(bytes: &[u8]) -> (r: Option<BridgeRequest>)
        ensures
            match r {
                Option::Some(req) => spec_decode_request(bytes@) == Option::Some(req@),
                Option::None => spec_decode_request(bytes@) is None,
            },
    {
        proof {
            assert(bytes@.skip(0) =~= bytes@);
        }
        let (to_blockchain, p1) = match read_str(bytes, 0) {
            Option::Some(p) => p,
            Option::None => {
                return Option::None;
            },
        };
        let (to_token, p2) = match read_str(bytes, p1) {
            Option::Some(p) => p,
            Option::None => {
                return Option::None;
            },
        };
        let (to_address, p3) = match read_str(bytes, p2) {
            Option::Some(p) => p,
            Option::None => {
                return Option::None;
            },
        };
        let (from_token_address, p4) = match read_opt(bytes, p3) {
            Option::Some(p) => p,
            Option::None => {
                return Option::None;
            },
        };
        let (from_amount_atom, p5) = match read_str(bytes, p4) {
            Option::Some(p) => p,
            Option::None => {
                return Option::None;
            },
        };
        let (status, p6) = match read_status(bytes, p5) {
            Option::Some(p) => p,
            Option::None => {
                return Option::None;
            },
        };
        if p6 != bytes.len() {
            return Option::None;
        }
        proof {
            assert(bytes@.skip(p6 as int).len() == 0);
        }
        Option::Some(
            BridgeRequest {
                to_blockchain,
                to_token,
                to_address,
                from_token_address,
                from_amount_atom,
                status,
            },
        )
    }
}

/// Reads one length-prefixed string starting at `pos`.
fn read_str(bytes: &[u8], pos: usize) -> (r: Option<(String, usize)>)
    requires
        pos <= bytes@.len(),
    ensures
        match r {
            Option::Some(p) => {
                &&& pos < p.1 <= bytes@.len()
                &&& spec_read_str(bytes@.skip(pos as int)) == Option::Some(
                    (p.0@, bytes@.skip(p.1 as int)),
                )
            },
            Option::None => spec_read_str(bytes@.skip(pos as int)) is None,
        },
{
    let ghost b = bytes@.skip(pos as int);
    let n = bytes.len();
    if n - pos < 8 {
        return Option::None;
    }
    let le_slice: &[u8] = &bytes[pos..pos + 8];
    proof {
        assert(le_slice@ =~= b.take(8));
    }
    let l: u64 = u64_from_le_bytes(le_slice);
    let rem: usize = n - (pos + 8);
    if l > rem as u64 {
        return Option::None;
    }
    let lu: usize = l as usize;
    let chunk: &[u8] = &bytes[pos + 8..pos + 8 + lu];
    proof {
        assert(chunk@ =~= b.subrange(8, 8 + l as int));
    }
    match string_from_utf8(chunk) {
        Option::Some(s) => {
            let end = pos + 8 + lu;
            proof {
                assert(bytes@.skip(end as int) =~= b.skip(8 + l as int));
            }
            Option::Some((s, end))
        },
        Option::None => Option::None,
    }
}

/// Reads the optional token address starting at `pos`.
fn read_opt(bytes: &[u8], pos: usize) -> (r: Option<(Option<String>, usize)>)
    requires
        pos <= bytes@.len(),
    ensures
        match r {
            Option::Some(p) => {
                &&& pos < p.1 <= bytes@.len()
                &&& spec_read_opt(bytes@.skip(pos as int)) == Option::Some(
                    (opt_view(p.0), bytes@.skip(p.1 as int)),
                )
            },
            Option::None => spec_read_opt(bytes@.skip(pos as int)) is None,
        },
{
    let ghost b = bytes@.skip(pos as int);
    if pos >= bytes.len() {
        return Option::None;
    }
    let tag = bytes[pos];
    proof {
        assert(b[0] == tag);
    }
    if tag == 0u8 {
        proof {
            assert(bytes@.skip(pos as int + 1) =~= b.skip(1));
        }
        Option::Some((Option::None, pos + 1))
    } else if tag == 1u8 {
        proof {
            assert(bytes@.skip(pos as int + 1) =~= b.skip(1));
        }
        match read_str(bytes, pos + 1) {
            Option::Some((s, end)) => Option::Some((Option::Some(s), end)),
            Option::None => Option::None,
        }
    } else {
        Option::None
    }
}

/// Reads a status starting at `pos`.
fn read_status(bytes: &[u8], pos: usize) -> (r: Option<(RequestStatus, usize)>)
    requires
        pos <= bytes@.len(),
    ensures
        match r {
            Option::Some(p) => {
                &&& pos < p.1 <= bytes@.len()
                &&& spec_read_status(bytes@.skip(pos as int)) == Option::Some(
                    (p.0@, bytes@.skip(p.1 as int)),
                )
            },
            Option::None => spec_read_status(bytes@.skip(pos as int)) is None,
        },
{
    let ghost b = bytes@.skip(pos as int);
    if pos >= bytes.len() {
        return Option::None;
    }
    let tag = bytes[pos];
    proof {
        assert(b[0] == tag);
        assert(bytes@.skip(pos as int + 1) =~= b.skip(1));
    }
    if tag == 0u8 {
        Option::Some((RequestStatus::Created, pos + 1))
    } else if tag == 1u8 {
        match read_str(bytes, pos + 1) {
            Option::Some((h, end)) => Option::Some(
                (RequestStatus::Doing { to_txn_hash: h }, end),
            ),
            Option::None => Option::None,
        }
    } else if tag == 2u8 {
        match read_str(bytes, pos + 1) {
            Option::Some((h, mid)) => match read_str(bytes, mid) {
                Option::Some((e, end)) => Option::Some(
                    (RequestStatus::Error { to_txn_hash: h, error: e }, end),
                ),
                Option::None => Option::None,
            },
            Option::None => Option::None,
        }
    } else if tag == 3u8 {
        match read_str(bytes, pos + 1) {
            Option::Some((h, end)) => Option::Some(
                (RequestStatus::Done { to_txn_hash: h }, end),
            ),
            Option::None => Option::None,
        }
    } else {
        Option::None
    }
}

} // verus!
