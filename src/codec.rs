use vstd::prelude::*;
use vstd::utf8::{
    encode_utf8, decode_utf8, valid_utf8, encode_utf8_decode_utf8, encode_utf8_valid_utf8,
};
use crate::state::{ChainSupported, TxStateMachine, TxStatus};

verus! {

/// Largest length a compact prefix of this codec can carry, exclusive.
pub const MAX_COMPACT: usize = 0x4000_0000;

pub open spec fn pow256(n: nat) -> nat
    decreases n,
{
    if n == 0 {
        1
    } else {
        256 * pow256((n - 1) as nat)
    }
}

/// The `n` low bytes of `v`, least significant first.
pub open spec fn le_bytes(v: nat, n: nat) -> Seq<u8>
    decreases n,
{
    if n == 0 {
        seq![]
    } else {
        seq![(v % 256) as u8] + le_bytes(v / 256, (n - 1) as nat)
    }
}

/// The number that little-endian bytes stand for.
pub open spec fn le_value(s: Seq<u8>) -> nat
    decreases s.len(),
{
    if s.len() == 0 {
        0
    } else {
        s[0] as nat + 256 * le_value(s.drop_first())
    }
}

pub proof fn lemma_le_bytes_len(v: nat, n: nat)
    ensures
        le_bytes(v, n).len() == n,
    decreases n,
{
    if n > 0 {
        lemma_le_bytes_len(v / 256, (n - 1) as nat);
    }
}

pub proof fn lemma_le_round_trip(v: nat, n: nat)
    requires
        v < pow256(n),
    ensures
        le_value(le_bytes(v, n)) == v,
        le_bytes(v, n).len() == n,
    decreases n,
{
    lemma_le_bytes_len(v, n);
    if n > 0 {
        let p = pow256((n - 1) as nat);
        assert(v / 256 < p) by (nonlinear_arith)
            requires
                v < 256 * p,
        ;
        lemma_le_round_trip(v / 256, (n - 1) as nat);
        assert(le_bytes(v, n).drop_first() == le_bytes(v / 256, (n - 1) as nat));
    }
}

pub proof fn lemma_le_value_bound(s: Seq<u8>)
    ensures
        le_value(s) < pow256(s.len()),
    decreases s.len(),
{
    if s.len() > 0 {
        lemma_le_value_bound(s.drop_first());
        let r = le_value(s.drop_first());
        let p = pow256((s.len() - 1) as nat);
        assert(s[0] as nat + 256 * r < 256 * p) by (nonlinear_arith)
            requires
                r < p,
                s[0] < 256,
        ;
    }
}

pub proof fn lemma_pow256_mono(a: nat, b: nat)
    requires
        a <= b,
    ensures
        pow256(a) <= pow256(b),
    decreases b,
{
    if a < b {
        lemma_pow256_mono(a, (b - 1) as nat);
    }
}

proof fn lemma_pow256_values()
    ensures
        pow256(1) == 0x100,
        pow256(2) == 0x1_0000,
        pow256(4) == 0x1_0000_0000,
        pow256(8) == 0x1_0000_0000_0000_0000,
        pow256(16) == 0x1_0000_0000_0000_0000_0000_0000_0000_0000,
{
    reveal_with_fuel(pow256, 17);
}

/// Appends the `n` low bytes of `v`, least significant first.
pub fn write_le(out: &mut Vec<u8>, v: u128, n: usize)
    ensures
        final(out)@ == old(out)@ + le_bytes(v as nat, n as nat),
{
    let ghost start = out@;
    let mut cur: u128 = v;
    let mut i: usize = 0;
    while i < n
        invariant
            i <= n,
            out@ + le_bytes(cur as nat, (n - i) as nat) == start + le_bytes(v as nat, n as nat),
        decreases n - i,
    {
        let ghost before = out@;
        assert(le_bytes(cur as nat, (n - i) as nat) == seq![(cur % 256) as u8] + le_bytes(
            (cur / 256) as nat,
            (n - i - 1) as nat,
        ));
        out.push((cur % 256) as u8);
        assert(out@ == before + seq![(cur % 256) as u8]);
        cur = cur / 256;
        i = i + 1;
    }
    assert(le_bytes(cur as nat, 0) == Seq::<u8>::empty());
    assert(out@ == out@ + Seq::<u8>::empty());
}

/// Little-endian number of `n` bytes at `pos`, and the position after it.
pub open spec fn parse_le(s: Seq<u8>, pos: int, n: nat) -> Option<(nat, int)> {
    if 0 <= pos && pos + n <= s.len() {
        Some((le_value(s.subrange(pos, pos + n)), pos + n))
    } else {
        None
    }
}

/// Reads a little-endian number of at most 16 bytes.
pub fn read_le(s: &[u8], pos: usize, n: usize) -> (r: Option<(u128, usize)>)
    requires
        n <= 16,
    ensures
        match r {
            Some((v, p)) => parse_le(s@, pos as int, n as nat) == Some((v as nat, p as int)),
            None => parse_le(s@, pos as int, n as nat) is None,
        },
{
    if pos > s.len() || n > s.len() - pos {
        return None;
    }
    let end = pos + n;
    let mut acc: u128 = 0;
    let mut j: usize = end;
    proof {
        lemma_pow256_values();
    }
    while j > pos
        invariant
            pos <= j <= end,
            end == pos + n,
            end <= s@.len(),
            n <= 16,
            acc as nat == le_value(s@.subrange(j as int, end as int)),
            pow256(16) == 0x1_0000_0000_0000_0000_0000_0000_0000_0000,
        decreases j - pos,
    {
        let ghost tail = s@.subrange(j as int, end as int);
        let ghost wider = s@.subrange(j - 1, end as int);
        assert(wider.drop_first() == tail);
        proof {
            lemma_le_value_bound(wider);
            lemma_pow256_mono(wider.len(), 16);
        }
        acc = acc * 256 + s[j - 1] as u128;
        j = j - 1;
    }
    Some((acc, end))
}

/// Compact length prefix: one, two or four little-endian bytes whose low two
/// bits give the mode and whose other bits give the length.
pub open spec fn enc_compact(n: nat) -> Seq<u8> {
    if n < 64 {
        le_bytes(n * 4, 1)
    } else if n < 0x4000 {
        le_bytes(n * 4 + 1, 2)
    } else {
        le_bytes(n * 4 + 2, 4)
    }
}

pub open spec fn parse_compact(s: Seq<u8>, pos: int) -> Option<(nat, int)> {
    if 0 <= pos < s.len() {
        let mode = s[pos] % 4;
        if mode == 0 {
            Some(((s[pos] / 4) as nat, pos + 1))
        } else if mode == 1 {
            match parse_le(s, pos, 2) {
                Some((v, p)) => Some((v / 4, p)),
                None => None,
            }
        } else if mode == 2 {
            match parse_le(s, pos, 4) {
                Some((v, p)) => Some((v / 4, p)),
                None => None,
            }
        } else {
            None
        }
    } else {
        None
    }
}

pub fn write_compact(out: &mut Vec<u8>, n: usize)
    requires
        n < MAX_COMPACT,
    ensures
        final(out)@ == old(out)@ + enc_compact(n as nat),
{
    if n < 64 {
        write_le(out, (n * 4) as u128, 1);
    } else if n < 0x4000 {
        write_le(out, (n * 4 + 1) as u128, 2);
    } else {
        write_le(out, (n * 4 + 2) as u128, 4);
    }
}

pub fn read_compact(s: &[u8], pos: usize) -> (r: Option<(usize, usize)>)
    ensures
        match r {
            Some((n, p)) => parse_compact(s@, pos as int) == Some((n as nat, p as int)),
            None => parse_compact(s@, pos as int) is None,
        },
{
    if pos >= s.len() {
        return None;
    }
    let b = s[pos];
    let mode = b % 4;
    if mode == 0 {
        Some(((b / 4) as usize, pos + 1))
    } else if mode == 1 || mode == 2 {
        let width: usize = if mode == 1 {
            2
        } else {
            4
        };
        match read_le(s, pos, width) {
            Some((v, p)) => {
                proof {
                    lemma_le_value_bound(s@.subrange(pos as int, p as int));
                    lemma_pow256_values();
                }
                Some(((v / 4) as usize, p))
            },
            None => None,
        }
    } else {
        None
    }
}

proof fn lemma_first_byte(v: nat, n: nat)
    requires
        n > 0,
    ensures
        le_bytes(v, n)[0] == (v % 256) as u8,
{
}

/// A compact prefix is read back as the length it was written for.
pub proof fn lemma_compact_round_trip(s: Seq<u8>, pos: int, n: nat)
    requires
        n < MAX_COMPACT,
        0 <= pos,
        pos + enc_compact(n).len() <= s.len(),
        s.subrange(pos, pos + enc_compact(n).len()) == enc_compact(n),
    ensures
        enc_compact(n).len() >= 1,
        parse_compact(s, pos) == Some((n, pos + enc_compact(n).len())),
{
    lemma_pow256_values();
    let e = enc_compact(n);
    if n < 64 {
        lemma_le_round_trip(n * 4, 1);
        assert(e[0] == s[pos]);
        lemma_first_byte(n * 4, 1);
        assert((n * 4) % 256 == n * 4);
    } else if n < 0x4000 {
        let v = n * 4 + 1;
        lemma_le_round_trip(v, 2);
        assert(e[0] == s[pos]);
        lemma_first_byte(v, 2);
        assert((v % 256) % 4 == 1) by (nonlinear_arith)
            requires
                v == n * 4 + 1,
        ;
        assert(v / 4 == n);
    } else {
        let v = n * 4 + 2;
        lemma_le_round_trip(v, 4);
        assert(e[0] == s[pos]);
        lemma_first_byte(v, 4);
        assert((v % 256) % 4 == 2) by (nonlinear_arith)
            requires
                v == n * 4 + 2,
        ;
        assert(v / 4 == n);
    }
}


/// Relies on `String::from_utf8`: it succeeds exactly on valid UTF-8, and the
/// string then holds those bytes.
#[verifier::external_body]
fn string_from_utf8(bytes: Vec<u8>) -> (r: Option<String>)
    ensures
        r is Some <==> valid_utf8(bytes@),
        r is Some ==> encode_utf8(r->0@) == bytes@,
{
    match String::from_utf8(bytes) {
        Ok(s) => Some(s),
        Err(_) => None,
    }
}

/// A prefix of `s` from `p` is `e` when the rest of `s` from `p` is `e` then `r`.
proof fn lemma_split(s: Seq<u8>, p: int, e: Seq<u8>, r: Seq<u8>)
    requires
        0 <= p <= s.len(),
        s.subrange(p, s.len() as int) == e + r,
    ensures
        p + e.len() <= s.len(),
        s.subrange(p, p + e.len()) == e,
        s.subrange(p + e.len(), s.len() as int) == r,
{
    assert(s.subrange(p, p + e.len()) =~= (e + r).subrange(0, e.len() as int));
    assert(s.subrange(p + e.len(), s.len() as int) =~= (e + r).subrange(
        e.len() as int,
        (e + r).len() as int,
    ));
}

/// Bytes with their compact length in front.
pub open spec fn enc_bytes(b: Seq<u8>) -> Seq<u8> {
    enc_compact(b.len()) + b
}

pub open spec fn parse_bytes(s: Seq<u8>, pos: int) -> Option<(Seq<u8>, int)> {
    match parse_compact(s, pos) {
        Some((n, p)) => if p + n <= s.len() {
            Some((s.subrange(p, p + n), p + n))
        } else {
            None
        },
        None => None,
    }
}

pub fn write_bytes(out: &mut Vec<u8>, b: &[u8])
    requires
        b@.len() < MAX_COMPACT,
    ensures
        final(out)@ == old(out)@ + enc_bytes(b@),
{
    write_compact(out, b.len());
    let ghost start = out@;
    let mut i: usize = 0;
    while i < b.len()
        invariant
            i <= b@.len(),
            out@ == start + b@.subrange(0, i as int),
        decreases b@.len() - i,
    {
        out.push(b[i]);
        i = i + 1;
        assert(b@.subrange(0, i as int) == b@.subrange(0, i - 1 as int).push(b@[i - 1]));
    }
    assert(b@.subrange(0, b@.len() as int) == b@);
}

pub fn read_bytes(s: &[u8], pos: usize) -> (r: Option<(Vec<u8>, usize)>)
    ensures
        match r {
            Some((v, p)) => parse_bytes(s@, pos as int) == Some((v@, p as int)),
            None => parse_bytes(s@, pos as int) is None,
        },
{
    let (n, p) = match read_compact(s, pos) {
        Some(x) => x,
        None => return None,
    };
    if p > s.len() || n > s.len() - p {
        return None;
    }
    let end: usize = p + n;
    let mut v: Vec<u8> = Vec::new();
    let mut i: usize = 0;
    while i < n
        invariant
            i <= n,
            end == p + n,
            end <= s@.len(),
            v@ == s@.subrange(p as int, p + i),
        decreases n - i,
    {
        v.push(s[p + i]);
        i = i + 1;
        assert(s@.subrange(p as int, p + i) == s@.subrange(p as int, p + i - 1).push(
            s@[p + i - 1],
        ));
    }
    Some((v, p + n))
}

pub proof fn lemma_bytes_round_trip(s: Seq<u8>, pos: int, b: Seq<u8>)
    requires
        b.len() < MAX_COMPACT,
        0 <= pos,
        pos + enc_bytes(b).len() <= s.len(),
        s.subrange(pos, pos + enc_bytes(b).len()) == enc_bytes(b),
    ensures
        parse_bytes(s, pos) == Some((b, pos + enc_bytes(b).len())),
{
    let c = enc_compact(b.len());
    let e = enc_bytes(b);
    assert(s.subrange(pos, pos + c.len()) =~= e.subrange(0, c.len() as int));
    assert(e.subrange(0, c.len() as int) =~= c);
    lemma_compact_round_trip(s, pos, b.len());
    assert(s.subrange(pos + c.len(), pos + c.len() + b.len()) =~= e.subrange(
        c.len() as int,
        e.len() as int,
    ));
}

/// A string is written as its UTF-8 bytes.
pub open spec fn enc_string(c: Seq<char>) -> Seq<u8> {
    enc_bytes(encode_utf8(c))
}

pub open spec fn parse_string(s: Seq<u8>, pos: int) -> Option<(Seq<char>, int)> {
    match parse_bytes(s, pos) {
        Some((b, p)) => if valid_utf8(b) {
            Some((decode_utf8(b), p))
        } else {
            None
        },
        None => None,
    }
}

pub fn write_string(out: &mut Vec<u8>, text: &str)
    requires
        encode_utf8(text@).len() < MAX_COMPACT,
    ensures
        final(out)@ == old(out)@ + enc_string(text@),
{
    write_bytes(out, text.as_bytes());
}

pub fn read_string(s: &[u8], pos: usize) -> (r: Option<(String, usize)>)
    ensures
        match r {
            Some((v, p)) => parse_string(s@, pos as int) == Some((v@, p as int)),
            None => parse_string(s@, pos as int) is None,
        },
{
    let (b, p) = match read_bytes(s, pos) {
        Some(x) => x,
        None => return None,
    };
    let ghost bytes = b@;
    match string_from_utf8(b) {
        Some(text) => {
            proof {
                encode_utf8_decode_utf8(text@);
            }
            Some((text, p))
        },
        None => None,
    }
}

pub proof fn lemma_string_round_trip(s: Seq<u8>, pos: int, c: Seq<char>)
    requires
        encode_utf8(c).len() < MAX_COMPACT,
        0 <= pos,
        pos + enc_string(c).len() <= s.len(),
        s.subrange(pos, pos + enc_string(c).len()) == enc_string(c),
    ensures
        parse_string(s, pos) == Some((c, pos + enc_string(c).len())),
{
    lemma_bytes_round_trip(s, pos, encode_utf8(c));
    encode_utf8_valid_utf8(c);
    encode_utf8_decode_utf8(c);
}

/// An optional byte string: a zero byte, or a one byte and the bytes.
pub open spec fn enc_opt_bytes(o: Option<Seq<u8>>) -> Seq<u8> {
    match o {
        None => seq![0u8],
        Some(b) => seq![1u8] + enc_bytes(b),
    }
}

pub open spec fn parse_opt_bytes(s: Seq<u8>, pos: int) -> Option<(Option<Seq<u8>>, int)> {
    if 0 <= pos < s.len() {
        if s[pos] == 0 {
            Some((None, pos + 1))
        } else if s[pos] == 1 {
            match parse_bytes(s, pos + 1) {
                Some((b, p)) => Some((Some(b), p)),
                None => None,
            }
        } else {
            None
        }
    } else {
        None
    }
}

pub open spec fn opt_fits(o: Option<Seq<u8>>) -> bool {
    o is Some ==> o->0.len() < MAX_COMPACT
}

pub fn write_opt_bytes(out: &mut Vec<u8>, o: &Option<Vec<u8>>)
    requires
        o is Some ==> o->0@.len() < MAX_COMPACT,
    ensures
        final(out)@ == old(out)@ + enc_opt_bytes(crate::crypto::opt_bytes(*o)),
{
    match o {
        None => out.push(0),
        Some(b) => {
            out.push(1);
            let ghost mid = out@;
            write_bytes(out, b.as_slice());
            assert(out@ == mid + enc_bytes(b@));
        },
    }
}

pub fn read_opt_bytes(s: &[u8], pos: usize) -> (r: Option<(Option<Vec<u8>>, usize)>)
    ensures
        match r {
            Some((v, p)) => parse_opt_bytes(s@, pos as int) == Some(
                (crate::crypto::opt_bytes(v), p as int),
            ),
            None => parse_opt_bytes(s@, pos as int) is None,
        },
{
    if pos >= s.len() {
        return None;
    }
    if s[pos] == 0 {
        Some((None, pos + 1))
    } else if s[pos] == 1 {
        match read_bytes(s, pos + 1) {
            Some((b, p)) => Some((Some(b), p)),
            None => None,
        }
    } else {
        None
    }
}

pub proof fn lemma_opt_bytes_round_trip(s: Seq<u8>, pos: int, o: Option<Seq<u8>>)
    requires
        opt_fits(o),
        0 <= pos,
        pos + enc_opt_bytes(o).len() <= s.len(),
        s.subrange(pos, pos + enc_opt_bytes(o).len()) == enc_opt_bytes(o),
    ensures
        parse_opt_bytes(s, pos) == Some((o, pos + enc_opt_bytes(o).len())),
{
    let e = enc_opt_bytes(o);
    assert(s[pos] == e[0]);
    if let Some(b) = o {
        assert(s.subrange(pos + 1, pos + e.len()) =~= e.subrange(1, e.len() as int));
        assert(e.subrange(1, e.len() as int) =~= enc_bytes(b));
        lemma_bytes_round_trip(s, pos + 1, b);
    }
}

/// An optional 64-bit id: a zero byte, or a one byte and eight little-endian bytes.
pub open spec fn enc_opt_u64(o: Option<u64>) -> Seq<u8> {
    match o {
        None => seq![0u8],
        Some(v) => seq![1u8] + le_bytes(v as nat, 8),
    }
}

pub open spec fn parse_opt_u64(s: Seq<u8>, pos: int) -> Option<(Option<u64>, int)> {
    if 0 <= pos < s.len() {
        if s[pos] == 0 {
            Some((None, pos + 1))
        } else if s[pos] == 1 {
            match parse_le(s, pos + 1, 8) {
                Some((v, p)) => Some((Some(v as u64), p)),
                None => None,
            }
        } else {
            None
        }
    } else {
        None
    }
}

pub fn write_opt_u64(out: &mut Vec<u8>, o: Option<u64>)
    ensures
        final(out)@ == old(out)@ + enc_opt_u64(o),
{
    match o {
        None => out.push(0),
        Some(v) => {
            out.push(1);
            let ghost mid = out@;
            write_le(out, v as u128, 8);
            assert(out@ == mid + le_bytes(v as nat, 8));
        },
    }
}

pub fn read_opt_u64(s: &[u8], pos: usize) -> (r: Option<(Option<u64>, usize)>)
    ensures
        match r {
            Some((v, p)) => parse_opt_u64(s@, pos as int) == Some((v, p as int)),
            None => parse_opt_u64(s@, pos as int) is None,
        },
{
    if pos >= s.len() {
        return None;
    }
    if s[pos] == 0 {
        Some((None, pos + 1))
    } else if s[pos] == 1 {
        match read_le(s, pos + 1, 8) {
            Some((v, p)) => {
                proof {
                    lemma_le_value_bound(s@.subrange(pos + 1, p as int));
                    lemma_pow256_values();
                }
                Some((Some(v as u64), p))
            },
            None => None,
        }
    } else {
        None
    }
}

pub proof fn lemma_opt_u64_round_trip(s: Seq<u8>, pos: int, o: Option<u64>)
    requires
        0 <= pos,
        pos + enc_opt_u64(o).len() <= s.len(),
        s.subrange(pos, pos + enc_opt_u64(o).len()) == enc_opt_u64(o),
    ensures
        parse_opt_u64(s, pos) == Some((o, pos + enc_opt_u64(o).len())),
{
    let e = enc_opt_u64(o);
    assert(s[pos] == e[0]);
    if let Some(v) = o {
        lemma_pow256_values();
        lemma_le_round_trip(v as nat, 8);
        assert(s.subrange(pos + 1, pos + 9) =~= e.subrange(1, 9));
        assert(e.subrange(1, 9) =~= le_bytes(v as nat, 8));
    }
}


/// Abstract value of a status.
pub enum StatusView {
    Genesis,
    ReceiverConfirmation,
    RecvAddrConfirmed,
    RecvAddrFailed,
    NetConfirmed,
    SenderConfirmed,
    SenderConfirmationFailed,
    TxSubmissionPassed,
    TxSubmissionFailed(Seq<char>),
}

/// Abstract value of a transaction: what the codec preserves.
pub struct TxView {
    pub sender_address: Seq<char>,
    pub receiver_address: Seq<char>,
    pub multi_id: Seq<u8>,
    pub network: ChainSupported,
    pub amount: u128,
    pub call_payload: Option<Seq<u8>>,
    pub signed_call_payload: Option<Seq<u8>>,
    pub recv_signature: Option<Seq<u8>>,
    pub status: StatusView,
    pub inbound_req_id: Option<u64>,
    pub outbound_req_id: Option<u64>,
    pub tx_hash: Option<Seq<u8>>,
}

impl View for TxStatus {
    type V = StatusView;

    open spec fn view(&self) -> StatusView {
        match self {
            TxStatus::Genesis => StatusView::Genesis,
            TxStatus::ReceiverConfirmation => StatusView::ReceiverConfirmation,
            TxStatus::RecvAddrConfirmed => StatusView::RecvAddrConfirmed,
            TxStatus::RecvAddrFailed => StatusView::RecvAddrFailed,
            TxStatus::NetConfirmed => StatusView::NetConfirmed,
            TxStatus::SenderConfirmed => StatusView::SenderConfirmed,
            TxStatus::SenderConfirmationFailed => StatusView::SenderConfirmationFailed,
            TxStatus::TxSubmissionPassed => StatusView::TxSubmissionPassed,
            TxStatus::TxSubmissionFailed(c) => StatusView::TxSubmissionFailed(c@),
        }
    }
}

impl View for TxStateMachine {
    type V = TxView;

    open spec fn view(&self) -> TxView {
        TxView {
            sender_address: self.sender_address@,
            receiver_address: self.receiver_address@,
            multi_id: self.multi_id@,
            network: self.network,
            amount: self.amount,
            call_payload: crate::crypto::opt_bytes(self.call_payload),
            signed_call_payload: crate::crypto::opt_bytes(self.signed_call_payload),
            recv_signature: crate::crypto::opt_bytes(self.recv_signature),
            status: self.status@,
            inbound_req_id: self.inbound_req_id,
            outbound_req_id: self.outbound_req_id,
            tx_hash: crate::crypto::opt_bytes(self.tx_hash),
        }
    }
}

pub open spec fn network_tag(n: ChainSupported) -> u8 {
    match n {
        ChainSupported::Polkadot => 0,
        ChainSupported::Ethereum => 1,
        ChainSupported::Bnb => 2,
        ChainSupported::Solana => 3,
    }
}

pub open spec fn parse_network(s: Seq<u8>, pos: int) -> Option<(ChainSupported, int)> {
    if 0 <= pos < s.len() {
        if s[pos] == 0 {
            Some((ChainSupported::Polkadot, pos + 1))
        } else if s[pos] == 1 {
            Some((ChainSupported::Ethereum, pos + 1))
        } else if s[pos] == 2 {
            Some((ChainSupported::Bnb, pos + 1))
        } else if s[pos] == 3 {
            Some((ChainSupported::Solana, pos + 1))
        } else {
            None
        }
    } else {
        None
    }
}

/// A status is its index, followed by the cause for a failed broadcast.
pub open spec fn enc_status(st: StatusView) -> Seq<u8> {
    match st {
        StatusView::Genesis => seq![0u8],
        StatusView::ReceiverConfirmation => seq![1u8],
        StatusView::RecvAddrConfirmed => seq![2u8],
        StatusView::RecvAddrFailed => seq![3u8],
        StatusView::NetConfirmed => seq![4u8],
        StatusView::SenderConfirmed => seq![5u8],
        StatusView::SenderConfirmationFailed => seq![6u8],
        StatusView::TxSubmissionPassed => seq![7u8],
        StatusView::TxSubmissionFailed(c) => seq![8u8] + enc_string(c),
    }
}

pub open spec fn status_of_index(t: u8) -> StatusView {
    if t == 0 {
        StatusView::Genesis
    } else if t == 1 {
        StatusView::ReceiverConfirmation
    } else if t == 2 {
        StatusView::RecvAddrConfirmed
    } else if t == 3 {
        StatusView::RecvAddrFailed
    } else if t == 4 {
        StatusView::NetConfirmed
    } else if t == 5 {
        StatusView::SenderConfirmed
    } else if t == 6 {
        StatusView::SenderConfirmationFailed
    } else {
        StatusView::TxSubmissionPassed
    }
}

pub open spec fn parse_status(s: Seq<u8>, pos: int) -> Option<(StatusView, int)> {
    if 0 <= pos < s.len() {
        if s[pos] < 8 {
            Some((status_of_index(s[pos]), pos + 1))
        } else if s[pos] == 8 {
            match parse_string(s, pos + 1) {
                Some((c, p)) => Some((StatusView::TxSubmissionFailed(c), p)),
                None => None,
            }
        } else {
            None
        }
    } else {
        None
    }
}

/// The canonical bytes of a transaction: its fields in declaration order.
pub open spec fn enc_tx(v: TxView) -> Seq<u8> {
    enc_string(v.sender_address) + enc_string(v.receiver_address) + enc_bytes(v.multi_id)
        + seq![network_tag(v.network)] + le_bytes(v.amount as nat, 16) + enc_opt_bytes(
        v.call_payload,
    ) + enc_opt_bytes(v.signed_call_payload) + enc_opt_bytes(v.recv_signature) + enc_status(
        v.status,
    ) + enc_opt_u64(v.inbound_req_id) + enc_opt_u64(v.outbound_req_id) + enc_opt_bytes(v.tx_hash)
}

/// Every length in the transaction fits a compact prefix.
pub open spec fn encodable(v: TxView) -> bool {
    &&& encode_utf8(v.sender_address).len() < MAX_COMPACT
    &&& encode_utf8(v.receiver_address).len() < MAX_COMPACT
    &&& v.multi_id.len() < MAX_COMPACT
    &&& opt_fits(v.call_payload)
    &&& opt_fits(v.signed_call_payload)
    &&& opt_fits(v.recv_signature)
    &&& opt_fits(v.tx_hash)
    &&& (v.status matches StatusView::TxSubmissionFailed(c) ==> encode_utf8(c).len()
        < MAX_COMPACT)
}

/// The transaction at the front of `s`; bytes after it are left unread.
pub open spec fn parse_tx(s: Seq<u8>) -> Option<TxView> {
    match parse_string(s, 0) {
        None => None,
        Some((sender, p1)) => match parse_string(s, p1) {
            None => None,
            Some((receiver, p2)) => match parse_bytes(s, p2) {
                None => None,
                Some((multi_id, p3)) => match parse_network(s, p3) {
                    None => None,
                    Some((network, p4)) => match parse_le(s, p4, 16) {
                        None => None,
                        Some((amount, p5)) => match parse_opt_bytes(s, p5) {
                            None => None,
                            Some((call, p6)) => match parse_opt_bytes(s, p6) {
                                None => None,
                                Some((signed, p7)) => match parse_opt_bytes(s, p7) {
                                    None => None,
                                    Some((recv_sig, p8)) => match parse_status(s, p8) {
                                        None => None,
                                        Some((status, p9)) => match parse_opt_u64(s, p9) {
                                            None => None,
                                            Some((inbound, p10)) => match parse_opt_u64(s, p10) {
                                                None => None,
                                                Some((outbound, p11)) => match parse_opt_bytes(
                                                    s,
                                                    p11,
                                                ) {
                                                    None => None,
                                                    Some((hash, _)) => Some(
                                                        TxView {
                                                            sender_address: sender,
                                                            receiver_address: receiver,
                                                            multi_id,
                                                            network,
                                                            amount: amount as u128,
                                                            call_payload: call,
                                                            signed_call_payload: signed,
                                                            recv_signature: recv_sig,
                                                            status,
                                                            inbound_req_id: inbound,
                                                            outbound_req_id: outbound,
                                                            tx_hash: hash,
                                                        },
                                                    ),
                                                },
                                            },
                                        },
                                    },
                                },
                            },
                        },
                    },
                },
            },
        },
    }
}

fn write_status(out: &mut Vec<u8>, st: &TxStatus)
    requires
        st matches TxStatus::TxSubmissionFailed(c) ==> encode_utf8(c@).len() < MAX_COMPACT,
    ensures
        final(out)@ == old(out)@ + enc_status(st@),
{
    match st {
        TxStatus::Genesis => out.push(0),
        TxStatus::ReceiverConfirmation => out.push(1),
        TxStatus::RecvAddrConfirmed => out.push(2),
        TxStatus::RecvAddrFailed => out.push(3),
        TxStatus::NetConfirmed => out.push(4),
        TxStatus::SenderConfirmed => out.push(5),
        TxStatus::SenderConfirmationFailed => out.push(6),
        TxStatus::TxSubmissionPassed => out.push(7),
        TxStatus::TxSubmissionFailed(c) => {
            out.push(8);
            let ghost mid = out@;
            write_string(out, c.as_str());
            assert(out@ == mid + enc_string(c@));
        },
    }
}

fn read_status(s: &[u8], pos: usize) -> (r: Option<(TxStatus, usize)>)
    ensures
        match r {
            Some((v, p)) => parse_status(s@, pos as int) == Some((v@, p as int)),
            None => parse_status(s@, pos as int) is None,
        },
{
    if pos >= s.len() {
        return None;
    }
    let t = s[pos];
    let st = if t == 0 {
        TxStatus::Genesis
    } else if t == 1 {
        TxStatus::ReceiverConfirmation
    } else if t == 2 {
        TxStatus::RecvAddrConfirmed
    } else if t == 3 {
        TxStatus::RecvAddrFailed
    } else if t == 4 {
        TxStatus::NetConfirmed
    } else if t == 5 {
        TxStatus::SenderConfirmed
    } else if t == 6 {
        TxStatus::SenderConfirmationFailed
    } else if t == 7 {
        TxStatus::TxSubmissionPassed
    } else if t == 8 {
        return match read_string(s, pos + 1) {
            Some((c, p)) => Some((TxStatus::TxSubmissionFailed(c), p)),
            None => None,
        };
    } else {
        return None;
    };
    Some((st, pos + 1))
}

fn read_network(s: &[u8], pos: usize) -> (r: Option<(ChainSupported, usize)>)
    ensures
        match r {
            Some((v, p)) => parse_network(s@, pos as int) == Some((v, p as int)),
            None => parse_network(s@, pos as int) is None,
        },
{
    if pos >= s.len() {
        return None;
    }
    let t = s[pos];
    if t == 0 {
        Some((ChainSupported::Polkadot, pos + 1))
    } else if t == 1 {
        Some((ChainSupported::Ethereum, pos + 1))
    } else if t == 2 {
        Some((ChainSupported::Bnb, pos + 1))
    } else if t == 3 {
        Some((ChainSupported::Solana, pos + 1))
    } else {
        None
    }
}

/// Encodes a transaction into its canonical bytes.
pub fn encode(tx: &TxStateMachine) -> (r: Vec<u8>)
    requires
        encodable(tx@),
    ensures
        r@ == enc_tx(tx@),
{
    let mut out: Vec<u8> = Vec::new();
    write_string(&mut out, tx.sender_address.as_str());
    assert(out@ =~= enc_string(tx.sender_address@));
    write_string(&mut out, tx.receiver_address.as_str());
    write_bytes(&mut out, tx.multi_id.as_slice());
    let tag: u8 = match tx.network {
        ChainSupported::Polkadot => 0,
        ChainSupported::Ethereum => 1,
        ChainSupported::Bnb => 2,
        ChainSupported::Solana => 3,
    };
    out.push(tag);
    write_le(&mut out, tx.amount, 16);
    write_opt_bytes(&mut out, &tx.call_payload);
    write_opt_bytes(&mut out, &tx.signed_call_payload);
    write_opt_bytes(&mut out, &tx.recv_signature);
    write_status(&mut out, &tx.status);
    write_opt_u64(&mut out, tx.inbound_req_id);
    write_opt_u64(&mut out, tx.outbound_req_id);
    write_opt_bytes(&mut out, &tx.tx_hash);
    out
}

/// Decodes the transaction at the front of `bytes`; `None` when they are malformed.
pub fn decode(bytes: &[u8]) -> (r: Option<TxStateMachine>)
    ensures
        match r {
            Some(t) => parse_tx(bytes@) == Some(t@),
            None => parse_tx(bytes@) is None,
        },
{
    let (sender_address, p) = read_string(bytes, 0)?;
    let (receiver_address, p) = read_string(bytes, p)?;
    let (multi_id, p) = read_bytes(bytes, p)?;
    let (network, p) = read_network(bytes, p)?;
    let (amount, p) = read_le(bytes, p, 16)?;
    let (call_payload, p) = read_opt_bytes(bytes, p)?;
    let (signed_call_payload, p) = read_opt_bytes(bytes, p)?;
    let (recv_signature, p) = read_opt_bytes(bytes, p)?;
    let (status, p) = read_status(bytes, p)?;
    let (inbound_req_id, p) = read_opt_u64(bytes, p)?;
    let (outbound_req_id, p) = read_opt_u64(bytes, p)?;
    let (tx_hash, _) = read_opt_bytes(bytes, p)?;
    Some(
        TxStateMachine {
            sender_address,
            receiver_address,
            multi_id,
            network,
            amount,
            call_payload,
            signed_call_payload,
            recv_signature,
            status,
            inbound_req_id,
            outbound_req_id,
            tx_hash,
        },
    )
}


proof fn lemma_status_round_trip(s: Seq<u8>, pos: int, st: StatusView)
    requires
        st matches StatusView::TxSubmissionFailed(c) ==> encode_utf8(c).len() < MAX_COMPACT,
        0 <= pos,
        pos + enc_status(st).len() <= s.len(),
        s.subrange(pos, pos + enc_status(st).len()) == enc_status(st),
    ensures
        parse_status(s, pos) == Some((st, pos + enc_status(st).len())),
{
    let e = enc_status(st);
    assert(s[pos] == e[0]);
    if let StatusView::TxSubmissionFailed(c) = st {
        assert(s.subrange(pos + 1, pos + e.len()) =~= e.subrange(1, e.len() as int));
        assert(e.subrange(1, e.len() as int) =~= enc_string(c));
        lemma_string_round_trip(s, pos + 1, c);
    }
}

/// Splits a known prefix `a + e` of `s` into its two parts.
proof fn lemma_prefix_split(s: Seq<u8>, a: Seq<u8>, e: Seq<u8>)
    requires
        a.len() + e.len() <= s.len(),
        s.subrange(0, (a.len() + e.len()) as int) == a + e,
    ensures
        s.subrange(0, a.len() as int) == a,
        s.subrange(a.len() as int, (a.len() + e.len()) as int) == e,
{
    assert(s.subrange(0, a.len() as int) =~= (a + e).subrange(0, a.len() as int));
    assert(s.subrange(a.len() as int, (a.len() + e.len()) as int) =~= (a + e).subrange(
        a.len() as int,
        (a.len() + e.len()) as int,
    ));
}

/// Decoding the canonical bytes of a transaction gives the transaction back.
pub proof fn lemma_round_trip(v: TxView)
    requires
        encodable(v),
    ensures
        parse_tx(enc_tx(v)) == Some(v),
{
    let s = enc_tx(v);
    let e1 = enc_string(v.sender_address);
    let e2 = enc_string(v.receiver_address);
    let e3 = enc_bytes(v.multi_id);
    let e4 = seq![network_tag(v.network)];
    let e5 = le_bytes(v.amount as nat, 16);
    let e6 = enc_opt_bytes(v.call_payload);
    let e7 = enc_opt_bytes(v.signed_call_payload);
    let e8 = enc_opt_bytes(v.recv_signature);
    let e9 = enc_status(v.status);
    let e10 = enc_opt_u64(v.inbound_req_id);
    let e11 = enc_opt_u64(v.outbound_req_id);
    let e12 = enc_opt_bytes(v.tx_hash);
    let p1 = e1;
    let p2 = p1 + e2;
    let p3 = p2 + e3;
    let p4 = p3 + e4;
    let p5 = p4 + e5;
    let p6 = p5 + e6;
    let p7 = p6 + e7;
    let p8 = p7 + e8;
    let p9 = p8 + e9;
    let p10 = p9 + e10;
    let p11 = p10 + e11;
    assert(s == p11 + e12);
    assert(s.subrange(0, s.len() as int) == s);
    lemma_prefix_split(s, p11, e12);
    lemma_prefix_split(s, p10, e11);
    lemma_prefix_split(s, p9, e10);
    lemma_prefix_split(s, p8, e9);
    lemma_prefix_split(s, p7, e8);
    lemma_prefix_split(s, p6, e7);
    lemma_prefix_split(s, p5, e6);
    lemma_prefix_split(s, p4, e5);
    lemma_prefix_split(s, p3, e4);
    lemma_prefix_split(s, p2, e3);
    lemma_prefix_split(s, p1, e2);
    lemma_prefix_split(s, Seq::<u8>::empty(), e1);
    assert(Seq::<u8>::empty() + e1 == e1);
    lemma_string_round_trip(s, 0, v.sender_address);
    lemma_string_round_trip(s, p1.len() as int, v.receiver_address);
    lemma_bytes_round_trip(s, p2.len() as int, v.multi_id);
    assert(s[p3.len() as int] == e4[0]);
    lemma_pow256_values();
    lemma_le_round_trip(v.amount as nat, 16);
    lemma_opt_bytes_round_trip(s, p5.len() as int, v.call_payload);
    lemma_opt_bytes_round_trip(s, p6.len() as int, v.signed_call_payload);
    lemma_opt_bytes_round_trip(s, p7.len() as int, v.recv_signature);
    lemma_status_round_trip(s, p8.len() as int, v.status);
    lemma_opt_u64_round_trip(s, p9.len() as int, v.inbound_req_id);
    lemma_opt_u64_round_trip(s, p10.len() as int, v.outbound_req_id);
    lemma_opt_bytes_round_trip(s, p11.len() as int, v.tx_hash);
}

} // verus!
