//! Erasure-coded redundancy over checkpoints. A blob is framed with its
//! length, split into `data_shards` equal pieces and expanded with
//! `parity_shards` Reed–Solomon parity pieces, so any `parity_shards` of the
//! shards may be lost and the exact blob still recovers.

use vstd::prelude::*;
use crate::error::Error;
use crate::text::{decimal_string, join, join3};
use vstd::bytes::{spec_u64_from_le_bytes, spec_u64_to_le_bytes, u64_from_le_bytes, u64_to_le_bytes};
use vstd::slice::{slice_subrange, slice_to_vec};

verus! {

/// The Reed–Solomon codec over GF(2^8), held opaquely: the contracts speak
/// of it only through the shard counts kept beside it in `Codec`.
#[verifier::external_body]
struct RsCodec {
    rs: reed_solomon_erasure::galois_8::ReedSolomon,
}

/// A Reed–Solomon codec over GF(2^8) together with its shard counts.
pub struct Codec {
    rs: RsCodec,
    data_shards: usize,
    parity_shards: usize,
}

impl Codec {
    pub closed spec fn data_count(&self) -> nat {
        self.data_shards as nat
    }

    pub closed spec fn parity_count(&self) -> nat {
        self.parity_shards as nat
    }
}

/// `ReedSolomon::new(data_shards, parity_shards)` over GF(2^8). Claims, as
/// the crate documents: refused when either count is zero or the total
/// exceeds the field order 256; otherwise a codec with those counts.
#[verifier::external_body]
fn codec_new(data_shards: usize, parity_shards: usize) -> (r: Result<Codec, String>)
    requires
        data_shards + parity_shards <= usize::MAX,
    ensures
        r is Ok <==> (data_shards > 0 && parity_shards > 0 && data_shards + parity_shards <= 256),
        r matches Ok(c) ==> c.data_count() == data_shards && c.parity_count() == parity_shards,
{
    match reed_solomon_erasure::galois_8::ReedSolomon::new(data_shards, parity_shards) {
        Ok(rs) => Ok(Codec { rs: RsCodec { rs }, data_shards, parity_shards }),
        Err(e) => Err(e.to_string()),
    }
}

/// The parity shards Reed–Solomon computes for the given data shards.
pub uninterp spec fn rs_parity(data_shards: nat, parity_shards: nat, data: Seq<Seq<u8>>) -> Seq<Seq<u8>>;

/// The full codeword: the data shards followed by their parity.
pub open spec fn codeword(d: nat, p: nat, data: Seq<Seq<u8>>) -> Seq<Seq<u8>> {
    data + rs_parity(d, p, data)
}

pub open spec fn views(v: Seq<Vec<u8>>) -> Seq<Seq<u8>> {
    v.map_values(|s: Vec<u8>| s@)
}

pub open spec fn opt_views(v: Seq<Option<Vec<u8>>>) -> Seq<Option<Seq<u8>>> {
    v.map_values(|s: Option<Vec<u8>>| match s { Some(x) => Some(x@), None => None })
}

/// All shards have the same, positive length `len`.
pub open spec fn uniform(s: Seq<Seq<u8>>, len: nat) -> bool {
    len > 0 && forall|i: int| 0 <= i < s.len() ==> (#[trigger] s[i]).len() == len
}

/// `ReedSolomon::encode`: overwrites the parity slots. Claims: with the
/// right number of equal, non-empty shards it succeeds, leaves the data
/// shards alone and fills the parity slots with the parity of the data.
#[verifier::external_body]
fn codec_encode(codec: &Codec, shards: &mut Vec<Vec<u8>>) -> (r: Result<(), String>)
    requires
        old(shards)@.len() == codec.data_count() + codec.parity_count(),
        uniform(views(old(shards)@), old(shards)@[0]@.len()),
    ensures
        r is Ok,
        final(shards)@.len() == old(shards)@.len(),
        views(final(shards)@) == views(old(shards)@).take(codec.data_count() as int) + rs_parity(
            codec.data_count(),
            codec.parity_count(),
            views(old(shards)@).take(codec.data_count() as int),
        ),
        uniform(views(final(shards)@), old(shards)@[0]@.len()),
{
    codec.rs.rs.encode(shards.as_mut_slice()).map_err(|e| e.to_string())
}

/// How many shards are present.
pub open spec fn present_count(s: Seq<Option<Seq<u8>>>) -> nat
    decreases s.len(),
{
    if s.len() == 0 {
        0
    } else {
        present_count(s.drop_last()) + if s.last() is Some { 1nat } else { 0nat }
    }
}

/// Every present shard is non-empty and they all have the same length.
pub open spec fn present_uniform(s: Seq<Option<Seq<u8>>>) -> bool {
    forall|i: int, j: int|
        0 <= i < s.len() && 0 <= j < s.len() && #[trigger] s[i] is Some && #[trigger] s[j] is Some
            ==> s[i].unwrap().len() > 0 && s[i].unwrap().len() == s[j].unwrap().len()
}

/// The present shards agree with the codeword `cw`.
pub open spec fn agrees(s: Seq<Option<Seq<u8>>>, cw: Seq<Seq<u8>>) -> bool {
    s.len() == cw.len() && forall|i: int| 0 <= i < s.len() && (#[trigger] s[i]) is Some ==> s[i].unwrap() == cw[i]
}

/// Every candidate data shard has the length of the present shards.
pub open spec fn shaped(data: Seq<Seq<u8>>, s: Seq<Option<Seq<u8>>>) -> bool {
    forall|i: int, j: int|
        0 <= i < data.len() && 0 <= j < s.len() && #[trigger] s[j] is Some ==> (#[trigger] data[i]).len()
            == s[j].unwrap().len()
}

/// The shards Reed–Solomon reconstruction gives from the present ones: the
/// present shards with every missing one filled in.
pub uninterp spec fn rs_reconstruct(data_shards: nat, parity_shards: nat, present: Seq<Option<Seq<u8>>>) -> Seq<Seq<u8>>;

/// Every shard present, as `full` gives them.
pub open spec fn all_present(full: Seq<Seq<u8>>) -> Seq<Option<Seq<u8>>> {
    full.map_values(|x: Seq<u8>| Some(x))
}

/// `ReedSolomon::reconstruct`: fills the missing shards. Claims, as the
/// crate documents: it fails (touching nothing) iff a present shard is
/// empty, present shards differ in length, or fewer than `data_shards` are
/// present; on success every shard is present, the present ones unchanged,
/// all of one length; and when the present shards agree with a codeword of
/// some data of the right shape (the erasure-code guarantee), the data
/// shards are recovered. What it fills in is the named reconstruction of
/// the present shards (a deterministic computation over them).
#[verifier::external_body]
fn codec_reconstruct(codec: &Codec, shards: &mut Vec<Option<Vec<u8>>>) -> (r: Result<(), String>)
    requires
        old(shards)@.len() == codec.data_count() + codec.parity_count(),
    ensures
        final(shards)@.len() == old(shards)@.len(),
        r is Ok <==> (present_uniform(opt_views(old(shards)@)) && present_count(opt_views(old(shards)@))
            >= codec.data_count()),
        r is Err ==> final(shards)@ == old(shards)@,
        r is Ok ==> opt_views(final(shards)@) == all_present(
            rs_reconstruct(codec.data_count(), codec.parity_count(), opt_views(old(shards)@)),
        ),
        r is Ok ==> forall|i: int| 0 <= i < final(shards)@.len() ==> (#[trigger] final(shards)@[i]) is Some,
        r is Ok ==> forall|i: int| 0 <= i < old(shards)@.len() && (#[trigger] old(shards)@[i]) is Some
            ==> final(shards)@[i] == old(shards)@[i],
        r is Ok ==> forall|data: Seq<Seq<u8>>|
            data.len() == codec.data_count() && shaped(data, opt_views(old(shards)@)) && agrees(
                opt_views(old(shards)@),
                #[trigger] codeword(codec.data_count(), codec.parity_count(), data),
            ) ==> forall|i: int| 0 <= i < codec.data_count() ==> opt_views(final(shards)@)[i] == Some(data[i]),
{
    codec.rs.rs.reconstruct(shards.as_mut_slice()).map_err(|e| e.to_string())
}


// ---- framing ------------------------------------------------------------

/// The framed blob: its length as 8 little-endian bytes, then the blob.
pub open spec fn frame(data: Seq<u8>) -> Seq<u8> {
    spec_u64_to_le_bytes(data.len() as u64) + data
}

/// The length of every shard for a blob of `n` bytes split `d` ways: the
/// framed length divided by `d`, rounded up.
pub open spec fn piece_len(n: nat, d: nat) -> nat {
    ((n + 8 + d - 1) / (d as int)) as nat
}

/// The framed blob, zero-padded to exactly `d` pieces.
pub open spec fn padded(data: Seq<u8>, d: nat) -> Seq<u8> {
    frame(data) + Seq::new((piece_len(data.len(), d) * d - (data.len() + 8)) as nat, |i: int| 0u8)
}

/// `s` cut into `k` consecutive pieces of `sz` bytes.
pub open spec fn chunks(s: Seq<u8>, sz: nat, k: nat) -> Seq<Seq<u8>> {
    Seq::new(k, |i: int| s.subrange(i * sz, (i + 1) * sz))
}

/// The data shards of a blob.
pub open spec fn data_pieces(data: Seq<u8>, d: nat) -> Seq<Seq<u8>> {
    chunks(padded(data, d), piece_len(data.len(), d), d)
}

/// Undo the framing: read the length prefix and take that many bytes.
pub open spec fn unframe(buf: Seq<u8>) -> Option<Seq<u8>> {
    if buf.len() < 8 {
        None
    } else {
        let len = spec_u64_from_le_bytes(buf.take(8));
        if buf.len() < 8 + len {
            None
        } else {
            Some(buf.subrange(8, 8 + len))
        }
    }
}

/// Blank shards stand for lost ones.
pub open spec fn present_of(s: Seq<Seq<u8>>) -> Seq<Option<Seq<u8>>> {
    s.map_values(|x: Seq<u8>| if x.len() == 0 { None } else { Some(x) })
}

/// `s` is `cw` with some shards lost (blanked).
pub open spec fn erased_from(s: Seq<Seq<u8>>, cw: Seq<Seq<u8>>) -> bool {
    s.len() == cw.len() && forall|i: int| 0 <= i < s.len() ==> (#[trigger] s[i]).len() == 0 || s[i] == cw[i]
}

proof fn lemma_chunks_flatten(s: Seq<u8>, sz: nat, k: nat)
    requires
        k * sz <= s.len(),
    ensures
        chunks(s, sz, k).flatten() == s.take((k * sz) as int),
    decreases k,
{
    if k == 0 {
        assert(chunks(s, sz, 0) =~= Seq::<Seq<u8>>::empty());
        assert(s.take(0) =~= Seq::<u8>::empty());
    } else {
        let j = (k - 1) as nat;
        assert(j * sz + sz == k * sz) by (nonlinear_arith)
            requires
                j == k - 1,
        ;
        assert(j * sz <= s.len());
        lemma_chunks_flatten(s, sz, j);
        assert(chunks(s, sz, k) =~= chunks(s, sz, j).push(s.subrange((j * sz) as int, ((j + 1) * sz) as int)));
        chunks(s, sz, j).lemma_flatten_push(s.subrange((j * sz) as int, ((j + 1) * sz) as int));
        assert(s.take((j * sz) as int) + s.subrange((j * sz) as int, ((j + 1) * sz) as int) =~= s.take((k * sz) as int));
    }
}

proof fn lemma_piece_len(n: nat, d: nat)
    requires
        d > 0,
    ensures
        piece_len(n, d) > 0,
        piece_len(n, d) * d >= n + 8,
        piece_len(n, d) * d <= n + 8 + d - 1,
{
    let m = (n + 8 + d - 1) as int;
    let q = m / (d as int);
    vstd::arithmetic::div_mod::lemma_fundamental_div_mod(m, d as int);
    vstd::arithmetic::div_mod::lemma_mod_bound(m, d as int);
    assert(q * d == d * q) by (nonlinear_arith);
    if q <= 0 {
        assert(d * q <= 0) by (nonlinear_arith)
            requires
                q <= 0,
                d > 0,
        ;
    }
}

/// The shards of a blob, concatenated, unframe back to exactly the blob.
pub proof fn lemma_pieces_unframe(data: Seq<u8>, d: nat)
    requires
        d > 0,
        data.len() <= u64::MAX,
    ensures
        data_pieces(data, d).len() == d,
        forall|i: int| 0 <= i < d ==> (#[trigger] data_pieces(data, d)[i]).len() == piece_len(data.len(), d),
        unframe(data_pieces(data, d).flatten()) == Some(data),
{
    lemma_piece_len(data.len(), d);
    vstd::bytes::lemma_auto_spec_u64_to_from_le_bytes();
    let sz = piece_len(data.len(), d);
    let p = padded(data, d);
    assert(p.len() == sz * d);
    assert(d * sz == sz * d) by (nonlinear_arith);
    assert forall|i: int| 0 <= i < d implies (#[trigger] data_pieces(data, d)[i]).len() == sz by {
        assert((i + 1) * sz <= d * sz && i * sz >= 0 && (i + 1) * sz == i * sz + sz) by (nonlinear_arith)
            requires
                0 <= i < d,
        ;
    }
    lemma_chunks_flatten(p, sz, d);
    assert(p.take((d * sz) as int) =~= p);
    vstd::bytes::lemma_auto_spec_u64_to_from_le_bytes();
    let f = data_pieces(data, d).flatten();
    assert(f.take(8) =~= spec_u64_to_le_bytes(data.len() as u64));
    assert(f.subrange(8, 8 + data.len() as int) =~= data);
}

fn copy_vec(v: &Vec<u8>) -> (r: Vec<u8>)
    ensures
        r@ == v@,
{
    slice_to_vec(v.as_slice())
}

/// Split `data` into erasure-coded shards: `data_shards + parity_shards`
/// shards of equal length, the first `data_shards` holding the framed,
/// zero-padded blob and the rest its parity.
pub fn encode_shards(data: &[u8], data_shards: usize, parity_shards: usize) -> (r: Result<Vec<Vec<u8>>, Error>)
    requires
        data@.len() + 300 <= usize::MAX,
        data_shards + parity_shards <= usize::MAX,
    ensures
        data_shards == 0 ==> (r matches Err(Error::Invalid(m)) && m@ == "need at least one data shard"@),
        data_shards > 0 && parity_shards == 0 ==> (r matches Err(Error::Invalid(m))
            && m@ == "need at least one parity shard"@),
        data_shards > 0 && parity_shards > 0 && data_shards + parity_shards > 256 ==> r matches Err(
            Error::Replication(_),
        ),
        data_shards > 0 && parity_shards > 0 && data_shards + parity_shards <= 256 ==> (r matches Ok(v)
            && v@.len() == data_shards + parity_shards
            && views(v@) == codeword(data_shards as nat, parity_shards as nat, data_pieces(data@, data_shards as nat))
            && uniform(views(v@), piece_len(data@.len(), data_shards as nat))),
{
    if data_shards == 0 {
        return Err(Error::Invalid(String::from_str("need at least one data shard")));
    }
    if parity_shards == 0 {
        return Err(Error::Invalid(String::from_str("need at least one parity shard")));
    }
    let codec = match codec_new(data_shards, parity_shards) {
        Ok(c) => c,
        Err(m) => return Err(Error::Replication(m)),
    };
    let ghost d = data_shards as nat;
    let n = data.len();
    let mut buf = u64_to_le_bytes(n as u64);
    let mut i: usize = 0;
    while i < n
        invariant
            n == data@.len(),
            i <= n,
            buf@ == spec_u64_to_le_bytes(n as u64) + data@.take(i as int),
        decreases n - i,
    {
        buf.push(data[i]);
        proof {
            assert(data@.take(i + 1) =~= data@.take(i as int).push(data@[i as int]));
        }
        i = i + 1;
    }
    proof {
        assert(data@.take(n as int) =~= data@);
        vstd::bytes::lemma_auto_spec_u64_to_from_le_bytes();
        lemma_piece_len(n as nat, d);
    }
    let m = n + 8;
    let sz0 = (m + data_shards - 1) / data_shards;
    let sz = if sz0 == 0 { 1 } else { sz0 };
    assert(sz == piece_len(n as nat, d));
    let ghost target = sz * d;
    assert(sz * data_shards <= m + data_shards - 1);
    let full = sz * data_shards;
    while buf.len() < full
        invariant
            full == piece_len(n as nat, d) * d,
            full >= m,
            m == n + 8,
            m <= buf@.len() <= full,
            buf@ == frame(data@) + Seq::new((buf@.len() - m) as nat, |k: int| 0u8),
        decreases full - buf@.len(),
    {
        let ghost before = buf@;
        buf.push(0u8);
        proof {
            assert(buf@ =~= frame(data@) + Seq::new((buf@.len() - m) as nat, |k: int| 0u8));
        }
    }
    assert(buf@ =~= padded(data@, d));
    let blen = buf.len();
    let mut shards: Vec<Vec<u8>> = Vec::new();
    let mut j: usize = 0;
    while j < data_shards
        invariant
            j <= data_shards,
            data_shards > 0,
            d == data_shards,
            sz == piece_len(n as nat, d),
            sz > 0,
            buf@ == padded(data@, d),
            buf@.len() == sz * d,
            blen == buf@.len(),
            n == data@.len(),
            shards@.len() == j,
            forall|k: int| 0 <= k < j ==> (#[trigger] shards@[k])@ == data_pieces(data@, d)[k],
        decreases data_shards - j,
    {
        assert((j + 1) * sz <= sz * d && (j + 1) * sz == j * sz + sz) by (nonlinear_arith)
            requires
                j < d,
                sz > 0,
        ;
        assert(j * sz + sz <= blen);
        let lo = j * sz;
        let hi = lo + sz;
        let piece = slice_to_vec(slice_subrange(buf.as_slice(), lo, hi));
        assert(data_pieces(data@, d)[j as int] == buf@.subrange(lo as int, hi as int));
        shards.push(piece);
        j = j + 1;
    }
    proof {
        lemma_pieces_unframe(data@, d);
    }
    let mut k: usize = 0;
    while k < parity_shards
        invariant
            k <= parity_shards,
            sz > 0,
            d == data_shards,
            shards@.len() == data_shards + k,
            forall|t: int| 0 <= t < data_shards ==> (#[trigger] shards@[t])@ == data_pieces(data@, d)[t],
            forall|t: int| 0 <= t < shards@.len() ==> (#[trigger] shards@[t])@.len() == sz,
            forall|t: int| 0 <= t < data_shards ==> (#[trigger] data_pieces(data@, d)[t]).len() == sz,
        decreases parity_shards - k,
    {
        let mut z: Vec<u8> = Vec::new();
        let mut t: usize = 0;
        while t < sz
            invariant
                t <= sz,
                z@.len() == t,
            decreases sz - t,
        {
            z.push(0u8);
            t = t + 1;
        }
        shards.push(z);
        k = k + 1;
    }
    proof {
        lemma_pieces_unframe(data@, d);
        assert(views(shards@).take(d as int) =~= data_pieces(data@, d));
        assert(uniform(views(shards@), shards@[0]@.len()));
    }
    match codec_encode(&codec, &mut shards) {
        Ok(()) => {},
        Err(m) => return Err(Error::Replication(m)),
    }
    Ok(shards)
}


fn append_bytes(buf: &mut Vec<u8>, s: &[u8])
    ensures
        final(buf)@ == old(buf)@ + s@,
{
    let mut i: usize = 0;
    while i < s.len()
        invariant
            i <= s@.len(),
            buf@ == old(buf)@ + s@.take(i as int),
        decreases s@.len() - i,
    {
        buf.push(s[i]);
        proof {
            assert(s@.take(i + 1) =~= s@.take(i as int).push(s@[i as int]));
        }
        i = i + 1;
    }
    assert(s@.take(s@.len() as int) =~= s@);
}

/// The framing read back from a concatenation of data shards.
fn unframe_exec(buf: &Vec<u8>) -> (r: Result<Vec<u8>, Error>)
    ensures
        match unframe(buf@) {
            Some(x) => r matches Ok(v) && v@ == x,
            None => r matches Err(Error::Invalid(_)),
        },
{
    if buf.len() < 8 {
        return Err(Error::Invalid(String::from_str("decoded data missing length prefix")));
    }
    let head = slice_subrange(buf.as_slice(), 0, 8);
    assert(head@ == buf@.take(8));
    let len64 = u64_from_le_bytes(head);
    let avail = buf.len() - 8;
    if len64 > avail as u64 {
        return Err(Error::Invalid(String::from_str("decoded length exceeds available data")));
    }
    let len = len64 as usize;
    Ok(slice_to_vec(slice_subrange(buf.as_slice(), 8, 8 + len)))
}

/// Recover a blob from a (possibly partial) set of shards; lost shards are
/// given as empty vectors and reconstructed. When the present shards agree
/// with the codeword of some data of the right shape, and at least
/// `data_shards` of them are present, the result is exactly what the data
/// shards frame.
pub fn decode_shards(shards: &[Vec<u8>], data_shards: usize, parity_shards: usize) -> (r: Result<Vec<u8>, Error>)
    requires
        data_shards + parity_shards <= usize::MAX,
    ensures
        shards@.len() != data_shards + parity_shards ==> (r matches Err(Error::Invalid(_))),
        shards@.len() == data_shards + parity_shards && !(data_shards > 0 && parity_shards > 0
            && data_shards + parity_shards <= 256) ==> (r matches Err(Error::Replication(_))),
        shards@.len() == data_shards + parity_shards && data_shards > 0 && parity_shards > 0
            && data_shards + parity_shards <= 256 && !(present_uniform(present_of(views(shards@)))
            && present_count(present_of(views(shards@))) >= data_shards) ==> (r matches Err(
            Error::Replication(_),
        )),
        forall|data: Seq<Seq<u8>>|
            #![trigger codeword(data_shards as nat, parity_shards as nat, data)]
            shards@.len() == data_shards + parity_shards && data_shards > 0 && parity_shards > 0
                && data_shards + parity_shards <= 256 && present_uniform(present_of(views(shards@)))
                && present_count(present_of(views(shards@))) >= data_shards && data.len() == data_shards
                && shaped(data, present_of(views(shards@))) && agrees(
                present_of(views(shards@)),
                codeword(data_shards as nat, parity_shards as nat, data),
            ) ==> match unframe(data.flatten()) {
                Some(x) => r matches Ok(v) && v@ == x,
                None => r matches Err(Error::Invalid(_)),
            },
        shards@.len() == data_shards + parity_shards && data_shards > 0 && parity_shards > 0
            && data_shards + parity_shards <= 256 && present_uniform(present_of(views(shards@)))
            && present_count(present_of(views(shards@))) >= data_shards ==> match unframe(
            rs_reconstruct(data_shards as nat, parity_shards as nat, present_of(views(shards@))).take(
                data_shards as int,
            ).flatten(),
        ) {
            Some(x) => r matches Ok(v) && v@ == x,
            None => r matches Err(Error::Invalid(_)),
        },
{
    let total = data_shards + parity_shards;
    if shards.len() != total {
        let a = decimal_string(total as u64);
        let b = decimal_string(shards.len() as u64);
        let m = join3("expected ", a.as_str(), " shards, got ");
        return Err(Error::Invalid(join(m.as_str(), b.as_str())));
    }
    let codec = match codec_new(data_shards, parity_shards) {
        Ok(c) => c,
        Err(m) => return Err(Error::Replication(m)),
    };
    let mut opt: Vec<Option<Vec<u8>>> = Vec::new();
    let mut i: usize = 0;
    while i < total
        invariant
            total == shards@.len(),
            i <= total,
            opt@.len() == i,
            opt_views(opt@) == present_of(views(shards@)).take(i as int),
        decreases total - i,
    {
        let ghost prev = opt@;
        if shards[i].len() == 0 {
            opt.push(None);
        } else {
            opt.push(Some(copy_vec(&shards[i])));
        }
        proof {
            assert(views(shards@)[i as int] == shards@[i as int]@);
            assert(opt@ == prev.push(opt@[i as int]));
            assert(opt_views(opt@) =~= opt_views(prev).push(present_of(views(shards@))[i as int]));
            assert(opt_views(opt@) =~= present_of(views(shards@)).take(i + 1));
        }
        i = i + 1;
    }
    proof {
        assert(opt_views(opt@) =~= present_of(views(shards@)));
    }
    let ghost before = opt@;
    match codec_reconstruct(&codec, &mut opt) {
        Ok(()) => {},
        Err(m) => return Err(Error::Replication(m)),
    }
    proof {
        let rec = rs_reconstruct(data_shards as nat, parity_shards as nat, present_of(views(shards@)));
        assert(opt_views(before) == present_of(views(shards@)));
        assert(opt_views(opt@) == all_present(rec));
        assert(opt_views(opt@).len() == rec.len());
        assert forall|t: int| 0 <= t < data_shards implies (#[trigger] opt@[t]).unwrap()@ == rec[t] by {
            assert(opt_views(opt@)[t] == all_present(rec)[t]);
        }
        assert(Seq::new(data_shards as nat, |t: int| opt@[t].unwrap()@) =~= rec.take(data_shards as int));
        assert forall|t: int| 0 <= t < data_shards implies #[trigger] data_of(opt_views(opt@), data_shards as nat)[t]
            == opt@[t].unwrap()@ by {
            assert(opt@[t] is Some);
            assert(opt_views(opt@)[t] == Some(opt@[t].unwrap()@));
        }
        assert(data_of(opt_views(opt@), data_shards as nat) =~= Seq::new(
            data_shards as nat,
            |t: int| opt@[t].unwrap()@,
        ));
        assert forall|data: Seq<Seq<u8>>|
            #![trigger codeword(data_shards as nat, parity_shards as nat, data)]
            data.len() == data_shards && shaped(data, present_of(views(shards@))) && agrees(
                present_of(views(shards@)),
                codeword(data_shards as nat, parity_shards as nat, data),
            ) implies Seq::new(data_shards as nat, |t: int| opt@[t].unwrap()@) == data by {
            assert forall|t: int| 0 <= t < data_shards implies opt@[t].unwrap()@ == data[t] by {
                assert(opt_views(opt@)[t] == Some(data[t]));
            }
            assert(Seq::new(data_shards as nat, |t: int| opt@[t].unwrap()@) =~= data);
        }
    }
    unframe_data_shards(opt.as_slice(), data_shards)
}

/// The data shards among `full`, oldest first.
pub open spec fn data_of(full: Seq<Option<Seq<u8>>>, data_shards: nat) -> Seq<Seq<u8>> {
    Seq::new(data_shards, |t: int| full[t].unwrap())
}

/// The blob a full set of shards frames: its first `data_shards` shards,
/// concatenated and unframed.
pub fn unframe_data_shards(full: &[Option<Vec<u8>>], data_shards: usize) -> (r: Result<Vec<u8>, Error>)
    requires
        data_shards <= full@.len(),
        forall|t: int| 0 <= t < full@.len() ==> (#[trigger] full@[t]) is Some,
    ensures
        match unframe(data_of(opt_views(full@), data_shards as nat).flatten()) {
            Some(x) => r matches Ok(v) && v@ == x,
            None => r matches Err(Error::Invalid(_)),
        },
{
    let mut buf: Vec<u8> = Vec::new();
    let mut k: usize = 0;
    while k < data_shards
        invariant
            k <= data_shards,
            data_shards <= full@.len(),
            forall|t: int| 0 <= t < full@.len() ==> (#[trigger] full@[t]) is Some,
            buf@ == Seq::new(k as nat, |t: int| full@[t].unwrap()@).flatten(),
        decreases data_shards - k,
    {
        match &full[k] {
            Some(s) => {
                append_bytes(&mut buf, s.as_slice());
                proof {
                    let f = |t: int| full@[t].unwrap()@;
                    assert(Seq::new((k + 1) as nat, f) =~= Seq::new(k as nat, f).push(s@));
                    Seq::new(k as nat, f).lemma_flatten_push(s@);
                }
            },
            None => {},
        }
        k = k + 1;
    }
    proof {
        assert forall|t: int| 0 <= t < data_shards implies (#[trigger] data_of(opt_views(full@), data_shards as nat)[t])
            == full@[t].unwrap()@ by {
            assert(opt_views(full@)[t] == Some(full@[t].unwrap()@));
        }
        assert(Seq::new(data_shards as nat, |t: int| full@[t].unwrap()@) =~= data_of(
            opt_views(full@),
            data_shards as nat,
        ));
    }
    unframe_exec(&buf)
}


/// Losing shards of an encoding loses nothing while at least `data_shards`
/// remain: whatever is left of the encoded shards of `data` meets every
/// condition under which [`decode_shards`] returns exactly `data`.
pub proof fn lemma_lost_shards_recover(data: Seq<u8>, d: nat, p: nat, encoded: Seq<Seq<u8>>, left: Seq<Seq<u8>>)
    requires
        d > 0,
        data.len() <= u64::MAX,
        encoded == codeword(d, p, data_pieces(data, d)),
        uniform(encoded, piece_len(data.len(), d)),
        erased_from(left, encoded),
        present_count(present_of(left)) >= d,
    ensures
        data_pieces(data, d).len() == d,
        present_uniform(present_of(left)),
        shaped(data_pieces(data, d), present_of(left)),
        agrees(present_of(left), codeword(d, p, data_pieces(data, d))),
        unframe(data_pieces(data, d).flatten()) == Some(data),
{
    lemma_pieces_unframe(data, d);
    let sz = piece_len(data.len(), d);
    let pr = present_of(left);
    assert forall|i: int| 0 <= i < pr.len() && #[trigger] pr[i] is Some implies pr[i].unwrap() == encoded[i]
        && pr[i].unwrap().len() == sz by {
        assert(left[i].len() != 0);
    }
}

/// A shard counts as lost exactly when it is empty: every non-empty shard,
/// whatever bytes it holds (all zeros too), is present as it is.
pub proof fn lemma_lost_means_empty(s: Seq<Seq<u8>>)
    ensures
        present_of(s).len() == s.len(),
        forall|i: int| 0 <= i < s.len() ==> ((#[trigger] present_of(s)[i]) is None <==> s[i].len() == 0),
        forall|i: int| 0 <= i < s.len() && s[i].len() > 0 ==> #[trigger] present_of(s)[i] == Some(s[i]),
{
}

/// The shards present are all but the blank ones.
pub proof fn lemma_present_count_blanks(s: Seq<Seq<u8>>)
    ensures
        present_count(present_of(s)) + s.filter(|x: Seq<u8>| x.len() == 0).len() == s.len(),
    decreases s.len(),
{
    reveal(Seq::filter);
    if s.len() > 0 {
        lemma_present_count_blanks(s.drop_last());
        assert(present_of(s).drop_last() =~= present_of(s.drop_last()));
        assert(present_of(s).last() == present_of(s)[s.len() - 1]);
    }
}

/// Any parity_shards of the shards may be lost: blank at most
/// `parity_shards` of the shards an encoding of `data` gives, and whatever
/// is left meets every condition under which [`decode_shards`] returns
/// exactly `data`.
pub proof fn lemma_blanking_up_to_parity_recovers(
    data: Seq<u8>,
    d: nat,
    p: nat,
    encoded: Seq<Seq<u8>>,
    left: Seq<Seq<u8>>,
)
    requires
        d > 0,
        data.len() <= u64::MAX,
        encoded.len() == d + p,
        encoded == codeword(d, p, data_pieces(data, d)),
        uniform(encoded, piece_len(data.len(), d)),
        erased_from(left, encoded),
        left.filter(|x: Seq<u8>| x.len() == 0).len() <= p,
    ensures
        present_uniform(present_of(left)),
        present_count(present_of(left)) >= d,
        data_pieces(data, d).len() == d,
        shaped(data_pieces(data, d), present_of(left)),
        agrees(present_of(left), codeword(d, p, data_pieces(data, d))),
        unframe(data_pieces(data, d).flatten()) == Some(data),
{
    lemma_present_count_blanks(left);
    lemma_lost_shards_recover(data, d, p, encoded, left);
}

} // verus!
