//! Properties of the ledger that relate several operations or hold for all
//! inputs, proved over the specifications the operations are verified
//! against.

use vstd::prelude::*;
use crate::ledger::{
    admission, all_signed, is_valid_transaction, lemma_nonce_set_size, nonce_set,
    shard_of, AdmissionError, KeyEntry, NUM_SHARDS,
};
use crate::model::{
    block_hash, block_preimage, code_bytes, shard_bytes, token_bytes, transaction_bytes,
    transactions_bytes, zkp_bytes, Token, Transaction, ZKProof,
};
use crate::text::{be64, framed};
use vstd::seq_lib::lemma_concat_associative;
use vstd::set_lib::lemma_len_union;
use vstd::utf8::{encode_utf8, encode_utf8_decode_utf8};

verus! {

/// Hashing is deterministic: blocks whose fields agree get the same hash.
pub proof fn lemma_block_hash_deterministic(
    index: u64,
    timestamp: Seq<char>,
    txs: Seq<Transaction>,
    previous_hash: Seq<char>,
    shard_id: Option<u64>,
    other_index: u64,
    other_timestamp: Seq<char>,
    other_txs: Seq<Transaction>,
    other_previous_hash: Seq<char>,
    other_shard_id: Option<u64>,
)
    requires
        index == other_index,
        timestamp == other_timestamp,
        txs == other_txs,
        previous_hash == other_previous_hash,
        shard_id == other_shard_id,
    ensures
        block_hash(index, timestamp, txs, previous_hash, shard_id) == block_hash(
            other_index,
            other_timestamp,
            other_txs,
            other_previous_hash,
            other_shard_id,
        ),
{
}

proof fn lemma_be64_injective(a: u64, b: u64)
    requires
        be64(a) == be64(b),
    ensures
        a == b,
{
    assert(be64(a)[0] == be64(b)[0] && be64(a)[1] == be64(b)[1] && be64(a)[2] == be64(b)[2]
        && be64(a)[3] == be64(b)[3] && be64(a)[4] == be64(b)[4] && be64(a)[5] == be64(b)[5]
        && be64(a)[6] == be64(b)[6] && be64(a)[7] == be64(b)[7]);
    assert(((a >> 56u64) as u8 == (b >> 56u64) as u8 && (a >> 48u64) as u8 == (b >> 48u64) as u8
        && (a >> 40u64) as u8 == (b >> 40u64) as u8 && (a >> 32u64) as u8 == (b >> 32u64) as u8
        && (a >> 24u64) as u8 == (b >> 24u64) as u8 && (a >> 16u64) as u8 == (b >> 16u64) as u8
        && (a >> 8u64) as u8 == (b >> 8u64) as u8 && a as u8 == b as u8) ==> a == b)
        by (bit_vector);
}

proof fn lemma_be64_prefix(a: u64, b: u64, x: Seq<u8>, y: Seq<u8>)
    requires
        be64(a) + x == be64(b) + y,
    ensures
        a == b,
        x == y,
{
    let p = be64(a) + x;
    let q = be64(b) + y;
    assert(p.subrange(0, 8) =~= be64(a));
    assert(q.subrange(0, 8) =~= be64(b));
    lemma_be64_injective(a, b);
    assert(p.subrange(8, p.len() as int) =~= x);
    assert(q.subrange(8, q.len() as int) =~= y);
}

proof fn lemma_tag_prefix(a: u8, b: u8, x: Seq<u8>, y: Seq<u8>)
    requires
        seq![a] + x == seq![b] + y,
    ensures
        a == b,
        x == y,
{
    let p = seq![a] + x;
    let q = seq![b] + y;
    assert(p[0] == a && q[0] == b);
    assert(p.subrange(1, p.len() as int) =~= x);
    assert(q.subrange(1, q.len() as int) =~= y);
}

proof fn lemma_framed_prefix(a: Seq<u8>, b: Seq<u8>, x: Seq<u8>, y: Seq<u8>)
    requires
        framed(a) + x == framed(b) + y,
        a.len() <= u64::MAX,
        b.len() <= u64::MAX,
    ensures
        a == b,
        x == y,
{
    assert(framed(a) + x =~= be64(a.len() as u64) + (a + x));
    assert(framed(b) + y =~= be64(b.len() as u64) + (b + y));
    lemma_be64_prefix(a.len() as u64, b.len() as u64, a + x, b + y);
    assert((a + x).subrange(0, a.len() as int) =~= a);
    assert((b + y).subrange(0, b.len() as int) =~= b);
    assert((a + x).subrange(a.len() as int, (a + x).len() as int) =~= x);
    assert((b + y).subrange(b.len() as int, (b + y).len() as int) =~= y);
}

/// Two optional byte strings agree.
pub open spec fn same_bytes_option(a: Option<Vec<u8>>, b: Option<Vec<u8>>) -> bool {
    match (a, b) {
        (None, None) => true,
        (Some(v), Some(w)) => v@ == w@,
        _ => false,
    }
}

/// Two optional proof records agree.
pub open spec fn same_proof(a: Option<ZKProof>, b: Option<ZKProof>) -> bool {
    match (a, b) {
        (None, None) => true,
        (Some(p), Some(q)) => p.public_input@ == q.public_input@ && p.proof@ == q.proof@,
        _ => false,
    }
}

/// Two transactions agree in every field.
pub open spec fn same_transaction(a: Transaction, b: Transaction) -> bool {
    &&& a.sender@ == b.sender@
    &&& a.receiver@ == b.receiver@
    &&& a.token == b.token
    &&& a.nonce == b.nonce
    &&& same_bytes_option(a.contract_code, b.contract_code)
    &&& a.gas_limit == b.gas_limit
    &&& same_proof(a.zkp, b.zkp)
    &&& a.signature@ == b.signature@
}

/// Every variable-length field of a transaction has a length that fits in
/// 64 bits, as it does for any value held in memory.
pub open spec fn fits(t: Transaction) -> bool {
    &&& encode_utf8(t.sender@).len() <= u64::MAX
    &&& encode_utf8(t.receiver@).len() <= u64::MAX
    &&& encode_utf8(t.signature@).len() <= u64::MAX
    &&& (t.contract_code matches Some(c) ==> c@.len() <= u64::MAX)
    &&& (t.zkp matches Some(p) ==> p.public_input@.len() <= u64::MAX && p.proof@.len()
        <= u64::MAX)
}

proof fn lemma_token_prefix(t: Token, u: Token, x: Seq<u8>, y: Seq<u8>)
    requires
        token_bytes(t) + x == token_bytes(u) + y,
    ensures
        t == u,
        x == y,
{
    let (a, b) = (t.spec_amount(), u.spec_amount());
    assert(token_bytes(t) + x =~= seq![token_bytes(t)[0]] + (be64(a) + x));
    assert(token_bytes(u) + y =~= seq![token_bytes(u)[0]] + (be64(b) + y));
    lemma_tag_prefix(token_bytes(t)[0], token_bytes(u)[0], be64(a) + x, be64(b) + y);
    lemma_be64_prefix(a, b, x, y);
}

/// A transaction's byte form followed by more bytes, grouped field by field
/// from the front.
proof fn lemma_transaction_bytes_split(t: Transaction, x: Seq<u8>)
    ensures
        transaction_bytes(t) + x == framed(encode_utf8(t.sender@)) + (framed(
            encode_utf8(t.receiver@),
        ) + (token_bytes(t.token) + (be64(t.nonce) + (code_bytes(t.contract_code) + (be64(
            t.gas_limit,
        ) + (zkp_bytes(t.zkp) + (framed(encode_utf8(t.signature@)) + x))))))),
{
    let a1 = framed(encode_utf8(t.sender@));
    let a2 = framed(encode_utf8(t.receiver@));
    let a3 = token_bytes(t.token);
    let a4 = be64(t.nonce);
    let a5 = code_bytes(t.contract_code);
    let a6 = be64(t.gas_limit);
    let a7 = zkp_bytes(t.zkp);
    let a8 = framed(encode_utf8(t.signature@));
    let r8 = a8 + x;
    let r7 = a7 + r8;
    let r6 = a6 + r7;
    let r5 = a5 + r6;
    let r4 = a4 + r5;
    let r3 = a3 + r4;
    let r2 = a2 + r3;
    lemma_concat_associative(a1 + a2 + a3 + a4 + a5 + a6 + a7, a8, x);
    lemma_concat_associative(a1 + a2 + a3 + a4 + a5 + a6, a7, r8);
    lemma_concat_associative(a1 + a2 + a3 + a4 + a5, a6, r7);
    lemma_concat_associative(a1 + a2 + a3 + a4, a5, r6);
    lemma_concat_associative(a1 + a2 + a3, a4, r5);
    lemma_concat_associative(a1 + a2, a3, r4);
    lemma_concat_associative(a1, a2, r3);
}

proof fn lemma_transaction_prefix(t: Transaction, u: Transaction, x: Seq<u8>, y: Seq<u8>)
    requires
        transaction_bytes(t) + x == transaction_bytes(u) + y,
        fits(t),
        fits(u),
    ensures
        same_transaction(t, u),
        x == y,
{
    let tg = encode_utf8(t.signature@);
    let ug = encode_utf8(u.signature@);
    let t_sig = framed(tg) + x;
    let u_sig = framed(ug) + y;
    let t_zkp = zkp_bytes(t.zkp) + t_sig;
    let u_zkp = zkp_bytes(u.zkp) + u_sig;
    let t_gas = be64(t.gas_limit) + t_zkp;
    let u_gas = be64(u.gas_limit) + u_zkp;
    let t_code = code_bytes(t.contract_code) + t_gas;
    let u_code = code_bytes(u.contract_code) + u_gas;
    let t_nonce = be64(t.nonce) + t_code;
    let u_nonce = be64(u.nonce) + u_code;
    let t_token = token_bytes(t.token) + t_nonce;
    let u_token = token_bytes(u.token) + u_nonce;
    let t_recv = framed(encode_utf8(t.receiver@)) + t_token;
    let u_recv = framed(encode_utf8(u.receiver@)) + u_token;
    lemma_transaction_bytes_split(t, x);
    lemma_transaction_bytes_split(u, y);
    lemma_framed_prefix(encode_utf8(t.sender@), encode_utf8(u.sender@), t_recv, u_recv);
    lemma_framed_prefix(encode_utf8(t.receiver@), encode_utf8(u.receiver@), t_token, u_token);
    lemma_token_prefix(t.token, u.token, t_nonce, u_nonce);
    lemma_be64_prefix(t.nonce, u.nonce, t_code, u_code);
    lemma_code_prefix(t.contract_code, u.contract_code, t_gas, u_gas);
    lemma_be64_prefix(t.gas_limit, u.gas_limit, t_zkp, u_zkp);
    lemma_zkp_prefix(t.zkp, u.zkp, t_sig, u_sig);
    lemma_framed_prefix(tg, ug, x, y);
    encode_utf8_decode_utf8(t.sender@);
    encode_utf8_decode_utf8(u.sender@);
    encode_utf8_decode_utf8(t.receiver@);
    encode_utf8_decode_utf8(u.receiver@);
    encode_utf8_decode_utf8(t.signature@);
    encode_utf8_decode_utf8(u.signature@);
}

proof fn lemma_code_prefix(c: Option<Vec<u8>>, d: Option<Vec<u8>>, x: Seq<u8>, y: Seq<u8>)
    requires
        code_bytes(c) + x == code_bytes(d) + y,
        c matches Some(v) ==> v@.len() <= u64::MAX,
        d matches Some(w) ==> w@.len() <= u64::MAX,
    ensures
        same_bytes_option(c, d),
        x == y,
{
    let cb = match c { None => Seq::<u8>::empty(), Some(v) => framed(v@) };
    let db = match d { None => Seq::<u8>::empty(), Some(w) => framed(w@) };
    assert(code_bytes(c) + x =~= seq![code_bytes(c)[0]] + (cb + x));
    assert(code_bytes(d) + y =~= seq![code_bytes(d)[0]] + (db + y));
    lemma_tag_prefix(code_bytes(c)[0], code_bytes(d)[0], cb + x, db + y);
    match (c, d) {
        (Some(v), Some(w)) => {
            lemma_framed_prefix(v@, w@, x, y);
        },
        _ => {
            assert(cb + x =~= x);
            assert(db + y =~= y);
        },
    }
}

proof fn lemma_zkp_prefix(c: Option<ZKProof>, d: Option<ZKProof>, x: Seq<u8>, y: Seq<u8>)
    requires
        zkp_bytes(c) + x == zkp_bytes(d) + y,
        c matches Some(p) ==> p.public_input@.len() <= u64::MAX && p.proof@.len() <= u64::MAX,
        d matches Some(q) ==> q.public_input@.len() <= u64::MAX && q.proof@.len() <= u64::MAX,
    ensures
        same_proof(c, d),
        x == y,
{
    let cb = match c { None => Seq::<u8>::empty(), Some(p) => framed(p.public_input@) + framed(p.proof@) };
    let db = match d { None => Seq::<u8>::empty(), Some(q) => framed(q.public_input@) + framed(q.proof@) };
    assert(zkp_bytes(c) + x =~= seq![zkp_bytes(c)[0]] + (cb + x));
    assert(zkp_bytes(d) + y =~= seq![zkp_bytes(d)[0]] + (db + y));
    lemma_tag_prefix(zkp_bytes(c)[0], zkp_bytes(d)[0], cb + x, db + y);
    match (c, d) {
        (Some(p), Some(q)) => {
            assert(cb + x =~= framed(p.public_input@) + (framed(p.proof@) + x));
            assert(db + y =~= framed(q.public_input@) + (framed(q.proof@) + y));
            lemma_framed_prefix(p.public_input@, q.public_input@, framed(p.proof@) + x, framed(q.proof@) + y);
            lemma_framed_prefix(p.proof@, q.proof@, x, y);
        },
        _ => {
            assert(cb + x =~= x);
            assert(db + y =~= y);
        },
    }
}

proof fn lemma_transactions_front(s: Seq<Transaction>)
    requires
        s.len() > 0,
    ensures
        transactions_bytes(s) == transaction_bytes(s[0]) + transactions_bytes(s.drop_first()),
    decreases s.len(),
{
    if s.len() == 1 {
        assert(s.drop_last() =~= Seq::<Transaction>::empty());
        assert(s.drop_first() =~= Seq::<Transaction>::empty());
        assert(transactions_bytes(s) =~= transaction_bytes(s[0]) + transactions_bytes(s.drop_first()));
    } else {
        lemma_transactions_front(s.drop_last());
        assert(s.drop_last().drop_first() =~= s.drop_first().drop_last());
        assert(s.drop_first().last() == s.last());
        assert(transactions_bytes(s) =~= transaction_bytes(s[0]) + transactions_bytes(s.drop_first()));
    }
}

proof fn lemma_transactions_prefix(s: Seq<Transaction>, r: Seq<Transaction>, x: Seq<u8>, y: Seq<u8>)
    requires
        s.len() == r.len(),
        transactions_bytes(s) + x == transactions_bytes(r) + y,
        forall|i: int| 0 <= i < s.len() ==> fits(#[trigger] s[i]),
        forall|i: int| 0 <= i < r.len() ==> fits(#[trigger] r[i]),
    ensures
        forall|i: int| 0 <= i < s.len() ==> same_transaction(#[trigger] s[i], r[i]),
        x == y,
    decreases s.len(),
{
    if s.len() == 0 {
        assert(transactions_bytes(s) + x =~= x);
        assert(transactions_bytes(r) + y =~= y);
    } else {
        lemma_transactions_front(s);
        lemma_transactions_front(r);
        lemma_concat_associative(transaction_bytes(s[0]), transactions_bytes(s.drop_first()), x);
        lemma_concat_associative(transaction_bytes(r[0]), transactions_bytes(r.drop_first()), y);
        assert(fits(s[0]) && fits(r[0]));
        lemma_transaction_prefix(s[0], r[0], transactions_bytes(s.drop_first()) + x, transactions_bytes(r.drop_first()) + y);
        assert forall|i: int| 0 <= i < s.drop_first().len() implies fits(#[trigger] s.drop_first()[i]) by {
            assert(s.drop_first()[i] == s[i + 1]);
        }
        assert forall|i: int| 0 <= i < r.drop_first().len() implies fits(#[trigger] r.drop_first()[i]) by {
            assert(r.drop_first()[i] == r[i + 1]);
        }
        lemma_transactions_prefix(s.drop_first(), r.drop_first(), x, y);
        assert forall|i: int| 0 <= i < s.len() implies same_transaction(#[trigger] s[i], r[i]) by {
            if i > 0 {
                assert(s.drop_first()[i - 1] == s[i]);
                assert(r.drop_first()[i - 1] == r[i]);
            }
        }
    }
}

/// A block's preimage grouped field by field from the front.
proof fn lemma_preimage_split(
    index: u64,
    timestamp: Seq<char>,
    txs: Seq<Transaction>,
    previous_hash: Seq<char>,
    shard_id: Option<u64>,
)
    ensures
        block_preimage(index, timestamp, txs, previous_hash, shard_id) == be64(index) + (framed(
            encode_utf8(timestamp),
        ) + (be64(txs.len() as u64) + (transactions_bytes(txs) + (framed(encode_utf8(previous_hash))
            + shard_bytes(shard_id))))),
{
    let b1 = be64(index);
    let b2 = framed(encode_utf8(timestamp));
    let b3 = be64(txs.len() as u64);
    let b4 = transactions_bytes(txs);
    let b5 = framed(encode_utf8(previous_hash));
    let b6 = shard_bytes(shard_id);
    lemma_concat_associative(b1 + b2 + b3 + b4, b5, b6);
    lemma_concat_associative(b1 + b2 + b3, b4, b5 + b6);
    lemma_concat_associative(b1 + b2, b3, b4 + (b5 + b6));
    lemma_concat_associative(b1, b2, b3 + (b4 + (b5 + b6)));
}

/// The preimage of a block determines every one of its fields: two blocks
/// whose fields differ anywhere hash different byte strings, so a change to
/// any field changes the hash unless SHA-256 collides.
pub proof fn lemma_preimage_injective(
    index: u64,
    other_index: u64,
    timestamp: Seq<char>,
    other_timestamp: Seq<char>,
    txs: Seq<Transaction>,
    other_txs: Seq<Transaction>,
    previous_hash: Seq<char>,
    other_previous_hash: Seq<char>,
    shard_id: Option<u64>,
    other_shard_id: Option<u64>,
)
    requires
        block_preimage(index, timestamp, txs, previous_hash, shard_id) == block_preimage(
            other_index,
            other_timestamp,
            other_txs,
            other_previous_hash,
            other_shard_id,
        ),
        encode_utf8(timestamp).len() <= u64::MAX,
        encode_utf8(other_timestamp).len() <= u64::MAX,
        encode_utf8(previous_hash).len() <= u64::MAX,
        encode_utf8(other_previous_hash).len() <= u64::MAX,
        txs.len() <= u64::MAX,
        other_txs.len() <= u64::MAX,
        forall|i: int| 0 <= i < txs.len() ==> fits(#[trigger] txs[i]),
        forall|i: int| 0 <= i < other_txs.len() ==> fits(#[trigger] other_txs[i]),
    ensures
        index == other_index,
        timestamp == other_timestamp,
        txs.len() == other_txs.len(),
        forall|i: int| 0 <= i < txs.len() ==> same_transaction(#[trigger] txs[i], other_txs[i]),
        previous_hash == other_previous_hash,
        shard_id == other_shard_id,
{
    let t = encode_utf8(timestamp);
    let u = encode_utf8(other_timestamp);
    let h = encode_utf8(previous_hash);
    let g = encode_utf8(other_previous_hash);
    let p_tail = framed(h) + shard_bytes(shard_id);
    let q_tail = framed(g) + shard_bytes(other_shard_id);
    let p_txs = transactions_bytes(txs) + p_tail;
    let q_txs = transactions_bytes(other_txs) + q_tail;
    lemma_preimage_split(index, timestamp, txs, previous_hash, shard_id);
    lemma_preimage_split(other_index, other_timestamp, other_txs, other_previous_hash, other_shard_id);
    lemma_be64_prefix(index, other_index, framed(t) + (be64(txs.len() as u64) + p_txs), framed(u) + (
    be64(other_txs.len() as u64) + q_txs));
    lemma_framed_prefix(t, u, be64(txs.len() as u64) + p_txs, be64(other_txs.len() as u64) + q_txs);
    encode_utf8_decode_utf8(timestamp);
    encode_utf8_decode_utf8(other_timestamp);
    lemma_be64_prefix(txs.len() as u64, other_txs.len() as u64, p_txs, q_txs);
    lemma_transactions_prefix(txs, other_txs, p_tail, q_tail);
    lemma_framed_prefix(h, g, shard_bytes(shard_id), shard_bytes(other_shard_id));
    encode_utf8_decode_utf8(previous_hash);
    encode_utf8_decode_utf8(other_previous_hash);
    match (shard_id, other_shard_id) {
        (Some(a), Some(b)) => {
            assert(shard_bytes(shard_id) =~= seq![1u8] + (be64(a) + Seq::empty()));
            assert(shard_bytes(other_shard_id) =~= seq![1u8] + (be64(b) + Seq::empty()));
            lemma_tag_prefix(1u8, 1u8, be64(a) + Seq::empty(), be64(b) + Seq::empty());
            lemma_be64_prefix(a, b, Seq::empty(), Seq::empty());
        },
        _ => {
            assert(shard_bytes(shard_id)[0] == shard_bytes(other_shard_id)[0]);
        },
    }
}

/// A transaction with a zero gas limit gets its whole batch refused,
/// whether or not its signature is valid.
pub proof fn lemma_zero_gas_rejected(
    used: Set<u64>,
    keys: Seq<KeyEntry>,
    txs: Seq<Transaction>,
    k: int,
)
    requires
        0 <= k < txs.len(),
        txs[k].gas_limit == 0,
    ensures
        admission(used, keys, txs) is Some,
{
    assert(!is_valid_transaction(txs[k]));
}

/// Replay protection: once a batch is admitted, its nonces are in the
/// registry (`add_block` records the union of the old registry and
/// `nonce_set(first)`), and any later batch that reuses one of them and is
/// validly signed is refused as a replay, whatever else it holds.
pub proof fn lemma_replay_rejected(
    used: Set<u64>,
    keys: Seq<KeyEntry>,
    first: Seq<Transaction>,
    second: Seq<Transaction>,
    k: int,
)
    requires
        0 <= k < second.len(),
        nonce_set(first).contains(second[k].nonce),
        all_signed(keys, second),
    ensures
        admission(used.union(nonce_set(first)), keys, second) == Some(AdmissionError::ReplayedNonce),
{
    assert(used.union(nonce_set(first)).contains(second[k].nonce));
}

/// A validly signed batch in which two transactions share a nonce is
/// refused as a replay, whatever else it holds.
pub proof fn lemma_repeated_nonce_rejected(
    used: Set<u64>,
    keys: Seq<KeyEntry>,
    txs: Seq<Transaction>,
    i: int,
    j: int,
)
    requires
        0 <= i < j < txs.len(),
        txs[i].nonce == txs[j].nonce,
        all_signed(keys, txs),
    ensures
        admission(used, keys, txs) == Some(AdmissionError::ReplayedNonce),
{
    assert(txs[i].nonce == txs[j].nonce);
}

/// Admitting a batch grows a finite registry by at most one entry per
/// distinct nonce of the batch, and so by at most the batch's length.
pub proof fn lemma_registry_growth(used: Set<u64>, txs: Seq<Transaction>)
    requires
        used.finite(),
    ensures
        nonce_set(txs).finite(),
        nonce_set(txs).len() <= txs.len(),
        used.union(nonce_set(txs)).finite(),
        used.union(nonce_set(txs)).len() <= used.len() + nonce_set(txs).len(),
{
    lemma_nonce_set_size(txs);
    lemma_len_union(used, nonce_set(txs));
}

/// Shard assignment is a function of the sender alone and always names one
/// of the shards.
pub proof fn lemma_shard_assignment_stable(sender: Seq<char>, other: Seq<char>)
    requires
        sender == other,
    ensures
        shard_of(sender) == shard_of(other),
        shard_of(sender) < NUM_SHARDS,
{
}

} // verus!
