//! Transactions and blocks, with the canonical message a sender signs and
//! the canonical byte form a block's hash is taken over.

use vstd::prelude::*;
use vstd::utf8::encode_utf8;
use crate::crypto::{hex_encode, hex_text, rfc3339_of, sha256, sha256_of, unix_time_now};
use crate::text::{
    amount_text, be64, decimal, framed, push_amount, push_be64, push_bytes, push_decimal,
    push_framed,
};

verus! {

/// Identity of an account.
pub type Address = String;

/// A value carried by a transaction. Amounts are counted in millionths of a
/// token, so `CustodyToken(10_000_000)` is ten custody tokens.
#[derive(Clone, Copy, Debug, PartialEq, Eq)]
pub enum Token {
    CustodyToken(u64),
    EnergyToken(u64),
}

impl Token {
    /// The amount, in millionths of a token.
    pub open spec fn spec_amount(self) -> u64 {
        match self {
            Token::CustodyToken(a) => a,
            Token::EnergyToken(a) => a,
        }
    }

    /// The amount, in millionths of a token.
    pub fn amount(&self) -> (r: u64)
        ensures
            r == self.spec_amount(),
    {
        match self {
            Token::CustodyToken(a) => *a,
            Token::EnergyToken(a) => *a,
        }
    }
}

/// A zero-knowledge proof record, carried along but not checked here.
#[derive(Clone, Debug)]
pub struct ZKProof {
    pub public_input: Vec<u8>,
    pub proof: Vec<u8>,
}

/// A transfer of tokens, with an optional contract payload and proof.
#[derive(Clone, Debug)]
pub struct Transaction {
    pub sender: Address,
    pub receiver: Address,
    pub token: Token,
    pub nonce: u64,
    pub contract_code: Option<Vec<u8>>,
    pub gas_limit: u64,
    pub zkp: Option<ZKProof>,
    /// Hexadecimal DER encoding of the sender's ECDSA signature over
    /// `signed_message`.
    pub signature: String,
}

/// A record of the chain: it commits to its transactions and to the block
/// before it in the same shard.
#[derive(Clone, Debug)]
pub struct Block {
    pub index: u64,
    pub timestamp: String,
    pub transactions: Vec<Transaction>,
    pub previous_hash: String,
    pub hash: String,
    pub shard_id: Option<u64>,
}

/// The ASCII colon that separates the fields of a signed message.
pub const FIELD_SEPARATOR: u8 = 58;

/// The text of a token in a signed message, such as `CustodyToken(10.0)`.
pub open spec fn token_text(t: Token) -> Seq<u8> {
    match t {
        Token::CustodyToken(a) => encode_utf8("CustodyToken("@) + amount_text(a as nat) + seq![
            41u8,
        ],
        Token::EnergyToken(a) => encode_utf8("EnergyToken("@) + amount_text(a as nat) + seq![
            41u8,
        ],
    }
}

/// The message a sender signs: sender, receiver, token, nonce and gas limit,
/// in that order, separated by colons.
pub open spec fn signed_message(t: Transaction) -> Seq<u8> {
    encode_utf8(t.sender@) + seq![FIELD_SEPARATOR] + encode_utf8(t.receiver@) + seq![
        FIELD_SEPARATOR,
    ] + token_text(t.token) + seq![FIELD_SEPARATOR] + decimal(t.nonce as nat) + seq![
        FIELD_SEPARATOR,
    ] + decimal(t.gas_limit as nat)
}

/// A tag byte, then the amount.
pub open spec fn token_bytes(t: Token) -> Seq<u8> {
    match t {
        Token::CustodyToken(a) => seq![0u8] + be64(a),
        Token::EnergyToken(a) => seq![1u8] + be64(a),
    }
}

pub open spec fn code_bytes(c: Option<Vec<u8>>) -> Seq<u8> {
    match c {
        None => seq![0u8],
        Some(v) => seq![1u8] + framed(v@),
    }
}

pub open spec fn zkp_bytes(z: Option<ZKProof>) -> Seq<u8> {
    match z {
        None => seq![0u8],
        Some(p) => seq![1u8] + framed(p.public_input@) + framed(p.proof@),
    }
}

/// Every field of a transaction, in declaration order, each variable-length
/// one preceded by its length.
pub open spec fn transaction_bytes(t: Transaction) -> Seq<u8> {
    framed(encode_utf8(t.sender@)) + framed(encode_utf8(t.receiver@)) + token_bytes(t.token) + be64(
        t.nonce,
    ) + code_bytes(t.contract_code) + be64(t.gas_limit) + zkp_bytes(t.zkp) + framed(
        encode_utf8(t.signature@),
    )
}

/// The transactions' byte forms, one after another, in order.
pub open spec fn transactions_bytes(s: Seq<Transaction>) -> Seq<u8>
    decreases s.len(),
{
    if s.len() == 0 {
        Seq::empty()
    } else {
        transactions_bytes(s.drop_last()) + transaction_bytes(s.last())
    }
}

pub open spec fn shard_bytes(shard: Option<u64>) -> Seq<u8> {
    match shard {
        None => seq![0u8],
        Some(s) => seq![1u8] + be64(s),
    }
}

/// The bytes a block's hash is taken over: index, timestamp, transaction
/// count and transactions, previous hash, and shard, in that order.
pub open spec fn block_preimage(
    index: u64,
    timestamp: Seq<char>,
    txs: Seq<Transaction>,
    previous_hash: Seq<char>,
    shard_id: Option<u64>,
) -> Seq<u8> {
    be64(index) + framed(encode_utf8(timestamp)) + be64(txs.len() as u64) + transactions_bytes(txs)
        + framed(encode_utf8(previous_hash)) + shard_bytes(shard_id)
}

/// A digit `0`-`9` or a lowercase letter `a`-`f`.
pub open spec fn is_lower_hex_digit(c: char) -> bool {
    (48 <= c as u32 <= 57) || (97 <= c as u32 <= 102)
}

/// A block's hash: the SHA-256 digest of its preimage, in lowercase hex.
#[verifier::opaque]
pub open spec fn block_hash(
    index: u64,
    timestamp: Seq<char>,
    txs: Seq<Transaction>,
    previous_hash: Seq<char>,
    shard_id: Option<u64>,
) -> Seq<char> {
    hex_text(sha256_of(block_preimage(index, timestamp, txs, previous_hash, shard_id)))
}

fn push_token(out: &mut Vec<u8>, t: Token)
    ensures
        final(out)@ == old(out)@ + token_bytes(t),
{
    let ghost start = out@;
    match t {
        Token::CustodyToken(a) => {
            out.push(0u8);
            push_be64(out, a);
        },
        Token::EnergyToken(a) => {
            out.push(1u8);
            push_be64(out, a);
        },
    }
    assert(out@ =~= start + token_bytes(t));
}

fn push_transaction(out: &mut Vec<u8>, t: &Transaction)
    ensures
        final(out)@ == old(out)@ + transaction_bytes(*t),
{
    let ghost start = out@;
    push_framed(out, t.sender.as_str().as_bytes());
    push_framed(out, t.receiver.as_str().as_bytes());
    push_token(out, t.token);
    push_be64(out, t.nonce);
    let ghost before_code = out@;
    match &t.contract_code {
        None => out.push(0u8),
        Some(c) => {
            out.push(1u8);
            push_framed(out, c.as_slice());
        },
    }
    assert(out@ =~= before_code + code_bytes(t.contract_code));
    push_be64(out, t.gas_limit);
    let ghost before_zkp = out@;
    match &t.zkp {
        None => out.push(0u8),
        Some(p) => {
            out.push(1u8);
            push_framed(out, p.public_input.as_slice());
            push_framed(out, p.proof.as_slice());
        },
    }
    assert(out@ =~= before_zkp + zkp_bytes(t.zkp));
    push_framed(out, t.signature.as_str().as_bytes());
    assert(out@ =~= start + transaction_bytes(*t));
}

fn push_token_text(out: &mut Vec<u8>, t: Token)
    ensures
        final(out)@ == old(out)@ + token_text(t),
{
    let ghost start = out@;
    match t {
        Token::CustodyToken(a) => {
            push_bytes(out, "CustodyToken(".as_bytes());
            push_amount(out, a);
        },
        Token::EnergyToken(a) => {
            push_bytes(out, "EnergyToken(".as_bytes());
            push_amount(out, a);
        },
    }
    out.push(41u8);
    assert(out@ =~= start + token_text(t));
}

impl Transaction {
    /// The canonical message that the sender signs.
    pub fn signed_message(&self) -> (r: Vec<u8>)
        ensures
            r@ == signed_message(*self),
    {
        let mut out: Vec<u8> = Vec::new();
        push_bytes(&mut out, self.sender.as_str().as_bytes());
        out.push(FIELD_SEPARATOR);
        push_bytes(&mut out, self.receiver.as_str().as_bytes());
        out.push(FIELD_SEPARATOR);
        push_token_text(&mut out, self.token);
        out.push(FIELD_SEPARATOR);
        push_decimal(&mut out, self.nonce);
        out.push(FIELD_SEPARATOR);
        push_decimal(&mut out, self.gas_limit);
        assert(out@ =~= signed_message(*self));
        out
    }
}

/// The canonical byte form of a block's fields.
pub fn preimage(
    index: u64,
    timestamp: &str,
    transactions: &Vec<Transaction>,
    previous_hash: &str,
    shard_id: Option<u64>,
) -> (r: Vec<u8>)
    ensures
        r@ == block_preimage(index, timestamp@, transactions@, previous_hash@, shard_id),
{
    let mut out: Vec<u8> = Vec::new();
    push_be64(&mut out, index);
    push_framed(&mut out, timestamp.as_bytes());
    push_be64(&mut out, transactions.len() as u64);
    let ghost start = out@;
    let mut i: usize = 0;
    while i < transactions.len()
        invariant
            i <= transactions@.len(),
            out@ == start + transactions_bytes(transactions@.subrange(0, i as int)),
        decreases transactions@.len() - i,
    {
        push_transaction(&mut out, &transactions[i]);
        assert(transactions@.subrange(0, i + 1).drop_last() =~= transactions@.subrange(0, i as int));
        i = i + 1;
        assert(out@ =~= start + transactions_bytes(transactions@.subrange(0, i as int)));
    }
    assert(transactions@.subrange(0, i as int) =~= transactions@);
    push_framed(&mut out, previous_hash.as_bytes());
    match shard_id {
        None => out.push(0u8),
        Some(s) => {
            out.push(1u8);
            push_be64(&mut out, s);
        },
    }
    assert(out@ =~= block_preimage(index, timestamp@, transactions@, previous_hash@, shard_id));
    out
}

/// The current UTC time as RFC 3339 text, or `None` when the clock reads
/// before the Unix epoch or past what a date can hold.
pub fn current_timestamp() -> Option<String> {
    match unix_time_now() {
        Some((secs, nanos)) => if secs <= i64::MAX as u64 {
            rfc3339_of(secs as i64, nanos)
        } else {
            None
        },
        None => None,
    }
}

impl Block {
    /// Whether the stored hash is the hash of the other fields.
    pub open spec fn hash_is_valid(&self) -> bool {
        self.hash@ == block_hash(
            self.index,
            self.timestamp@,
            self.transactions@,
            self.previous_hash@,
            self.shard_id,
        )
    }

    /// The hash of a block with these fields.
    pub fn calculate_hash(
        index: u64,
        timestamp: &str,
        transactions: &Vec<Transaction>,
        previous_hash: &str,
        shard_id: Option<u64>,
    ) -> (r: String)
        ensures
            r@ == block_hash(index, timestamp@, transactions@, previous_hash@, shard_id),
            r@.len() == 64,
            forall|i: int| 0 <= i < 64 ==> is_lower_hex_digit(#[trigger] r@[i]),
    {
        proof {
            reveal(block_hash);
        }
        let bytes = preimage(index, timestamp, transactions, previous_hash, shard_id);
        let digest = sha256(bytes.as_slice());
        hex_encode(digest.as_slice())
    }

    /// A block with the given creation time and its hash computed.
    pub fn with_timestamp(
        index: u64,
        timestamp: String,
        transactions: Vec<Transaction>,
        previous_hash: String,
        shard_id: Option<u64>,
    ) -> (r: Block)
        ensures
            r.index == index,
            r.timestamp@ == timestamp@,
            r.transactions@ == transactions@,
            r.previous_hash@ == previous_hash@,
            r.shard_id == shard_id,
            r.hash_is_valid(),
    {
        let hash = Block::calculate_hash(
            index,
            timestamp.as_str(),
            &transactions,
            previous_hash.as_str(),
            shard_id,
        );
        Block { index, timestamp, transactions, previous_hash, hash, shard_id }
    }

    /// A block stamped with the current time and its hash computed, or
    /// `None` when the clock cannot be read as a date.
    pub fn new(
        index: u64,
        transactions: Vec<Transaction>,
        previous_hash: String,
        shard_id: Option<u64>,
    ) -> (r: Option<Block>)
        ensures
            r matches Some(b) ==> {
                &&& b.index == index
                &&& b.transactions@ == transactions@
                &&& b.previous_hash@ == previous_hash@
                &&& b.shard_id == shard_id
                &&& b.hash_is_valid()
            },
    {
        match current_timestamp() {
            Some(timestamp) => Some(
                Block::with_timestamp(index, timestamp, transactions, previous_hash, shard_id),
            ),
            None => None,
        }
    }
}

} // verus!
