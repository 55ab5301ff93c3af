//! The chain state: two hash-chained shards, the nonce registry, the key
//! registry, and transaction admission.

use vstd::prelude::*;
use vstd::utf8::encode_utf8;
use std::collections::HashSet;
use vstd::set_lib::lemma_len_union;
use crate::consensus::{Consensus, ProofOfStake};
use crate::crypto::{
    hex_bytes, hex_decode, is_hex, p256_accepts, p256_verify, sha256, sha256_of,
};
use crate::model::{current_timestamp, signed_message, Address, Block, Transaction};

verus! {

/// Number of shards the ledger is split into.
pub const NUM_SHARDS: usize = 2;

/// Why a batch of transactions was not appended.
#[derive(Clone, Copy, Debug, PartialEq, Eq)]
pub enum AdmissionError {
    /// A sender has no registered key, or a signature is malformed or wrong.
    InvalidSignature,
    /// A nonce was consumed before, or occurs twice in the batch.
    ReplayedNonce,
    /// A gas limit or a token amount is zero.
    InvalidTransaction,
    /// The target shard does not exist.
    InvalidShard,
    /// The consensus policy declined the candidate block.
    ConsensusRejected,
    /// The contract executor reported a failure.
    ExecutionFailed,
    /// The clock could not be read as a date, so no block could be stamped.
    ClockUnavailable,
}

/// A registered verification key: a SEC1-encoded P-256 public key.
#[derive(Clone, Debug)]
pub struct KeyEntry {
    pub identity: Address,
    pub key: Vec<u8>,
}

/// A registered validator and its stake weight.
#[derive(Clone, Debug)]
pub struct StakeEntry {
    pub identity: Address,
    pub stake: u64,
}

pub struct Blockchain {
    pub lock_shard: Vec<Block>,
    pub vpp_shard: Vec<Block>,
    pub validators: Vec<Address>,
    pub stakes: Vec<StakeEntry>,
    pub used_nonces: HashSet<u64>,
    /// Registrations in order; the latest one for an identity is in force.
    pub public_keys: Vec<KeyEntry>,
}

/// The key in force for `id`: that of its latest registration.
pub open spec fn key_for(entries: Seq<KeyEntry>, id: Seq<char>) -> Option<Seq<u8>>
    decreases entries.len(),
{
    if entries.len() == 0 {
        None
    } else if entries.last().identity@ == id {
        Some(entries.last().key@)
    } else {
        key_for(entries.drop_last(), id)
    }
}

/// Whether `t` carries a valid signature by its sender's registered key.
pub open spec fn signature_ok(keys: Seq<KeyEntry>, t: Transaction) -> bool {
    match key_for(keys, t.sender@) {
        None => false,
        Some(k) => {
            let sig = encode_utf8(t.signature@);
            is_hex(sig) && p256_accepts(k, signed_message(t), hex_bytes(sig))
        },
    }
}

pub open spec fn all_signed(keys: Seq<KeyEntry>, txs: Seq<Transaction>) -> bool {
    forall|i: int| 0 <= i < txs.len() ==> signature_ok(keys, #[trigger] txs[i])
}

/// Gas limit and token amount are both positive.
pub open spec fn is_valid_transaction(t: Transaction) -> bool {
    t.gas_limit > 0 && t.token.spec_amount() > 0
}

/// No nonce of the batch is in the registry, and no two transactions of
/// the batch share one.
pub open spec fn replay_free(used: Set<u64>, txs: Seq<Transaction>) -> bool {
    &&& forall|i: int| 0 <= i < txs.len() ==> !used.contains(#[trigger] txs[i].nonce)
    &&& forall|i: int, j: int|
        #![trigger txs[i], txs[j]]
        0 <= i < j < txs.len() ==> txs[i].nonce != txs[j].nonce
}

/// Every transaction of the batch is valid.
pub open spec fn all_valid(txs: Seq<Transaction>) -> bool {
    forall|i: int| 0 <= i < txs.len() ==> is_valid_transaction(#[trigger] txs[i])
}

/// Why a batch is refused before any block is built, if it is: signatures
/// are checked first, then replays, then the transactions' own validity.
pub open spec fn admission(used: Set<u64>, keys: Seq<KeyEntry>, txs: Seq<Transaction>) -> Option<
    AdmissionError,
> {
    if !all_signed(keys, txs) {
        Some(AdmissionError::InvalidSignature)
    } else if !replay_free(used, txs) {
        Some(AdmissionError::ReplayedNonce)
    } else if !all_valid(txs) {
        Some(AdmissionError::InvalidTransaction)
    } else {
        None
    }
}

/// The nonces of a batch.
pub open spec fn nonce_set(txs: Seq<Transaction>) -> Set<u64> {
    Set::new(|n: u64| exists|i: int| 0 <= i < txs.len() && txs[i].nonce == n)
}

/// The shard a sender's transactions belong to: the first byte of the
/// SHA-256 digest of its identity, modulo the shard count.
pub open spec fn shard_of(sender: Seq<char>) -> nat {
    (sha256_of(encode_utf8(sender))[0] as nat) % (NUM_SHARDS as nat)
}

/// A shard's blocks form a hash chain from a genesis block.
pub open spec fn chain_ok(blocks: Seq<Block>, shard: u64) -> bool {
    &&& blocks.len() >= 1
    &&& blocks[0].previous_hash@ == "0"@
    &&& forall|i: int|
        0 <= i < blocks.len() ==> {
            &&& (#[trigger] blocks[i]).index == i
            &&& blocks[i].shard_id == Some(shard)
            &&& blocks[i].hash_is_valid()
        }
    &&& forall|i: int|
        1 <= i < blocks.len() ==> (#[trigger] blocks[i]).previous_hash@ == blocks[i - 1].hash@
}

impl Blockchain {
    pub open spec fn shard_blocks(&self, shard: int) -> Seq<Block> {
        if shard == 0 {
            self.lock_shard@
        } else {
            self.vpp_shard@
        }
    }

    pub open spec fn well_formed(&self) -> bool {
        &&& chain_ok(self.lock_shard@, 0)
        &&& chain_ok(self.vpp_shard@, 1)
        &&& self.used_nonces@.finite()
    }

    /// Why `add_block` would refuse this batch, if it would.
    pub open spec fn refusal(&self, txs: Seq<Transaction>, shard_id: usize) -> Option<AdmissionError> {
        match admission(self.used_nonces@, self.public_keys@, txs) {
            Some(e) => Some(e),
            None => if shard_id >= NUM_SHARDS {
                Some(AdmissionError::InvalidShard)
            } else {
                None
            },
        }
    }

    /// The block that an accepted batch appends to `shard`, given the shard
    /// as it was before.
    pub open spec fn is_next_block(
        before: Seq<Block>,
        b: Block,
        txs: Seq<Transaction>,
        shard: usize,
    ) -> bool {
        &&& b.index == before.len()
        &&& b.previous_hash@ == before.last().hash@
        &&& b.transactions@ == txs
        &&& b.shard_id == Some(shard as u64)
        &&& b.hash_is_valid()
    }
}

/// The nonces of the first `k` transactions of a batch.
pub(crate) open spec fn nonces_before(txs: Seq<Transaction>, k: int) -> Set<u64> {
    Set::new(|n: u64| exists|i: int| 0 <= i < k && txs[i].nonce == n)
}

pub(crate) proof fn lemma_nonces_step(txs: Seq<Transaction>, k: int)
    requires
        0 <= k < txs.len(),
    ensures
        nonces_before(txs, k + 1) == nonces_before(txs, k).insert(txs[k].nonce),
{
    assert forall|n: u64| #[trigger] nonces_before(txs, k + 1).contains(n) implies nonces_before(
        txs,
        k,
    ).insert(txs[k].nonce).contains(n) by {
        let i = choose|i: int| 0 <= i < k + 1 && txs[i].nonce == n;
        if i < k {
            assert(nonces_before(txs, k).contains(n));
        }
    }
    assert forall|n: u64| #[trigger] nonces_before(txs, k).insert(txs[k].nonce).contains(n) implies nonces_before(
        txs,
        k + 1,
    ).contains(n) by {
        if n != txs[k].nonce {
            let i = choose|i: int| 0 <= i < k && txs[i].nonce == n;
            assert(0 <= i < k + 1 && txs[i].nonce == n);
        } else {
            assert(0 <= k < k + 1 && txs[k].nonce == n);
        }
    }
    assert(nonces_before(txs, k + 1) =~= nonces_before(txs, k).insert(txs[k].nonce));
}

proof fn lemma_nonces_before_size(txs: Seq<Transaction>, k: int)
    requires
        0 <= k <= txs.len(),
    ensures
        nonces_before(txs, k).finite(),
        nonces_before(txs, k).len() <= k,
    decreases k,
{
    if k == 0 {
        assert(nonces_before(txs, 0) =~= Set::<u64>::empty());
    } else {
        lemma_nonces_before_size(txs, k - 1);
        lemma_nonces_step(txs, k - 1);
    }
}

/// The nonces of a batch form a finite set no larger than the batch.
pub proof fn lemma_nonce_set_size(txs: Seq<Transaction>)
    ensures
        nonce_set(txs).finite(),
        nonce_set(txs).len() <= txs.len(),
{
    lemma_nonces_before_size(txs, txs.len() as int);
    assert(nonces_before(txs, txs.len() as int) =~= nonce_set(txs));
}

impl Blockchain {
    /// A ledger whose two shards each hold a genesis block, with no nonce
    /// used and no key or validator registered; `None` when the clock cannot
    /// be read as a date.
    pub fn new() -> (r: Option<Blockchain>)
        ensures
            r matches Some(c) ==> {
                &&& c.well_formed()
                &&& c.lock_shard@.len() == 1
                &&& c.vpp_shard@.len() == 1
                &&& c.validators@.len() == 0
                &&& c.stakes@.len() == 0
                &&& c.used_nonces@ == Set::<u64>::empty()
                &&& c.public_keys@.len() == 0
                &&& c.lock_shard@[0].transactions@.len() == 0
                &&& c.vpp_shard@[0].transactions@.len() == 0
            },
    {
        broadcast use vstd::string::to_string_from_display_ensures_for_str;
        broadcast use vstd::std_specs::hash::group_hash_axioms;

        let lock_genesis = match Block::new(0, Vec::new(), "0".to_string(), Some(0)) {
            Some(b) => b,
            None => return None,
        };
        let vpp_genesis = match Block::new(0, Vec::new(), "0".to_string(), Some(1)) {
            Some(b) => b,
            None => return None,
        };
        let mut lock_shard: Vec<Block> = Vec::new();
        lock_shard.push(lock_genesis);
        let mut vpp_shard: Vec<Block> = Vec::new();
        vpp_shard.push(vpp_genesis);
        Some(
            Blockchain {
                lock_shard,
                vpp_shard,
                validators: Vec::new(),
                stakes: Vec::new(),
                used_nonces: HashSet::new(),
                public_keys: Vec::new(),
            },
        )
    }

    /// Records `key` as the verification key of `identity`, replacing any
    /// earlier one.
    pub fn register_public_key(&mut self, identity: Address, key: Vec<u8>)
        ensures
            final(self).public_keys@ == old(self).public_keys@.push(
                KeyEntry { identity, key },
            ),
            forall|id: Seq<char>|
                key_for(final(self).public_keys@, id) == if id == identity@ {
                    Some(key@)
                } else {
                    key_for(old(self).public_keys@, id)
                },
            final(self).lock_shard@ == old(self).lock_shard@,
            final(self).vpp_shard@ == old(self).vpp_shard@,
            final(self).used_nonces@ == old(self).used_nonces@,
            final(self).validators@ == old(self).validators@,
            final(self).stakes@ == old(self).stakes@,
    {
        self.public_keys.push(KeyEntry { identity, key });
        assert(self.public_keys@.drop_last() =~= old(self).public_keys@);
    }

    /// Adds a validator with its stake weight.
    pub fn register_validator(&mut self, identity: Address, stake: u64)
        ensures
            final(self).validators@ == old(self).validators@.push(identity),
            final(self).stakes@ == old(self).stakes@.push(StakeEntry { identity, stake }),
            final(self).lock_shard@ == old(self).lock_shard@,
            final(self).vpp_shard@ == old(self).vpp_shard@,
            final(self).used_nonces@ == old(self).used_nonces@,
            final(self).public_keys@ == old(self).public_keys@,
    {
        let copy = identity.clone();
        self.validators.push(copy);
        self.stakes.push(StakeEntry { identity, stake });
    }

    /// The blocks of a shard, oldest first.
    pub fn shard(&self, shard_id: usize) -> (r: Option<&Vec<Block>>)
        ensures
            shard_id < NUM_SHARDS ==> r == Some(
                if shard_id == 0 {
                    &self.lock_shard
                } else {
                    &self.vpp_shard
                },
            ),
            shard_id >= NUM_SHARDS ==> r is None,
    {
        if shard_id == 0 {
            Some(&self.lock_shard)
        } else if shard_id == 1 {
            Some(&self.vpp_shard)
        } else {
            None
        }
    }

    /// The shard that `sender`'s transactions belong to.
    pub fn assign_shard(&self, sender: &str) -> (r: usize)
        ensures
            r == shard_of(sender@),
            r < NUM_SHARDS,
    {
        let digest = sha256(sender.as_bytes());
        (digest[0] as usize) % NUM_SHARDS
    }

    /// Consumes `nonce`: succeeds, and records it, only if it was not
    /// recorded before.
    pub fn validate_nonce(&mut self, nonce: u64) -> (r: bool)
        ensures
            r == !old(self).used_nonces@.contains(nonce),
            final(self).used_nonces@ == old(self).used_nonces@.insert(nonce),
            old(self).used_nonces@.finite() ==> final(self).used_nonces@.finite()
                && final(self).used_nonces@.len() == old(self).used_nonces@.len() + if r {
                1int
            } else {
                0int
            },
            final(self).lock_shard@ == old(self).lock_shard@,
            final(self).vpp_shard@ == old(self).vpp_shard@,
            final(self).public_keys@ == old(self).public_keys@,
            final(self).validators@ == old(self).validators@,
            final(self).stakes@ == old(self).stakes@,
    {
        broadcast use vstd::std_specs::hash::group_hash_axioms;

        self.used_nonces.insert(nonce)
    }

    /// Whether the gas limit and the token amount are both positive.
    pub fn validate_transaction(&self, transaction: &Transaction) -> (r: bool)
        ensures
            r == is_valid_transaction(*transaction),
    {
        transaction.gas_limit > 0 && transaction.token.amount() > 0
    }

    /// The position of the key in force for `id`.
    fn find_key(&self, id: &String) -> (r: Option<usize>)
        ensures
            match r {
                None => key_for(self.public_keys@, id@) is None,
                Some(k) => k < self.public_keys@.len() && key_for(self.public_keys@, id@) == Some(
                    self.public_keys@[k as int].key@,
                ),
            },
    {
        let mut i: usize = self.public_keys.len();
        assert(self.public_keys@.subrange(0, i as int) =~= self.public_keys@);
        while i > 0
            invariant
                i <= self.public_keys@.len(),
                key_for(self.public_keys@, id@) == key_for(
                    self.public_keys@.subrange(0, i as int),
                    id@,
                ),
            decreases i,
        {
            let ghost prefix = self.public_keys@.subrange(0, i as int);
            assert(prefix.drop_last() =~= self.public_keys@.subrange(0, i - 1));
            if self.public_keys[i - 1].identity == *id {
                return Some(i - 1);
            }
            i = i - 1;
        }
        None
    }

    /// Whether `t` carries a valid signature by its sender's registered key.
    pub fn verify_signature(&self, t: &Transaction) -> (r: bool)
        ensures
            r == signature_ok(self.public_keys@, *t),
    {
        match self.find_key(&t.sender) {
            None => false,
            Some(k) => match hex_decode(t.signature.as_str()) {
                None => false,
                Some(sig) => {
                    let msg = t.signed_message();
                    p256_verify(self.public_keys[k].key.as_slice(), msg.as_slice(), sig.as_slice())
                },
            },
        }
    }

    /// Whether every transaction of the batch is validly signed.
    pub fn batch_verify_signatures(&self, transactions: &Vec<Transaction>) -> (r: bool)
        ensures
            r == all_signed(self.public_keys@, transactions@),
    {
        let mut i: usize = 0;
        while i < transactions.len()
            invariant
                i <= transactions@.len(),
                forall|j: int| 0 <= j < i ==> signature_ok(self.public_keys@, #[trigger] transactions@[j]),
            decreases transactions@.len() - i,
        {
            if !self.verify_signature(&transactions[i]) {
                return false;
            }
            i = i + 1;
        }
        true
    }

    /// Whether no nonce of the batch was used before or occurs twice in it,
    /// without recording anything.
    pub fn check_nonces(&self, transactions: &Vec<Transaction>) -> (r: bool)
        ensures
            r == replay_free(self.used_nonces@, transactions@),
    {
        broadcast use vstd::std_specs::hash::group_hash_axioms;

        let ghost used = self.used_nonces@;
        let ghost txs = transactions@;
        let mut pending: HashSet<u64> = HashSet::new();
        let mut i: usize = 0;
        assert(pending@ =~= nonces_before(txs, 0));
        while i < transactions.len()
            invariant
                i <= txs.len(),
                txs == transactions@,
                used == self.used_nonces@,
                pending@ == nonces_before(txs, i as int),
                forall|j: int| 0 <= j < i ==> !used.contains(#[trigger] txs[j].nonce),
                forall|j: int, k: int|
                    #![trigger txs[j], txs[k]]
                    0 <= j < k < i ==> txs[j].nonce != txs[k].nonce,
            decreases txs.len() - i,
        {
            let n = transactions[i].nonce;
            if self.used_nonces.contains(&n) {
                return false;
            }
            if pending.contains(&n) {
                proof {
                    let j = choose|j: int| 0 <= j < i && txs[j].nonce == n;
                    assert(txs[j].nonce == txs[i as int].nonce);
                }
                return false;
            }
            proof {
                assert forall|j: int| 0 <= j < i implies txs[j].nonce != n by {
                    if txs[j].nonce == n {
                        assert(nonces_before(txs, i as int).contains(n));
                    }
                }
                lemma_nonces_step(txs, i as int);
            }
            pending.insert(n);
            i = i + 1;
        }
        true
    }

    /// Whether every transaction of the batch is valid.
    pub fn check_validity(&self, transactions: &Vec<Transaction>) -> (r: bool)
        ensures
            r == all_valid(transactions@),
    {
        let mut i: usize = 0;
        while i < transactions.len()
            invariant
                i <= transactions@.len(),
                forall|j: int| 0 <= j < i ==> is_valid_transaction(#[trigger] transactions@[j]),
            decreases transactions@.len() - i,
        {
            if !self.validate_transaction(&transactions[i]) {
                return false;
            }
            i = i + 1;
        }
        true
    }

    /// Why `add_block` would refuse this batch, if it would.
    pub fn refusal_of(&self, transactions: &Vec<Transaction>, shard_id: usize) -> (r: Option<
        AdmissionError,
    >)
        ensures
            r == self.refusal(transactions@, shard_id),
    {
        if !self.batch_verify_signatures(transactions) {
            Some(AdmissionError::InvalidSignature)
        } else if !self.check_nonces(transactions) {
            Some(AdmissionError::ReplayedNonce)
        } else if !self.check_validity(transactions) {
            Some(AdmissionError::InvalidTransaction)
        } else if shard_id >= NUM_SHARDS {
            Some(AdmissionError::InvalidShard)
        } else {
            None
        }
    }

    /// Records every nonce of the batch.
    fn commit_nonces(&mut self, transactions: &Vec<Transaction>)
        ensures
            final(self).used_nonces@ == old(self).used_nonces@.union(nonce_set(transactions@)),
            final(self).lock_shard@ == old(self).lock_shard@,
            final(self).vpp_shard@ == old(self).vpp_shard@,
            final(self).public_keys@ == old(self).public_keys@,
            final(self).validators@ == old(self).validators@,
            final(self).stakes@ == old(self).stakes@,
    {
        let ghost txs = transactions@;
        let mut i: usize = 0;
        assert(old(self).used_nonces@.union(nonces_before(txs, 0)) =~= old(self).used_nonces@);
        while i < transactions.len()
            invariant
                i <= txs.len(),
                txs == transactions@,
                self.used_nonces@ == old(self).used_nonces@.union(nonces_before(txs, i as int)),
                self.lock_shard@ == old(self).lock_shard@,
                self.vpp_shard@ == old(self).vpp_shard@,
                self.public_keys@ == old(self).public_keys@,
                self.validators@ == old(self).validators@,
                self.stakes@ == old(self).stakes@,
            decreases txs.len() - i,
        {
            proof {
                lemma_nonces_step(txs, i as int);
            }
            self.validate_nonce(transactions[i].nonce);
            assert(self.used_nonces@ =~= old(self).used_nonces@.union(nonces_before(txs, i + 1)));
            i = i + 1;
        }
        assert(nonces_before(txs, txs.len() as int) =~= nonce_set(txs));
    }
}


/// The stake policy accepts every block built from a batch of valid
/// transactions.
proof fn lemma_stake_policy_accepts(txs: Seq<Transaction>)
    requires
        all_valid(txs),
    ensures
        forall|b: Block| b.transactions@ == txs ==> #[trigger] ProofOfStake.accepts(&b),
{
    assert forall|b: Block| b.transactions@ == txs implies #[trigger] ProofOfStake.accepts(&b) by {
        assert forall|i: int| 0 <= i < b.transactions@.len() implies #[trigger] b.transactions@[i].gas_limit
            > 0 by {
            assert(is_valid_transaction(txs[i]));
        }
    }
}

/// A well-formed chain stays one when its next block is appended.
proof fn lemma_chain_extends(before: Seq<Block>, b: Block, shard: u64)
    requires
        chain_ok(before, shard),
        b.index == before.len(),
        b.previous_hash@ == before.last().hash@,
        b.shard_id == Some(shard),
        b.hash_is_valid(),
    ensures
        chain_ok(before.push(b), shard),
        before.push(b).subrange(0, before.len() as int) == before,
{
    let after = before.push(b);
    assert(after.subrange(0, before.len() as int) =~= before);
    assert forall|i: int| 1 <= i < after.len() implies (#[trigger] after[i]).previous_hash@
        == after[i - 1].hash@ by {
        if i < before.len() {
            assert(after[i] == before[i]);
        }
    }
}

impl Blockchain {
    /// The block that would follow the last one of an existing shard.
    fn next_block(&self, transactions: Vec<Transaction>, shard_id: usize, timestamp: String) -> (r:
        Block)
        requires
            self.well_formed(),
            shard_id < NUM_SHARDS,
        ensures
            Blockchain::is_next_block(
                self.shard_blocks(shard_id as int),
                r,
                transactions@,
                shard_id,
            ),
            r.timestamp@ == timestamp@,
    {
        let blocks = if shard_id == 0 {
            &self.lock_shard
        } else {
            &self.vpp_shard
        };
        let last = &blocks[blocks.len() - 1];
        Block::with_timestamp(
            last.index + 1,
            timestamp,
            transactions,
            last.hash.clone(),
            Some(shard_id as u64),
        )
    }

    /// Appends a block to a shard that exists.
    fn push_block(&mut self, shard_id: usize, block: Block)
        requires
            shard_id < NUM_SHARDS,
        ensures
            final(self).shard_blocks(shard_id as int) == old(self).shard_blocks(shard_id as int).push(
                block,
            ),
            final(self).shard_blocks(1 - shard_id) == old(self).shard_blocks(1 - shard_id),
            final(self).used_nonces@ == old(self).used_nonces@,
            final(self).public_keys@ == old(self).public_keys@,
            final(self).validators@ == old(self).validators@,
            final(self).stakes@ == old(self).stakes@,
    {
        if shard_id == 0 {
            self.lock_shard.push(block);
        } else {
            self.vpp_shard.push(block);
        }
    }

    /// Admits a batch into a shard with a block stamped `timestamp`: the
    /// batch is checked, a block is built on the shard's last block, and it
    /// is appended, and its nonces recorded, only if `policy` accepts it.
    /// Any refusal leaves the ledger as it was.
    pub fn append_block<C: Consensus>(
        &mut self,
        policy: &C,
        transactions: Vec<Transaction>,
        shard_id: usize,
        timestamp: String,
    ) -> (r: Result<(), AdmissionError>)
        requires
            old(self).well_formed(),
        ensures
            final(self).well_formed(),
            final(self).public_keys@ == old(self).public_keys@,
            final(self).validators@ == old(self).validators@,
            final(self).stakes@ == old(self).stakes@,
            final(self).used_nonces@.len() <= old(self).used_nonces@.len() + nonce_set(
                transactions@,
            ).len(),
            old(self).refusal(transactions@, shard_id) is Some ==> r == Err::<(), AdmissionError>(
                old(self).refusal(transactions@, shard_id).unwrap(),
            ),
            old(self).refusal(transactions@, shard_id) is None ==> (r is Ok || r == Err::<
                (),
                AdmissionError,
            >(AdmissionError::ConsensusRejected)),
            r is Err ==> {
                &&& final(self).lock_shard@ == old(self).lock_shard@
                &&& final(self).vpp_shard@ == old(self).vpp_shard@
                &&& final(self).used_nonces@ == old(self).used_nonces@
            },
            r == Err::<(), AdmissionError>(AdmissionError::ConsensusRejected) ==> exists|b: Block|
                {
                    &&& Blockchain::is_next_block(
                        old(self).shard_blocks(shard_id as int),
                        b,
                        transactions@,
                        shard_id,
                    )
                    &&& b.timestamp@ == timestamp@
                    &&& !policy.accepts(&b)
                },
            r is Ok ==> {
                let before = old(self).shard_blocks(shard_id as int);
                let after = final(self).shard_blocks(shard_id as int);
                &&& after.len() == before.len() + 1
                &&& after.subrange(0, before.len() as int) == before
                &&& Blockchain::is_next_block(before, after.last(), transactions@, shard_id)
                &&& after.last().timestamp@ == timestamp@
                &&& policy.accepts(&after.last())
                &&& final(self).shard_blocks(1 - shard_id) == old(self).shard_blocks(1 - shard_id)
                &&& final(self).used_nonces@ == old(self).used_nonces@.union(
                    nonce_set(transactions@),
                )
            },
    {
        match self.refusal_of(&transactions, shard_id) {
            Some(e) => {
                return Err(e);
            },
            None => {},
        }
        let ghost before = self.shard_blocks(shard_id as int);
        let block = self.next_block(transactions, shard_id, timestamp);
        if !policy.validate_block(&block) {
            return Err(AdmissionError::ConsensusRejected);
        }
        self.commit_nonces(&block.transactions);
        self.push_block(shard_id, block);
        proof {
            lemma_chain_extends(before, block, shard_id as u64);
            lemma_nonce_set_size(block.transactions@);
            lemma_len_union(old(self).used_nonces@, nonce_set(block.transactions@));
        }
        Ok(())
    }

    /// Admits a batch into a shard with a block stamped with the current
    /// time, appended only if `policy` accepts it; any refusal, or a clock
    /// that cannot be read, leaves the ledger as it was.
    pub fn add_block_with<C: Consensus>(
        &mut self,
        policy: &C,
        transactions: Vec<Transaction>,
        shard_id: usize,
    ) -> (r: Result<(), AdmissionError>)
        requires
            old(self).well_formed(),
        ensures
            final(self).well_formed(),
            final(self).public_keys@ == old(self).public_keys@,
            final(self).validators@ == old(self).validators@,
            final(self).stakes@ == old(self).stakes@,
            final(self).used_nonces@.len() <= old(self).used_nonces@.len() + nonce_set(
                transactions@,
            ).len(),
            old(self).refusal(transactions@, shard_id) is Some ==> r == Err::<(), AdmissionError>(
                old(self).refusal(transactions@, shard_id).unwrap(),
            ),
            old(self).refusal(transactions@, shard_id) is None ==> (r is Ok || r == Err::<
                (),
                AdmissionError,
            >(AdmissionError::ConsensusRejected) || r == Err::<(), AdmissionError>(
                AdmissionError::ClockUnavailable,
            )),
            r is Err ==> {
                &&& final(self).lock_shard@ == old(self).lock_shard@
                &&& final(self).vpp_shard@ == old(self).vpp_shard@
                &&& final(self).used_nonces@ == old(self).used_nonces@
            },
            r == Err::<(), AdmissionError>(AdmissionError::ConsensusRejected) ==> exists|b: Block|
                {
                    &&& Blockchain::is_next_block(
                        old(self).shard_blocks(shard_id as int),
                        b,
                        transactions@,
                        shard_id,
                    )
                    &&& !policy.accepts(&b)
                },
            r is Ok ==> {
                let before = old(self).shard_blocks(shard_id as int);
                let after = final(self).shard_blocks(shard_id as int);
                &&& after.len() == before.len() + 1
                &&& after.subrange(0, before.len() as int) == before
                &&& Blockchain::is_next_block(before, after.last(), transactions@, shard_id)
                &&& policy.accepts(&after.last())
                &&& final(self).shard_blocks(1 - shard_id) == old(self).shard_blocks(1 - shard_id)
                &&& final(self).used_nonces@ == old(self).used_nonces@.union(
                    nonce_set(transactions@),
                )
            },
    {
        match self.refusal_of(&transactions, shard_id) {
            Some(e) => {
                return Err(e);
            },
            None => {},
        }
        match current_timestamp() {
            Some(timestamp) => self.append_block(policy, transactions, shard_id, timestamp),
            None => Err(AdmissionError::ClockUnavailable),
        }
    }

    /// Admits a batch into a shard under the stake policy: when `refusal`
    /// names a reason, that reason is returned; otherwise the block is
    /// appended and its nonces recorded, unless the clock cannot be read.
    /// Any error leaves the ledger as it was.
    pub fn add_block(&mut self, transactions: Vec<Transaction>, shard_id: usize) -> (r: Result<
        (),
        AdmissionError,
    >)
        requires
            old(self).well_formed(),
        ensures
            final(self).well_formed(),
            final(self).public_keys@ == old(self).public_keys@,
            final(self).validators@ == old(self).validators@,
            final(self).stakes@ == old(self).stakes@,
            final(self).used_nonces@.len() <= old(self).used_nonces@.len() + nonce_set(
                transactions@,
            ).len(),
            old(self).refusal(transactions@, shard_id) is None ==> (r is Ok || r == Err::<
                (),
                AdmissionError,
            >(AdmissionError::ClockUnavailable)),
            old(self).refusal(transactions@, shard_id) is Some ==> r == Err::<(), AdmissionError>(
                old(self).refusal(transactions@, shard_id).unwrap(),
            ),
            r is Err ==> {
                &&& final(self).lock_shard@ == old(self).lock_shard@
                &&& final(self).vpp_shard@ == old(self).vpp_shard@
                &&& final(self).used_nonces@ == old(self).used_nonces@
            },
            r is Ok ==> {
                let before = old(self).shard_blocks(shard_id as int);
                let after = final(self).shard_blocks(shard_id as int);
                &&& after.len() == before.len() + 1
                &&& after.subrange(0, before.len() as int) == before
                &&& Blockchain::is_next_block(before, after.last(), transactions@, shard_id)
                &&& final(self).shard_blocks(1 - shard_id) == old(self).shard_blocks(1 - shard_id)
                &&& final(self).used_nonces@ == old(self).used_nonces@.union(
                    nonce_set(transactions@),
                )
            },
    {
        let ghost txs = transactions@;
        let r = self.add_block_with(&ProofOfStake, transactions, shard_id);
        proof {
            if old(self).refusal(txs, shard_id) is None {
                lemma_stake_policy_accepts(txs);
                if r == Err::<(), AdmissionError>(AdmissionError::ConsensusRejected) {
                    let b = choose|b: Block|
                        {
                            &&& Blockchain::is_next_block(
                                old(self).shard_blocks(shard_id as int),
                                b,
                                txs,
                                shard_id,
                            )
                            &&& !ProofOfStake.accepts(&b)
                        };
                    assert(ProofOfStake.accepts(&b));
                }
            }
        }
        r
    }
}

} // verus!
