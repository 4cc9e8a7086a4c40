//! Consensus parsing of raw blocks, provided by `zebra-chain`.
//!
//! The functions here that carry `external_body` are believed, not proved.
//! Each reads one fact out of a block or transaction that `zebra-chain`
//! decoded; the fact is given a name so that contracts elsewhere can speak of
//! it. [`read_parsed_block`] gathers the facts into plain values.

use std::sync::Arc;
use vstd::prelude::*;
use zebra_chain::block::Block;
use zebra_chain::serialization::{SerializationError, ZcashDeserializeInto, ZcashSerialize};
use zebra_chain::transaction::Transaction;
use zebra_chain::transparent::Input;

use crate::artifacts::{views, TxOutView};

verus! {

/// A block decoded by `zebra-chain`.
#[verifier::external_type_specification]
#[verifier::external_body]
pub struct ExBlock(zebra_chain::block::Block);

/// A transaction decoded by `zebra-chain`.
#[verifier::external_type_specification]
#[verifier::external_body]
pub struct ExTransaction(zebra_chain::transaction::Transaction);

/// The reason `zebra-chain` gives for refusing a block.
#[verifier::external_type_specification]
#[verifier::external_body]
pub struct ExSerializationError(zebra_chain::serialization::SerializationError);

/// The reason a consensus encoder gives for failing.
#[verifier::external_type_specification]
#[verifier::external_body]
pub struct ExIoError(std::io::Error);

/// Sapling output of a parsed transaction.
#[derive(Clone, Copy, Debug, PartialEq, Eq)]
pub struct ParsedSaplingOutput {
    pub cmu: [u8; 32],
    pub ephemeral_key: [u8; 32],
    pub enc_ciphertext: [u8; 580],
}

/// Orchard or Ironwood action of a parsed transaction.
#[derive(Clone, Copy, Debug, PartialEq, Eq)]
pub struct ParsedAction {
    pub nullifier: [u8; 32],
    pub cmx: [u8; 32],
    pub ephemeral_key: [u8; 32],
    pub enc_ciphertext: [u8; 580],
}

/// Transparent input of a parsed transaction.
#[derive(Clone, Copy, Debug, PartialEq, Eq)]
pub enum ParsedTransparentInput {
    /// Spends an output of an earlier transaction.
    PrevOut { prevout_txid: [u8; 32], prevout_index: u32 },
    /// Mints the block reward.
    Coinbase,
}

/// Transparent output of a parsed transaction.
#[derive(Debug, PartialEq, Eq)]
pub struct ParsedTransparentOutput {
    pub value: u64,
    pub lock_script: Vec<u8>,
}

impl View for ParsedTransparentOutput {
    type V = TxOutView;

    open spec fn view(&self) -> TxOutView {
        TxOutView { value: self.value, script_pub_key: self.lock_script@ }
    }
}

/// Plain values that compact-block construction reads from one transaction.
#[derive(Debug, PartialEq, Eq)]
pub struct ParsedTransaction {
    pub txid: [u8; 32],
    pub sapling_nullifiers: Vec<[u8; 32]>,
    pub sapling_outputs: Vec<ParsedSaplingOutput>,
    pub orchard_actions: Vec<ParsedAction>,
    pub ironwood_actions: Vec<ParsedAction>,
    pub inputs: Vec<ParsedTransparentInput>,
    pub outputs: Vec<ParsedTransparentOutput>,
    /// Consensus encoding, or why it failed; absent where it was not asked for.
    pub encoding: Option<Result<Vec<u8>, String>>,
}

/// Mathematical form of the parsed fields of a [`ParsedTransaction`].
#[verifier::ext_equal]
pub struct ParsedTransactionView {
    pub txid: [u8; 32],
    pub sapling_nullifiers: Seq<[u8; 32]>,
    pub sapling_outputs: Seq<ParsedSaplingOutput>,
    pub orchard_actions: Seq<ParsedAction>,
    pub ironwood_actions: Seq<ParsedAction>,
    pub inputs: Seq<ParsedTransparentInput>,
    pub outputs: Seq<TxOutView>,
}

impl View for ParsedTransaction {
    type V = ParsedTransactionView;

    open spec fn view(&self) -> ParsedTransactionView {
        ParsedTransactionView {
            txid: self.txid,
            sapling_nullifiers: self.sapling_nullifiers@,
            sapling_outputs: self.sapling_outputs@,
            orchard_actions: self.orchard_actions@,
            ironwood_actions: self.ironwood_actions@,
            inputs: self.inputs@,
            outputs: views(self.outputs@),
        }
    }
}

/// Plain values that canonical construction reads from one block.
#[derive(Debug, PartialEq, Eq)]
pub struct ParsedBlock {
    pub coinbase_height: Option<u32>,
    pub hash: [u8; 32],
    pub previous_block_hash: [u8; 32],
    pub time_seconds: i64,
    pub transactions: Vec<ParsedTransaction>,
    /// Consensus encoding of the header, or why it failed.
    pub header_encoding: Result<Vec<u8>, String>,
}

/// Mathematical form of the parsed fields of a [`ParsedBlock`].
#[verifier::ext_equal]
pub struct ParsedBlockView {
    pub coinbase_height: Option<u32>,
    pub hash: [u8; 32],
    pub previous_block_hash: [u8; 32],
    pub time_seconds: i64,
    pub transactions: Seq<ParsedTransactionView>,
}

impl View for ParsedBlock {
    type V = ParsedBlockView;

    open spec fn view(&self) -> ParsedBlockView {
        ParsedBlockView {
            coinbase_height: self.coinbase_height,
            hash: self.hash,
            previous_block_hash: self.previous_block_hash,
            time_seconds: self.time_seconds,
            transactions: views(self.transactions@),
        }
    }
}

/// The block that raw bytes decode to, where they decode.
pub uninterp spec fn decoded_block(raw_block_bytes: Seq<u8>) -> Option<Block>;

/// Height in a block's coinbase input, where it has one.
pub uninterp spec fn block_coinbase_height(block: Block) -> Option<u32>;

/// Hash of a block's header.
pub uninterp spec fn block_header_hash(block: Block) -> [u8; 32];

/// Parent hash in a block's header.
pub uninterp spec fn block_parent_hash(block: Block) -> [u8; 32];

/// Timestamp in a block's header, in seconds since the Unix epoch.
pub uninterp spec fn block_header_time(block: Block) -> i64;

/// Consensus encoding of a block's header, where it can be encoded.
pub uninterp spec fn block_header_encoding(block: Block) -> Option<Seq<u8>>;

/// Transactions of a block, in block order.
pub uninterp spec fn block_transactions(block: Block) -> Seq<Transaction>;

/// Identifier of a transaction.
pub uninterp spec fn transaction_txid(transaction: Transaction) -> [u8; 32];

/// Nullifiers a transaction's Sapling spends reveal.
pub uninterp spec fn transaction_sapling_nullifiers(transaction: Transaction) -> Seq<[u8; 32]>;

/// Sapling outputs of a transaction.
pub uninterp spec fn transaction_sapling_outputs(transaction: Transaction) -> Seq<ParsedSaplingOutput>;

/// Orchard actions of a transaction.
pub uninterp spec fn transaction_orchard_actions(transaction: Transaction) -> Seq<ParsedAction>;

/// Ironwood actions of a transaction.
pub uninterp spec fn transaction_ironwood_actions(transaction: Transaction) -> Seq<ParsedAction>;

/// Transparent inputs of a transaction.
pub uninterp spec fn transaction_inputs(transaction: Transaction) -> Seq<ParsedTransparentInput>;

/// Transparent outputs of a transaction.
pub uninterp spec fn transaction_outputs(transaction: Transaction) -> Seq<TxOutView>;

/// Consensus encoding of a transaction, where it can be encoded.
pub uninterp spec fn transaction_encoding(transaction: Transaction) -> Option<Seq<u8>>;

/// Whether a block came out of the decoder rather than being assembled by hand.
pub open spec fn is_decoded_block(block: Block) -> bool {
    exists|raw_block_bytes: Seq<u8>| #[trigger] decoded_block(raw_block_bytes) == Some(block)
}

/// Whether a transaction came out of the decoder as part of some block.
pub open spec fn is_decoded_transaction(transaction: Transaction) -> bool {
    exists|block: Block, i: int|
        is_decoded_block(block) && 0 <= i < block_transactions(block).len()
            && #[trigger] block_transactions(block)[i] == transaction
}

/// The plain values that a decoded transaction holds.
pub open spec fn transaction_facts_view(transaction: Transaction) -> ParsedTransactionView {
    ParsedTransactionView {
        txid: transaction_txid(transaction),
        sapling_nullifiers: transaction_sapling_nullifiers(transaction),
        sapling_outputs: transaction_sapling_outputs(transaction),
        orchard_actions: transaction_orchard_actions(transaction),
        ironwood_actions: transaction_ironwood_actions(transaction),
        inputs: transaction_inputs(transaction),
        outputs: transaction_outputs(transaction),
    }
}

/// The plain values that a decoded block holds.
pub open spec fn block_facts_view(block: Block) -> ParsedBlockView {
    ParsedBlockView {
        coinbase_height: block_coinbase_height(block),
        hash: block_header_hash(block),
        previous_block_hash: block_parent_hash(block),
        time_seconds: block_header_time(block),
        transactions: block_transactions(block).map_values(
            |transaction: Transaction| transaction_facts_view(transaction),
        ),
    }
}

/// Whether an encoding outcome is the one that `named` gives, whatever reason a failure carries.
pub open spec fn encoding_agrees(outcome: Result<Vec<u8>, String>, named: Option<Seq<u8>>) -> bool {
    match outcome {
        Ok(bytes) => named == Some(bytes@),
        Err(_) => named is None,
    }
}

/// Decodes raw bytes with `ZcashDeserializeInto::zcash_deserialize_into`.
///
/// Believed: the outcome depends on the bytes alone, and [`decoded_block`]
/// names the block, or none where the bytes are refused. Which refusal is
/// reported is left open.
#[verifier::external_body]
pub(crate) fn decode_block(raw_block_bytes: &[u8]) -> (decoded: Result<Block, SerializationError>)
    ensures
        match decoded {
            Ok(block) => decoded_block(raw_block_bytes@) == Some(block),
            Err(_) => decoded_block(raw_block_bytes@) is None,
        },
{
    raw_block_bytes.zcash_deserialize_into::<Block>()
}

/// Reads `Block::coinbase_height`.
///
/// Believed: the height is the one [`block_coinbase_height`] names.
#[verifier::external_body]
fn coinbase_height(block: &Block) -> (height: Option<u32>)
    ensures
        height == block_coinbase_height(*block),
{
    block.coinbase_height().map(|height| height.0)
}

/// Computes `Block::hash`.
///
/// Believed: the hash is the one [`block_header_hash`] names. A header whose
/// timestamp was not read from an encoded block can make the hash panic, so
/// only decoded blocks are admitted.
#[verifier::external_body]
fn header_hash(block: &Block) -> (hash: [u8; 32])
    requires
        is_decoded_block(*block),
    ensures
        hash == block_header_hash(*block),
{
    block.hash().0
}

/// Reads `Header::previous_block_hash`.
///
/// Believed: the hash is the one [`block_parent_hash`] names.
#[verifier::external_body]
fn parent_hash(block: &Block) -> (hash: [u8; 32])
    ensures
        hash == block_parent_hash(*block),
{
    block.header.previous_block_hash.0
}

/// Reads `Header::time` with `DateTime::timestamp`.
///
/// Believed: the timestamp is the one [`block_header_time`] names.
#[verifier::external_body]
fn header_time(block: &Block) -> (seconds: i64)
    ensures
        seconds == block_header_time(*block),
{
    block.header.time.timestamp()
}

/// Encodes a header with `ZcashSerialize::zcash_serialize_to_vec`.
///
/// Believed: the bytes are those [`block_header_encoding`] names, or none
/// where encoding fails. A header whose timestamp was not read from an encoded
/// block can make the encoder panic, so only decoded blocks are admitted.
#[verifier::external_body]
pub(crate) fn encode_header(block: &Block) -> (encoded: Result<Vec<u8>, std::io::Error>)
    requires
        is_decoded_block(*block),
    ensures
        match encoded {
            Ok(bytes) => block_header_encoding(*block) == Some(bytes@),
            Err(_) => block_header_encoding(*block) is None,
        },
{
    block.header.zcash_serialize_to_vec()
}

/// Shares the transactions of `Block::transactions`.
///
/// Believed: they are those [`block_transactions`] names, in order.
#[verifier::external_body]
pub(crate) fn transactions(block: &Block) -> (shared: Vec<Arc<Transaction>>)
    ensures
        shared@.len() == block_transactions(*block).len(),
        forall|i: int|
            0 <= i < shared@.len() ==> *(#[trigger] shared@[i]) == block_transactions(*block)[i],
{
    block.transactions.clone()
}

/// Computes `Transaction::hash`.
///
/// Believed: the identifier is the one [`transaction_txid`] names. Hashing
/// panics on a transaction that cannot be encoded, so only decoded
/// transactions are admitted.
#[verifier::external_body]
fn txid(transaction: &Transaction) -> (id: [u8; 32])
    requires
        is_decoded_transaction(*transaction),
    ensures
        id == transaction_txid(*transaction),
{
    transaction.hash().0
}

/// Reads the nullifiers of `Transaction::sapling_spends_per_anchor`.
///
/// Believed: they are those [`transaction_sapling_nullifiers`] names, in order.
#[verifier::external_body]
fn sapling_nullifiers(transaction: &Transaction) -> (nullifiers: Vec<[u8; 32]>)
    ensures
        nullifiers@ == transaction_sapling_nullifiers(*transaction),
{
    transaction.sapling_spends_per_anchor().map(|spend| <[u8; 32]>::from(spend.nullifier)).collect()
}

/// Reads `Transaction::sapling_outputs`.
///
/// Believed: they are those [`transaction_sapling_outputs`] names, in order.
#[verifier::external_body]
fn sapling_outputs(transaction: &Transaction) -> (outputs: Vec<ParsedSaplingOutput>)
    ensures
        outputs@ == transaction_sapling_outputs(*transaction),
{
    transaction.sapling_outputs().map(|output| ParsedSaplingOutput {
        cmu: output.cm_u.to_bytes(),
        ephemeral_key: <[u8; 32]>::from(output.ephemeral_key),
        enc_ciphertext: output.enc_ciphertext.into(),
    }).collect()
}

/// Reads `Transaction::orchard_actions`.
///
/// Believed: they are those [`transaction_orchard_actions`] names, in order.
#[verifier::external_body]
fn orchard_actions(transaction: &Transaction) -> (actions: Vec<ParsedAction>)
    ensures
        actions@ == transaction_orchard_actions(*transaction),
{
    transaction.orchard_actions().map(|action| ParsedAction {
        nullifier: <[u8; 32]>::from(action.nullifier),
        cmx: <[u8; 32]>::from(action.cm_x),
        ephemeral_key: <[u8; 32]>::from(action.ephemeral_key),
        enc_ciphertext: action.enc_ciphertext.into(),
    }).collect()
}

/// Reads `Transaction::ironwood_actions`.
///
/// Believed: they are those [`transaction_ironwood_actions`] names, in order.
#[verifier::external_body]
fn ironwood_actions(transaction: &Transaction) -> (actions: Vec<ParsedAction>)
    ensures
        actions@ == transaction_ironwood_actions(*transaction),
{
    transaction.ironwood_actions().map(|action| ParsedAction {
        nullifier: <[u8; 32]>::from(action.nullifier),
        cmx: <[u8; 32]>::from(action.cm_x),
        ephemeral_key: <[u8; 32]>::from(action.ephemeral_key),
        enc_ciphertext: action.enc_ciphertext.into(),
    }).collect()
}

/// Reads `Transaction::inputs`.
///
/// Believed: they are those [`transaction_inputs`] names, in order.
#[verifier::external_body]
fn inputs(transaction: &Transaction) -> (inputs: Vec<ParsedTransparentInput>)
    ensures
        inputs@ == transaction_inputs(*transaction),
{
    transaction.inputs().iter().map(|input| match input {
        Input::PrevOut { outpoint, .. } => ParsedTransparentInput::PrevOut {
            prevout_txid: outpoint.hash.0,
            prevout_index: outpoint.index,
        },
        Input::Coinbase { .. } => ParsedTransparentInput::Coinbase,
    }).collect()
}

/// Reads `Transaction::outputs`.
///
/// Believed: they are those [`transaction_outputs`] names, in order.
#[verifier::external_body]
fn outputs(transaction: &Transaction) -> (outputs: Vec<ParsedTransparentOutput>)
    ensures
        views(outputs@) == transaction_outputs(*transaction),
{
    transaction.outputs().iter().map(|output| ParsedTransparentOutput {
        value: u64::from(output.value()),
        lock_script: output.lock_script.as_raw_bytes().to_vec(),
    }).collect()
}

/// Encodes a transaction with `ZcashSerialize::zcash_serialize_to_vec`.
///
/// Believed: the bytes are those [`transaction_encoding`] names, or none where
/// encoding fails.
#[verifier::external_body]
pub(crate) fn encode_transaction(transaction: &Transaction) -> (encoded: Result<Vec<u8>, std::io::Error>)
    requires
        is_decoded_transaction(*transaction),
    ensures
        match encoded {
            Ok(bytes) => transaction_encoding(*transaction) == Some(bytes@),
            Err(_) => transaction_encoding(*transaction) is None,
        },
{
    transaction.zcash_serialize_to_vec()
}

/// Gathers the plain values of one decoded transaction.
fn read_parsed_transaction(transaction: &Transaction, with_encoding: bool) -> (parsed:
    ParsedTransaction)
    requires
        is_decoded_transaction(*transaction),
    ensures
        parsed@ == transaction_facts_view(*transaction),
        parsed.encoding is Some <==> with_encoding,
        parsed.encoding matches Some(outcome) ==> encoding_agrees(
            outcome,
            transaction_encoding(*transaction),
        ),
{
    let encoding = if with_encoding {
        match encode_transaction(transaction) {
            Ok(bytes) => Some(Ok(bytes)),
            Err(source) => Some(Err(source.to_string())),
        }
    } else {
        None
    };
    ParsedTransaction {
        txid: txid(transaction),
        sapling_nullifiers: sapling_nullifiers(transaction),
        sapling_outputs: sapling_outputs(transaction),
        orchard_actions: orchard_actions(transaction),
        ironwood_actions: ironwood_actions(transaction),
        inputs: inputs(transaction),
        outputs: outputs(transaction),
        encoding,
    }
}

/// Gathers the plain values of one decoded block, with the encodings of its
/// transactions where they are asked for.
pub(crate) fn read_parsed_block(block: &Block, with_transaction_encodings: bool) -> (parsed:
    ParsedBlock)
    requires
        is_decoded_block(*block),
    ensures
        parsed@ == block_facts_view(*block),
        encoding_agrees(parsed.header_encoding, block_header_encoding(*block)),
        parsed.transactions@.len() == block_transactions(*block).len(),
        forall|i: int|
            #![trigger parsed.transactions@[i]]
            0 <= i < parsed.transactions@.len() ==> {
                &&& parsed.transactions@[i].encoding is Some <==> with_transaction_encodings
                &&& parsed.transactions@[i].encoding matches Some(outcome) ==> encoding_agrees(
                    outcome,
                    transaction_encoding(block_transactions(*block)[i]),
                )
            },
{
    let shared = transactions(block);
    let mut parsed: Vec<ParsedTransaction> = Vec::new();
    let mut i: usize = 0;
    while i < shared.len()
        invariant
            is_decoded_block(*block),
            0 <= i <= shared@.len(),
            shared@.len() == block_transactions(*block).len(),
            forall|j: int|
                0 <= j < shared@.len() ==> *(#[trigger] shared@[j]) == block_transactions(*block)[j],
            parsed@.len() == i,
            forall|j: int|
                #![trigger parsed@[j]]
                0 <= j < i ==> {
                    &&& parsed@[j]@ == transaction_facts_view(block_transactions(*block)[j])
                    &&& parsed@[j].encoding is Some <==> with_transaction_encodings
                    &&& parsed@[j].encoding matches Some(outcome) ==> encoding_agrees(
                        outcome,
                        transaction_encoding(block_transactions(*block)[j]),
                    )
                },
        decreases shared@.len() - i,
    {
        assert(is_decoded_transaction(*shared@[i as int])) by {
            assert(block_transactions(*block)[i as int] == *shared@[i as int]);
        }
        parsed.push(read_parsed_transaction(&shared[i], with_transaction_encodings));
        i += 1;
    }
    let header_encoding = match encode_header(block) {
        Ok(bytes) => Ok(bytes),
        Err(source) => Err(source.to_string()),
    };
    let parsed_block = ParsedBlock {
        coinbase_height: coinbase_height(block),
        hash: header_hash(block),
        previous_block_hash: parent_hash(block),
        time_seconds: header_time(block),
        transactions: parsed,
        header_encoding,
    };
    assert(parsed_block@.transactions =~= block_facts_view(*block).transactions);
    parsed_block
}

/// The facts of a transaction are those read from it, one by one.
pub proof fn law_transaction_facts_are_those_read(transaction: Transaction)
    ensures
        ({
            let facts = transaction_facts_view(transaction);
            &&& facts.txid == transaction_txid(transaction)
            &&& facts.sapling_nullifiers == transaction_sapling_nullifiers(transaction)
            &&& facts.sapling_outputs == transaction_sapling_outputs(transaction)
            &&& facts.orchard_actions == transaction_orchard_actions(transaction)
            &&& facts.ironwood_actions == transaction_ironwood_actions(transaction)
            &&& facts.inputs == transaction_inputs(transaction)
            &&& facts.outputs == transaction_outputs(transaction)
        }),
{
}

/// The facts of a block are those read from its header, and those of each of
/// its transactions at its place.
pub proof fn law_block_facts_are_those_read(block: Block, i: int)
    ensures
        ({
            let facts = block_facts_view(block);
            &&& facts.coinbase_height == block_coinbase_height(block)
            &&& facts.hash == block_header_hash(block)
            &&& facts.previous_block_hash == block_parent_hash(block)
            &&& facts.time_seconds == block_header_time(block)
            &&& facts.transactions.len() == block_transactions(block).len()
            &&& 0 <= i < facts.transactions.len() ==> facts.transactions[i]
                == transaction_facts_view(block_transactions(block)[i])
        }),
{
}

/// What is seen of a parsed transaction is what it holds, field by field.
pub proof fn law_parsed_transaction_is_seen_whole(parsed: ParsedTransaction, i: int)
    ensures
        parsed@.txid == parsed.txid,
        parsed@.sapling_nullifiers == parsed.sapling_nullifiers@,
        parsed@.sapling_outputs == parsed.sapling_outputs@,
        parsed@.orchard_actions == parsed.orchard_actions@,
        parsed@.ironwood_actions == parsed.ironwood_actions@,
        parsed@.inputs == parsed.inputs@,
        parsed@.outputs.len() == parsed.outputs@.len(),
        0 <= i < parsed.outputs@.len() ==> {
            &&& parsed@.outputs[i].value == parsed.outputs@[i].value
            &&& parsed@.outputs[i].script_pub_key == parsed.outputs@[i].lock_script@
        },
{
}

/// What is seen of a parsed block is what it holds, field by field.
pub proof fn law_parsed_block_is_seen_whole(parsed: ParsedBlock, i: int)
    ensures
        parsed@.coinbase_height == parsed.coinbase_height,
        parsed@.hash == parsed.hash,
        parsed@.previous_block_hash == parsed.previous_block_hash,
        parsed@.time_seconds == parsed.time_seconds,
        parsed@.transactions.len() == parsed.transactions@.len(),
        0 <= i < parsed.transactions@.len() ==> parsed@.transactions[i]
            == parsed.transactions@[i]@,
{
}

/// An encoding agrees with what is written exactly where both have the same
/// bytes or both failed.
pub proof fn law_encodings_agree_on_their_bytes(
    outcome: Result<Vec<u8>, String>,
    named: Option<Seq<u8>>,
)
    ensures
        encoding_agrees(outcome, named) <==> {
            &&& outcome is Ok <==> named is Some
            &&& outcome is Ok ==> outcome->Ok_0@ == named->0
        },
{
}

} // verus!
