//! Facts, compact blocks and store rows exchanged between ingest stages.

use crate::ids::{
    BlockHash, BlockHeight, ChainTipMetadata, ShieldedProtocol, SubtreeRootHash, SubtreeRootIndex,
    TransactionId, TransparentAddressScriptHash, TransparentOutPoint,
};
use crate::ids::{BlockId, Network};
use vstd::prelude::*;
use vstd::slice::slice_to_vec;

verus! {

/// One block as the node source reported it.
#[derive(Debug, PartialEq, Eq)]
pub struct SourceBlock {
    pub network: Network,
    pub height: BlockHeight,
    pub hash: BlockHash,
    pub parent_hash: BlockHash,
    pub block_time_seconds: u32,
    pub raw_block_bytes: Vec<u8>,
}

/// Header facts read from a raw block.
#[derive(Clone, Copy, Debug, PartialEq, Eq)]
pub struct BlockHeaderInfo {
    pub height: BlockHeight,
    pub block_hash: BlockHash,
    pub parent_hash: BlockHash,
    pub merkle_root: [u8; 32],
    pub commitment_bytes: [u8; 32],
    pub block_time: i64,
    pub difficulty_bits: u32,
    pub nonce: [u8; 32],
    pub version: u32,
}

/// Header row of one canonical block.
#[derive(Clone, Copy, Debug, PartialEq, Eq)]
pub struct BlockHeaderArtifact {
    pub height: BlockHeight,
    pub block_hash: BlockHash,
    pub parent_hash: BlockHash,
    pub merkle_root: [u8; 32],
    pub commitment_bytes: [u8; 32],
    pub block_time: i64,
    pub difficulty_bits: u32,
    pub nonce: [u8; 32],
    pub version: u32,
    pub block_size_bytes: u64,
}

impl BlockHeaderArtifact {
    /// The header row that `info` and a measured block size give.
    pub open spec fn spec_from_header_info(info: BlockHeaderInfo, block_size_bytes: u64) -> Self {
        BlockHeaderArtifact {
            height: info.height,
            block_hash: info.block_hash,
            parent_hash: info.parent_hash,
            merkle_root: info.merkle_root,
            commitment_bytes: info.commitment_bytes,
            block_time: info.block_time,
            difficulty_bits: info.difficulty_bits,
            nonce: info.nonce,
            version: info.version,
            block_size_bytes,
        }
    }

    /// Builds the header row from parsed header facts and the measured block size.
    pub fn from_header_info_with_block_size(
        info: BlockHeaderInfo,
        block_size_bytes: u64,
    ) -> (header: Self)
        ensures
            header == Self::spec_from_header_info(info, block_size_bytes),
    {
        BlockHeaderArtifact {
            height: info.height,
            block_hash: info.block_hash,
            parent_hash: info.parent_hash,
            merkle_root: info.merkle_root,
            commitment_bytes: info.commitment_bytes,
            block_time: info.block_time,
            difficulty_bits: info.difficulty_bits,
            nonce: info.nonce,
            version: info.version,
            block_size_bytes,
        }
    }
}

/// A transaction section the fact parser does not interpret.
#[derive(Clone, Copy, Debug, PartialEq, Eq)]
pub struct UnsupportedSection {
    pub section_code: u32,
}

/// Public facts of one transaction.
#[derive(Debug, PartialEq, Eq)]
pub struct TransactionPublicFacts {
    pub transaction_id: TransactionId,
    pub serialized_size_bytes: u64,
    pub unsupported_sections: Vec<UnsupportedSection>,
}

/// Value balances a transaction carries in its own fields.
#[derive(Clone, Copy, Debug, PartialEq, Eq)]
pub struct TransactionIntrinsicValueBalances {
    pub sprout_zat: i64,
    pub sapling_zat: i64,
    pub orchard_zat: i64,
    pub ironwood_zat: i64,
}

/// One transparent input of a transaction.
#[derive(Clone, Copy, Debug, PartialEq, Eq)]
pub struct TransparentInputFact {
    pub input_index: u32,
    pub spent_outpoint: TransparentOutPoint,
}

/// One transparent output of a transaction.
#[derive(Debug, PartialEq, Eq)]
pub struct TransparentOutputFact {
    pub output_index: u32,
    pub value_zat: u64,
    pub script_pub_key: Vec<u8>,
    pub address_script_hash: TransparentAddressScriptHash,
}

/// Everything the fact parser reads from one transaction.
#[derive(Debug, PartialEq, Eq)]
pub struct TransactionFactSet {
    pub public_facts: TransactionPublicFacts,
    pub intrinsic_value_balances: TransactionIntrinsicValueBalances,
    pub transparent_inputs: Vec<TransparentInputFact>,
    pub transparent_outputs: Vec<TransparentOutputFact>,
}

/// Canonical facts of one transaction, with its raw bytes where they are retained.
#[derive(Debug, PartialEq, Eq)]
pub struct CanonicalTransactionFacts {
    pub public_facts: TransactionPublicFacts,
    pub intrinsic_value_balances: TransactionIntrinsicValueBalances,
    pub transparent_inputs: Vec<TransparentInputFact>,
    pub transparent_outputs: Vec<TransparentOutputFact>,
    pub raw_transaction_bytes: Option<Vec<u8>>,
}

/// Canonical facts of one block, independent of its position in the chain.
#[derive(Debug, PartialEq, Eq)]
pub struct CanonicalBlockFacts {
    pub block_header: BlockHeaderArtifact,
    pub raw_block_bytes: Option<Vec<u8>>,
    pub transactions: Vec<CanonicalTransactionFacts>,
}

/// Sapling spend as light clients see it.
#[derive(Debug, PartialEq, Eq)]
pub struct CompactSaplingSpend {
    pub nf: Vec<u8>,
}

/// Sapling output as light clients see it.
#[derive(Debug, PartialEq, Eq)]
pub struct CompactSaplingOutput {
    pub cmu: Vec<u8>,
    pub ephemeral_key: Vec<u8>,
    pub ciphertext: Vec<u8>,
}

/// Orchard or Ironwood action as light clients see it.
#[derive(Debug, PartialEq, Eq)]
pub struct CompactOrchardAction {
    pub nullifier: Vec<u8>,
    pub cmx: Vec<u8>,
    pub ephemeral_key: Vec<u8>,
    pub ciphertext: Vec<u8>,
}

/// Transparent input as light clients see it.
#[derive(Debug, PartialEq, Eq)]
pub struct CompactTxIn {
    pub prevout_txid: Vec<u8>,
    pub prevout_index: u32,
}

/// Transparent output as light clients see it.
#[derive(Debug, PartialEq, Eq)]
pub struct CompactTxOut {
    pub value: u64,
    pub script_pub_key: Vec<u8>,
}

/// Transaction as light clients see it.
#[derive(Debug, PartialEq, Eq)]
pub struct CompactTx {
    pub index: u64,
    pub txid: Vec<u8>,
    pub fee: u32,
    pub spends: Vec<CompactSaplingSpend>,
    pub outputs: Vec<CompactSaplingOutput>,
    pub actions: Vec<CompactOrchardAction>,
    pub ironwood_actions: Vec<CompactOrchardAction>,
    pub vin: Vec<CompactTxIn>,
    pub vout: Vec<CompactTxOut>,
}

/// Commitment-tree sizes as light clients see them.
#[derive(Clone, Copy, Debug, PartialEq, Eq, Structural)]
pub struct ChainMetadata {
    pub sapling_commitment_tree_size: u32,
    pub orchard_commitment_tree_size: u32,
    pub ironwood_commitment_tree_size: u32,
}

/// Block as light clients see it.
#[derive(Debug, PartialEq, Eq)]
pub struct CompactBlock {
    pub height: u64,
    pub hash: Vec<u8>,
    pub prev_hash: Vec<u8>,
    pub time: u32,
    pub header: Vec<u8>,
    pub vtx: Vec<CompactTx>,
    pub chain_metadata: Option<ChainMetadata>,
}

/// Mathematical form of a [`CompactSaplingOutput`].
#[verifier::ext_equal]
pub struct SaplingOutputView {
    pub cmu: Seq<u8>,
    pub ephemeral_key: Seq<u8>,
    pub ciphertext: Seq<u8>,
}

/// Mathematical form of a [`CompactOrchardAction`].
#[verifier::ext_equal]
pub struct ActionView {
    pub nullifier: Seq<u8>,
    pub cmx: Seq<u8>,
    pub ephemeral_key: Seq<u8>,
    pub ciphertext: Seq<u8>,
}

/// Mathematical form of a [`CompactTxIn`].
#[verifier::ext_equal]
pub struct TxInView {
    pub prevout_txid: Seq<u8>,
    pub prevout_index: u32,
}

/// Mathematical form of a [`CompactTxOut`].
#[verifier::ext_equal]
pub struct TxOutView {
    pub value: u64,
    pub script_pub_key: Seq<u8>,
}

/// Mathematical form of a [`CompactTx`].
#[verifier::ext_equal]
pub struct CompactTxView {
    pub index: u64,
    pub txid: Seq<u8>,
    pub fee: u32,
    pub spends: Seq<Seq<u8>>,
    pub outputs: Seq<SaplingOutputView>,
    pub actions: Seq<ActionView>,
    pub ironwood_actions: Seq<ActionView>,
    pub vin: Seq<TxInView>,
    pub vout: Seq<TxOutView>,
}

/// Mathematical form of a [`CompactBlock`].
#[verifier::ext_equal]
pub struct CompactBlockView {
    pub height: u64,
    pub hash: Seq<u8>,
    pub prev_hash: Seq<u8>,
    pub time: u32,
    pub header: Seq<u8>,
    pub vtx: Seq<CompactTxView>,
    pub chain_metadata: Option<ChainMetadata>,
}

impl View for CompactSaplingSpend {
    type V = Seq<u8>;

    open spec fn view(&self) -> Seq<u8> {
        self.nf@
    }
}

impl View for CompactSaplingOutput {
    type V = SaplingOutputView;

    open spec fn view(&self) -> SaplingOutputView {
        SaplingOutputView {
            cmu: self.cmu@,
            ephemeral_key: self.ephemeral_key@,
            ciphertext: self.ciphertext@,
        }
    }
}

impl View for CompactOrchardAction {
    type V = ActionView;

    open spec fn view(&self) -> ActionView {
        ActionView {
            nullifier: self.nullifier@,
            cmx: self.cmx@,
            ephemeral_key: self.ephemeral_key@,
            ciphertext: self.ciphertext@,
        }
    }
}

impl View for CompactTxIn {
    type V = TxInView;

    open spec fn view(&self) -> TxInView {
        TxInView { prevout_txid: self.prevout_txid@, prevout_index: self.prevout_index }
    }
}

impl View for CompactTxOut {
    type V = TxOutView;

    open spec fn view(&self) -> TxOutView {
        TxOutView { value: self.value, script_pub_key: self.script_pub_key@ }
    }
}

/// Views of every item of a sequence.
pub open spec fn views<T: View>(items: Seq<T>) -> Seq<T::V> {
    items.map_values(|item: T| item@)
}

impl View for CompactTx {
    type V = CompactTxView;

    open spec fn view(&self) -> CompactTxView {
        CompactTxView {
            index: self.index,
            txid: self.txid@,
            fee: self.fee,
            spends: views(self.spends@),
            outputs: views(self.outputs@),
            actions: views(self.actions@),
            ironwood_actions: views(self.ironwood_actions@),
            vin: views(self.vin@),
            vout: views(self.vout@),
        }
    }
}

impl View for CompactBlock {
    type V = CompactBlockView;

    open spec fn view(&self) -> CompactBlockView {
        CompactBlockView {
            height: self.height,
            hash: self.hash@,
            prev_hash: self.prev_hash@,
            time: self.time,
            header: self.header@,
            vtx: views(self.vtx@),
            chain_metadata: self.chain_metadata,
        }
    }
}

/// Where a transaction was mined.
#[derive(Clone, Copy, Debug, PartialEq, Eq)]
pub struct TransactionLocation {
    pub transaction_id: TransactionId,
    pub block_height: BlockHeight,
    pub block_hash: BlockHash,
    pub tx_index_in_block: u32,
}

/// Row that lists one transaction of one block.
#[derive(Clone, Copy, Debug, PartialEq, Eq)]
pub struct BlockTransactionIndexArtifact {
    pub block_height: BlockHeight,
    pub tx_index_in_block: u32,
    pub transaction_id: TransactionId,
    pub block_hash: BlockHash,
}

/// Fact row of one mined transaction.
#[derive(Debug, PartialEq, Eq)]
pub struct TransactionFactsArtifact {
    pub location: TransactionLocation,
    pub public_facts: TransactionPublicFacts,
    pub transparent_inputs: Vec<TransparentInputFact>,
    pub transparent_outputs: Vec<TransparentOutputFact>,
}

/// Value-balance row of one mined transaction.
#[derive(Clone, Copy, Debug, PartialEq, Eq)]
pub struct TransactionIntrinsicValueBalancesArtifact {
    pub location: TransactionLocation,
    pub intrinsic_value_balances: TransactionIntrinsicValueBalances,
}

/// Raw bytes of one mined transaction.
#[derive(Debug, PartialEq, Eq)]
pub struct TransactionBlobArtifact {
    pub location: TransactionLocation,
    pub raw_transaction_bytes: Vec<u8>,
}

/// Raw bytes of one block.
#[derive(Debug, PartialEq, Eq)]
pub struct BlockBlobArtifact {
    pub height: BlockHeight,
    pub block_hash: BlockHash,
    pub parent_hash: BlockHash,
    pub raw_block_bytes: Vec<u8>,
}

/// Encoded compact block of one canonical block.
#[derive(Debug, PartialEq, Eq)]
pub struct CompactBlockArtifact {
    pub height: BlockHeight,
    pub block_hash: BlockHash,
    pub payload_bytes: Vec<u8>,
}

/// Encoded replay facts of one canonical block.
#[derive(Debug, PartialEq, Eq)]
pub struct CanonicalBlockReplayEnvelope {
    pub payload_bytes: Vec<u8>,
}

/// One transparent output located at the block that mined it.
#[derive(Debug, PartialEq, Eq)]
pub struct TransparentOutputArtifact {
    pub outpoint: TransparentOutPoint,
    pub value_zat: u64,
    pub script_pub_key: Vec<u8>,
    pub address_script_hash: TransparentAddressScriptHash,
    pub block_height: BlockHeight,
    pub block_hash: BlockHash,
}

/// Mathematical form of a [`TransparentOutputArtifact`].
#[verifier::ext_equal]
pub struct TransparentOutputRow {
    pub outpoint: TransparentOutPoint,
    pub value_zat: u64,
    pub script_pub_key: Seq<u8>,
    pub address_script_hash: TransparentAddressScriptHash,
    pub block_height: BlockHeight,
    pub block_hash: BlockHash,
}

impl View for TransparentOutputArtifact {
    type V = TransparentOutputRow;

    open spec fn view(&self) -> TransparentOutputRow {
        TransparentOutputRow {
            outpoint: self.outpoint,
            value_zat: self.value_zat,
            script_pub_key: self.script_pub_key@,
            address_script_hash: self.address_script_hash,
            block_height: self.block_height,
            block_hash: self.block_hash,
        }
    }
}

impl TransparentOutputArtifact {
    /// Returns an independent copy of the row.
    pub fn duplicate(&self) -> (copy: Self)
        ensures
            copy@ == self@,
    {
        TransparentOutputArtifact {
            outpoint: self.outpoint,
            value_zat: self.value_zat,
            script_pub_key: slice_to_vec(self.script_pub_key.as_slice()),
            address_script_hash: self.address_script_hash,
            block_height: self.block_height,
            block_hash: self.block_hash,
        }
    }
}

/// One resolved transparent spend.
#[derive(Clone, Copy, Debug, PartialEq, Eq)]
pub struct TransparentSpendFact {
    pub spent_outpoint: TransparentOutPoint,
    pub input_index: u32,
    pub spending_transaction_id: TransactionId,
    pub tx_index_in_block: u32,
    pub block_height: BlockHeight,
    pub block_hash: BlockHash,
    pub value_zat: u64,
    pub address_script_hash: TransparentAddressScriptHash,
    pub created_block_height: BlockHeight,
    pub created_block_hash: BlockHash,
}

/// Serialized commitment-tree state at one block.
#[derive(Debug, PartialEq, Eq)]
pub struct TreeStateArtifact {
    pub height: BlockHeight,
    pub block_hash: BlockHash,
    pub payload_bytes: Vec<u8>,
}

/// Final note-commitment root of one pool.
#[derive(Clone, Copy, Debug, PartialEq, Eq)]
pub struct FinalNoteCommitmentRoot(pub [u8; 32]);

/// Final note-commitment roots of one block.
#[derive(Clone, Copy, Debug, PartialEq, Eq)]
pub struct BlockFinalNoteCommitmentRoots {
    pub height: BlockHeight,
    pub block_hash: BlockHash,
    pub sapling: Option<FinalNoteCommitmentRoot>,
    pub orchard: Option<FinalNoteCommitmentRoot>,
    pub ironwood: Option<FinalNoteCommitmentRoot>,
}

/// One canonical block as materialized-view consumers receive it.
#[derive(Debug, PartialEq, Eq)]
pub struct BlockCommitInput {
    pub height: BlockHeight,
    pub block_hash: BlockHash,
    pub previous_block_hash: BlockHash,
    pub block_time_unix_seconds: i64,
    pub block_size_bytes: u64,
    pub transactions: Vec<TransactionFactsArtifact>,
    pub final_note_commitment_roots: Option<BlockFinalNoteCommitmentRoots>,
}

impl BlockCommitInput {
    /// Whether this input carries a header's facts.
    pub open spec fn describes(self, header: BlockHeaderArtifact) -> bool {
        &&& self.height == header.height
        &&& self.block_hash == header.block_hash
        &&& self.previous_block_hash == header.parent_hash
        &&& self.block_time_unix_seconds == header.block_time
        &&& self.block_size_bytes == header.block_size_bytes
    }
}

/// Root of one completed subtree, bound to the block that completed it.
#[derive(Clone, Copy, Debug, PartialEq, Eq)]
pub struct SubtreeRootArtifact {
    pub protocol: ShieldedProtocol,
    pub subtree_index: SubtreeRootIndex,
    pub root_hash: SubtreeRootHash,
    pub completing_block_height: BlockHeight,
    pub completing_block_hash: BlockHash,
}

/// Block an operator trusts as the predecessor of the first ingested block.
#[derive(Clone, Copy, Debug, PartialEq, Eq)]
pub struct SourceChainCheckpoint {
    pub height: BlockHeight,
    pub hash: BlockHash,
    pub tip_metadata: ChainTipMetadata,
}

/// Serialized tree state as the node source reported it.
#[derive(Debug, PartialEq, Eq)]
pub struct SourceTreeState {
    pub block_id: BlockId,
    pub payload_bytes: Vec<u8>,
}

/// What is seen of a compact transaction is what it holds, field by field and
/// item by item.
pub proof fn law_compact_transaction_is_seen_whole(transaction: CompactTx, i: int)
    ensures
        transaction@.index == transaction.index,
        transaction@.txid == transaction.txid@,
        transaction@.fee == transaction.fee,
        transaction@.spends.len() == transaction.spends@.len(),
        0 <= i < transaction.spends@.len() ==> transaction@.spends[i]
            == transaction.spends@[i].nf@,
        transaction@.outputs.len() == transaction.outputs@.len(),
        0 <= i < transaction.outputs@.len() ==> {
            &&& transaction@.outputs[i].cmu == transaction.outputs@[i].cmu@
            &&& transaction@.outputs[i].ephemeral_key == transaction.outputs@[i].ephemeral_key@
            &&& transaction@.outputs[i].ciphertext == transaction.outputs@[i].ciphertext@
        },
        transaction@.actions.len() == transaction.actions@.len(),
        0 <= i < transaction.actions@.len() ==> {
            &&& transaction@.actions[i].nullifier == transaction.actions@[i].nullifier@
            &&& transaction@.actions[i].cmx == transaction.actions@[i].cmx@
            &&& transaction@.actions[i].ephemeral_key == transaction.actions@[i].ephemeral_key@
            &&& transaction@.actions[i].ciphertext == transaction.actions@[i].ciphertext@
        },
        transaction@.ironwood_actions.len() == transaction.ironwood_actions@.len(),
        0 <= i < transaction.ironwood_actions@.len() ==> {
            let held = transaction.ironwood_actions@[i];
            &&& transaction@.ironwood_actions[i].nullifier == held.nullifier@
            &&& transaction@.ironwood_actions[i].cmx == held.cmx@
            &&& transaction@.ironwood_actions[i].ephemeral_key == held.ephemeral_key@
            &&& transaction@.ironwood_actions[i].ciphertext == held.ciphertext@
        },
        transaction@.vin.len() == transaction.vin@.len(),
        0 <= i < transaction.vin@.len() ==> {
            &&& transaction@.vin[i].prevout_txid == transaction.vin@[i].prevout_txid@
            &&& transaction@.vin[i].prevout_index == transaction.vin@[i].prevout_index
        },
        transaction@.vout.len() == transaction.vout@.len(),
        0 <= i < transaction.vout@.len() ==> {
            &&& transaction@.vout[i].value == transaction.vout@[i].value
            &&& transaction@.vout[i].script_pub_key == transaction.vout@[i].script_pub_key@
        },
{
}

/// What is seen of a compact block is what it holds, field by field.
pub proof fn law_compact_block_is_seen_whole(block: CompactBlock, i: int)
    ensures
        block@.height == block.height,
        block@.hash == block.hash@,
        block@.prev_hash == block.prev_hash@,
        block@.time == block.time,
        block@.header == block.header@,
        block@.chain_metadata == block.chain_metadata,
        block@.vtx.len() == block.vtx@.len(),
        0 <= i < block.vtx@.len() ==> block@.vtx[i] == block.vtx@[i]@,
{
}

/// What is seen of an output row is what it holds, field by field.
pub proof fn law_output_row_is_seen_whole(output: TransparentOutputArtifact)
    ensures
        output@.outpoint == output.outpoint,
        output@.value_zat == output.value_zat,
        output@.script_pub_key == output.script_pub_key@,
        output@.address_script_hash == output.address_script_hash,
        output@.block_height == output.block_height,
        output@.block_hash == output.block_hash,
{
}

/// A stored header is the announced one with the size of the block.
pub proof fn law_stored_header_keeps_every_field(info: BlockHeaderInfo, block_size_bytes: u64)
    ensures
        ({
            let header = BlockHeaderArtifact::spec_from_header_info(info, block_size_bytes);
            &&& header.height == info.height
            &&& header.block_hash == info.block_hash
            &&& header.parent_hash == info.parent_hash
            &&& header.merkle_root == info.merkle_root
            &&& header.commitment_bytes == info.commitment_bytes
            &&& header.block_time == info.block_time
            &&& header.difficulty_bits == info.difficulty_bits
            &&& header.nonce == info.nonce
            &&& header.version == info.version
            &&& header.block_size_bytes == block_size_bytes
        }),
{
}

/// An input describes a header exactly where it stands at its height and carries
/// its hashes, its time and its size.
pub proof fn law_described_header_is_carried_whole(
    input: BlockCommitInput,
    header: BlockHeaderArtifact,
)
    ensures
        input.describes(header) <==> {
            &&& input.height == header.height
            &&& input.block_hash == header.block_hash
            &&& input.previous_block_hash == header.parent_hash
            &&& input.block_time_unix_seconds == header.block_time
            &&& input.block_size_bytes == header.block_size_bytes
        },
{
}

} // verus!
