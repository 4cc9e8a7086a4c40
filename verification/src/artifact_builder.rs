//! Deterministic source-block artifact builders.

use crate::artifacts::{
    views, ActionView, BlockBlobArtifact, BlockHeaderArtifact, BlockHeaderInfo,
    BlockTransactionIndexArtifact, CanonicalBlockFacts, CanonicalBlockReplayEnvelope,
    CanonicalTransactionFacts, ChainMetadata, CompactBlock, CompactBlockArtifact, CompactBlockView,
    CompactOrchardAction, CompactSaplingOutput, CompactSaplingSpend, CompactTx, CompactTxIn,
    CompactTxOut, CompactTxView, SaplingOutputView, SourceBlock, TransactionBlobArtifact,
    TransactionFactSet, TransactionFactsArtifact, TransactionIntrinsicValueBalancesArtifact,
    TransactionLocation, TransparentOutputArtifact, TransparentOutputFact, TransparentOutputRow,
    TxInView,
};
use crate::bounds::usize_to_u64_saturating;
use crate::bytes::same_bytes;
use crate::ids::{BlockHash, ChainTipMetadata, ShieldedProtocol, TransparentOutPoint};
use crate::text::{decimal, decimal_text, encode_rpc_block_hash_hex, rpc_block_hash_text};
use crate::zebra::{
    block_facts_view, block_header_encoding, block_transactions, decode_block, decoded_block,
    encoding_agrees, is_decoded_block, read_parsed_block, transaction_encoding, ParsedAction,
    ParsedBlock, ParsedBlockView, ParsedSaplingOutput, ParsedTransaction, ParsedTransactionView,
    ParsedTransparentInput, ParsedTransparentOutput,
};
use vstd::prelude::*;
use vstd::slice::{slice_subrange, slice_to_vec};

verus! {

/// Leading ciphertext bytes that a light client needs to trial-decrypt a note.
pub const COMPACT_NOTE_CIPHERTEXT_PREFIX_LEN: usize = 52;

/// Policy controlling optional raw-byte blob writes.
#[derive(Clone, Copy, Debug, PartialEq, Eq, Structural)]
pub enum RawBlobPolicy {
    /// Write no raw block or transaction blobs.
    NoBlobs,
    /// Write raw transaction blobs only.
    Transactions,
    /// Write both raw block blobs and raw transaction blobs.
    All,
}

/// Raw blobs that a store promises its readers.
#[derive(Clone, Copy, Debug, PartialEq, Eq, Structural)]
pub enum RawBlobRetention {
    NoBlobs,
    Transactions,
    All,
}

impl RawBlobPolicy {
    /// Config spelling of a policy.
    pub open spec fn spelling(self) -> Seq<char> {
        match self {
            RawBlobPolicy::NoBlobs => "none"@,
            RawBlobPolicy::Transactions => "transactions"@,
            RawBlobPolicy::All => "all"@,
        }
    }

    /// Retention signal of a policy.
    pub open spec fn retention(self) -> RawBlobRetention {
        match self {
            RawBlobPolicy::NoBlobs => RawBlobRetention::NoBlobs,
            RawBlobPolicy::Transactions => RawBlobRetention::Transactions,
            RawBlobPolicy::All => RawBlobRetention::All,
        }
    }

    /// Returns the config spelling for this policy.
    pub fn as_kebab_case(self) -> (spelling: &'static str)
        ensures
            spelling@ == self.spelling(),
    {
        match self {
            RawBlobPolicy::NoBlobs => "none",
            RawBlobPolicy::Transactions => "transactions",
            RawBlobPolicy::All => "all",
        }
    }

    /// Returns whether raw block bytes are kept.
    pub fn writes_block_blobs(self) -> (writes: bool)
        ensures
            writes == (self is All),
    {
        matches!(self, RawBlobPolicy::All)
    }

    /// Returns whether raw transaction bytes are kept.
    pub fn writes_transaction_blobs(self) -> (writes: bool)
        ensures
            writes == (self is Transactions || self is All),
    {
        matches!(self, RawBlobPolicy::Transactions | RawBlobPolicy::All)
    }

    /// Maps the policy to the reader-facing retention signal the writer
    /// persists for capability discovery.
    pub fn to_retention(self) -> (retention: RawBlobRetention)
        ensures
            retention == self.retention(),
    {
        match self {
            RawBlobPolicy::NoBlobs => RawBlobRetention::NoBlobs,
            RawBlobPolicy::Transactions => RawBlobRetention::Transactions,
            RawBlobPolicy::All => RawBlobRetention::All,
        }
    }
}

/// Block identity field whose source/parsed values disagree.
#[derive(Clone, Copy, Debug, PartialEq, Eq, Structural)]
#[non_exhaustive]
pub enum BlockMismatchField {
    /// Block height.
    Height,
    /// Block hash.
    Hash,
    /// Parent block hash.
    ParentHash,
    /// Block time.
    Time,
}

impl BlockMismatchField {
    /// Display name of a field.
    pub open spec fn name(self) -> Seq<char> {
        match self {
            BlockMismatchField::Height => "block height"@,
            BlockMismatchField::Hash => "block hash"@,
            BlockMismatchField::ParentHash => "parent hash"@,
            BlockMismatchField::Time => "block time"@,
        }
    }

    /// Returns the display name of this field.
    pub fn label(self) -> (label: &'static str)
        ensures
            label@ == self.name(),
    {
        match self {
            BlockMismatchField::Height => "block height",
            BlockMismatchField::Hash => "block hash",
            BlockMismatchField::ParentHash => "parent hash",
            BlockMismatchField::Time => "block time",
        }
    }
}

/// Error returned while constructing canonical blocks from source blocks.
#[derive(Debug)]
#[non_exhaustive]
#[allow(inconsistent_fields)]
pub enum CanonicalBlockConstructionError {
    /// Source block payload is empty.
    EmptySourcePayload,
    /// Zebra-chain consensus block parse failed.
    BlockParseFailed { source: zebra_chain::serialization::SerializationError },
    /// Zebra-chain consensus transaction parse failed.
    TransactionParseFailed { source: zebra_chain::serialization::SerializationError },
    /// Parsed block is missing the coinbase height.
    ParsedBlockMissingCoinbaseHeight,
    /// Parsed block field disagrees with the source-supplied value.
    SourceBlockMismatch { field: BlockMismatchField, expected: String, actual: String },
    /// Commitment-tree size advanced past `u32::MAX`.
    CommitmentTreeOverflow { protocol: ShieldedProtocol },
    /// A counted field cannot be encoded as u32.
    CountOverflow { field: &'static str },
    /// Compact note ciphertext is shorter than the lightwalletd prefix.
    CompactCiphertextTooShort,
    /// Transparent input previous transaction id has the wrong length.
    TransparentOutputTransactionIdMalformed { byte_count: usize },
    /// Transaction index cannot be represented as `u32`.
    TransactionIndexOverflow,
    /// Parsing typed block-header facts failed.
    BlockHeaderParseFailed { reason: String },
    /// Parsing typed transaction facts failed.
    TransactionFactsParseFailed { reason: String },
    /// Round-tripping a parsed transaction back to canonical bytes failed.
    TransactionSerializationFailed { reason: String },
    /// Serializing the parsed block header back to canonical bytes failed.
    BlockHeaderSerializationFailed { reason: String },
}

/// Mathematical form of a [`CanonicalBlockConstructionError`].
#[verifier::ext_equal]
#[allow(inconsistent_fields)]
pub enum ConstructionFault {
    EmptySourcePayload,
    BlockParseFailed,
    TransactionParseFailed,
    ParsedBlockMissingCoinbaseHeight,
    SourceBlockMismatch { field: BlockMismatchField, expected: Seq<char>, actual: Seq<char> },
    CommitmentTreeOverflow { protocol: ShieldedProtocol },
    CountOverflow { field: Seq<char> },
    CompactCiphertextTooShort,
    TransparentOutputTransactionIdMalformed { byte_count: usize },
    TransactionIndexOverflow,
    BlockHeaderParseFailed { reason: Seq<char> },
    TransactionFactsParseFailed { reason: Seq<char> },
    TransactionSerializationFailed { reason: Seq<char> },
    BlockHeaderSerializationFailed { reason: Seq<char> },
}

impl View for CanonicalBlockConstructionError {
    type V = ConstructionFault;

    open spec fn view(&self) -> ConstructionFault {
        match *self {
            CanonicalBlockConstructionError::EmptySourcePayload => ConstructionFault::EmptySourcePayload,
            CanonicalBlockConstructionError::BlockParseFailed { source } => ConstructionFault::BlockParseFailed,
            CanonicalBlockConstructionError::TransactionParseFailed { source } => {
                ConstructionFault::TransactionParseFailed
            },
            CanonicalBlockConstructionError::ParsedBlockMissingCoinbaseHeight => {
                ConstructionFault::ParsedBlockMissingCoinbaseHeight
            },
            CanonicalBlockConstructionError::SourceBlockMismatch { field, expected, actual } => {
                ConstructionFault::SourceBlockMismatch {
                    field,
                    expected: expected@,
                    actual: actual@,
                }
            },
            CanonicalBlockConstructionError::CommitmentTreeOverflow { protocol } => {
                ConstructionFault::CommitmentTreeOverflow { protocol }
            },
            CanonicalBlockConstructionError::CountOverflow { field } => {
                ConstructionFault::CountOverflow { field: field@ }
            },
            CanonicalBlockConstructionError::CompactCiphertextTooShort => {
                ConstructionFault::CompactCiphertextTooShort
            },
            CanonicalBlockConstructionError::TransparentOutputTransactionIdMalformed { byte_count } => {
                ConstructionFault::TransparentOutputTransactionIdMalformed { byte_count }
            },
            CanonicalBlockConstructionError::TransactionIndexOverflow => {
                ConstructionFault::TransactionIndexOverflow
            },
            CanonicalBlockConstructionError::BlockHeaderParseFailed { reason } => {
                ConstructionFault::BlockHeaderParseFailed { reason: reason@ }
            },
            CanonicalBlockConstructionError::TransactionFactsParseFailed { reason } => {
                ConstructionFault::TransactionFactsParseFailed { reason: reason@ }
            },
            CanonicalBlockConstructionError::TransactionSerializationFailed { reason } => {
                ConstructionFault::TransactionSerializationFailed { reason: reason@ }
            },
            CanonicalBlockConstructionError::BlockHeaderSerializationFailed { reason } => {
                ConstructionFault::BlockHeaderSerializationFailed { reason: reason@ }
            },
        }
    }
}

/// Shielded commitment-tree positions at one block boundary.
///
/// [`prepare_canonical_block`] returns a per-block delta;
/// [`finalize_canonical_block`] folds those deltas into the running position.
/// The same type expresses both shapes, so callers can carry one running
/// offset through a serial loop or seed it from a [`ChainTipMetadata`]
/// recovered from the store.
#[derive(Clone, Copy, Debug, PartialEq, Eq, Structural)]
pub struct CommitmentTreeSizes {
    /// Sapling output count contributed by (or accumulated up to) this point.
    pub sapling: u32,
    /// Orchard action count contributed by (or accumulated up to) this point.
    pub orchard: u32,
    /// Ironwood action count contributed by (or accumulated up to) this point.
    pub ironwood: u32,
}

impl Default for CommitmentTreeSizes {
    fn default() -> (sizes: Self)
        ensures
            sizes == Self::zero(),
    {
        CommitmentTreeSizes { sapling: 0, orchard: 0, ironwood: 0 }
    }
}

impl CommitmentTreeSizes {
    /// Empty trees.
    pub open spec fn zero() -> Self {
        CommitmentTreeSizes { sapling: 0, orchard: 0, ironwood: 0 }
    }

    /// Sum of two positions, or the first pool that cannot hold its sum.
    pub open spec fn sum(self, additions: Self) -> Result<Self, ConstructionFault> {
        if self.sapling + additions.sapling > u32::MAX {
            Err(ConstructionFault::CommitmentTreeOverflow { protocol: ShieldedProtocol::Sapling })
        } else if self.orchard + additions.orchard > u32::MAX {
            Err(ConstructionFault::CommitmentTreeOverflow { protocol: ShieldedProtocol::Orchard })
        } else if self.ironwood + additions.ironwood > u32::MAX {
            Err(ConstructionFault::CommitmentTreeOverflow { protocol: ShieldedProtocol::Ironwood })
        } else {
            Ok(
                CommitmentTreeSizes {
                    sapling: (self.sapling + additions.sapling) as u32,
                    orchard: (self.orchard + additions.orchard) as u32,
                    ironwood: (self.ironwood + additions.ironwood) as u32,
                },
            )
        }
    }

    /// The position that chain-tip metadata records.
    pub open spec fn of_tip_metadata(tip_metadata: ChainTipMetadata) -> Self {
        CommitmentTreeSizes {
            sapling: tip_metadata.sapling_commitment_tree_size,
            orchard: tip_metadata.orchard_commitment_tree_size,
            ironwood: tip_metadata.ironwood_commitment_tree_size,
        }
    }

    /// The light-client form of a position.
    pub open spec fn as_chain_metadata(self) -> ChainMetadata {
        ChainMetadata {
            sapling_commitment_tree_size: self.sapling,
            orchard_commitment_tree_size: self.orchard,
            ironwood_commitment_tree_size: self.ironwood,
        }
    }

    /// The stored form of a position.
    pub open spec fn as_tip_metadata(self) -> ChainTipMetadata {
        ChainTipMetadata {
            sapling_commitment_tree_size: self.sapling,
            orchard_commitment_tree_size: self.orchard,
            ironwood_commitment_tree_size: self.ironwood,
        }
    }

    /// Seeds a running offset from chain-tip metadata recovered from the
    /// store.
    pub fn from_tip_metadata(tip_metadata: ChainTipMetadata) -> (sizes: Self)
        ensures
            sizes == Self::of_tip_metadata(tip_metadata),
    {
        CommitmentTreeSizes {
            sapling: tip_metadata.sapling_commitment_tree_size,
            orchard: tip_metadata.orchard_commitment_tree_size,
            ironwood: tip_metadata.ironwood_commitment_tree_size,
        }
    }

    /// Sums two positions; errors if any pool overflows `u32`.
    pub fn checked_add(self, additions: Self) -> (sum: Result<
        Self,
        CanonicalBlockConstructionError,
    >)
        ensures
            match sum {
                Ok(sum) => self.sum(additions) == Ok::<Self, ConstructionFault>(sum),
                Err(error) => self.sum(additions) == Err::<Self, ConstructionFault>(error@),
            },
    {
        let sapling = match self.sapling.checked_add(additions.sapling) {
            Some(sapling) => sapling,
            None => {
                return Err(
                    CanonicalBlockConstructionError::CommitmentTreeOverflow {
                        protocol: ShieldedProtocol::Sapling,
                    },
                );
            },
        };
        let orchard = match self.orchard.checked_add(additions.orchard) {
            Some(orchard) => orchard,
            None => {
                return Err(
                    CanonicalBlockConstructionError::CommitmentTreeOverflow {
                        protocol: ShieldedProtocol::Orchard,
                    },
                );
            },
        };
        let ironwood = match self.ironwood.checked_add(additions.ironwood) {
            Some(ironwood) => ironwood,
            None => {
                return Err(
                    CanonicalBlockConstructionError::CommitmentTreeOverflow {
                        protocol: ShieldedProtocol::Ironwood,
                    },
                );
            },
        };
        Ok(CommitmentTreeSizes { sapling, orchard, ironwood })
    }

    /// Lowers to the lightwalletd `ChainMetadata` wire shape.
    pub fn chain_metadata(self) -> (metadata: ChainMetadata)
        ensures
            metadata == self.as_chain_metadata(),
    {
        ChainMetadata {
            sapling_commitment_tree_size: self.sapling,
            orchard_commitment_tree_size: self.orchard,
            ironwood_commitment_tree_size: self.ironwood,
        }
    }

    /// Lowers to the canonical `ChainTipMetadata` stored alongside each
    /// chain epoch.
    pub fn tip_metadata(self) -> (metadata: ChainTipMetadata)
        ensures
            metadata == self.as_tip_metadata(),
    {
        ChainTipMetadata::new(self.sapling, self.orchard, self.ironwood)
    }
}

/// Parallel-safe preparation output for one source block.
///
/// [`prepare_canonical_block`] populates every field that depends only on the
/// block content. [`finalize_canonical_block`] stamps the position-dependent
/// fields (the `chain_metadata` inside `partial_compact_block` and the
/// `tip_metadata` in the returned [`PositionedCanonicalBlock`]) after folding
/// `tree_size_additions` into the running commitment-tree position.
#[derive(Debug)]
pub struct PreparedCanonicalBlock {
    /// Immutable facts computed from this source block alone.
    pub facts: CanonicalBlockFacts,
    /// Lightwalletd compact block with `chain_metadata = None`; the
    /// serial folder stamps the final tree-size position before encoding.
    pub partial_compact_block: CompactBlock,
    /// Commitment-tree-size delta this block contributes.
    pub tree_size_additions: CommitmentTreeSizes,
}

/// A prepared block stamped with its commitment-tree position.
#[derive(Debug)]
pub struct PositionedCanonicalBlock {
    /// Immutable facts computed from the source block alone.
    pub facts: CanonicalBlockFacts,
    /// Compact block with its final `chain_metadata`.
    pub compact_block: CompactBlock,
    /// Commitment-tree sizes after this block.
    pub tip_metadata: ChainTipMetadata,
}

/// A positioned block together with the payloads its encoders produced.
#[derive(Debug)]
pub struct EncodedCanonicalBlock {
    pub facts: CanonicalBlockFacts,
    pub replay_envelope: CanonicalBlockReplayEnvelope,
    pub compact_block: CompactBlockArtifact,
    pub tip_metadata: ChainTipMetadata,
}

/// Outcome of counting one field.
pub open spec fn counted(count: nat, field: Seq<char>) -> Result<u32, ConstructionFault> {
    if count <= u32::MAX {
        Ok(count as u32)
    } else {
        Err(ConstructionFault::CountOverflow { field })
    }
}

/// Narrows a count to `u32`, naming the field that does not fit.
pub fn count_to_u32(count: usize, field: &'static str) -> (narrowed: Result<
    u32,
    CanonicalBlockConstructionError,
>)
    ensures
        match narrowed {
            Ok(narrowed) => counted(count as nat, field@) == Ok::<u32, ConstructionFault>(narrowed),
            Err(error) => counted(count as nat, field@) == Err::<u32, ConstructionFault>(error@),
        },
{
    match u32::try_from(count) {
        Ok(narrowed) => Ok(narrowed),
        Err(_) => Err(CanonicalBlockConstructionError::CountOverflow { field }),
    }
}

/// Keeps the ciphertext prefix that light clients trial-decrypt.
pub fn compact_note_ciphertext_prefix(ciphertext: &[u8]) -> (prefix: Result<
    Vec<u8>,
    CanonicalBlockConstructionError,
>)
    ensures
        match prefix {
            Ok(prefix) => {
                &&& ciphertext@.len() >= COMPACT_NOTE_CIPHERTEXT_PREFIX_LEN
                &&& prefix@ == ciphertext@.take(COMPACT_NOTE_CIPHERTEXT_PREFIX_LEN as int)
            },
            Err(error) => {
                &&& ciphertext@.len() < COMPACT_NOTE_CIPHERTEXT_PREFIX_LEN
                &&& error@ == ConstructionFault::CompactCiphertextTooShort
            },
        },
{
    if ciphertext.len() < COMPACT_NOTE_CIPHERTEXT_PREFIX_LEN {
        return Err(CanonicalBlockConstructionError::CompactCiphertextTooShort);
    }
    Ok(slice_to_vec(slice_subrange(ciphertext, 0, COMPACT_NOTE_CIPHERTEXT_PREFIX_LEN)))
}

/// Light-client form of one Sapling output.
pub open spec fn compact_sapling_output_of(output: ParsedSaplingOutput) -> SaplingOutputView {
    SaplingOutputView {
        cmu: output.cmu@,
        ephemeral_key: output.ephemeral_key@,
        ciphertext: output.enc_ciphertext@.take(COMPACT_NOTE_CIPHERTEXT_PREFIX_LEN as int),
    }
}

/// Light-client form of one Orchard or Ironwood action.
pub open spec fn compact_action_of(action: ParsedAction) -> ActionView {
    ActionView {
        nullifier: action.nullifier@,
        cmx: action.cmx@,
        ephemeral_key: action.ephemeral_key@,
        ciphertext: action.enc_ciphertext@.take(COMPACT_NOTE_CIPHERTEXT_PREFIX_LEN as int),
    }
}

/// Light-client form of the previous outputs that a transaction's inputs name.
pub open spec fn compact_inputs_of(inputs: Seq<ParsedTransparentInput>) -> Seq<TxInView>
    decreases inputs.len(),
{
    if inputs.len() == 0 {
        Seq::empty()
    } else {
        let before = compact_inputs_of(inputs.drop_last());
        match inputs.last() {
            ParsedTransparentInput::PrevOut { prevout_txid, prevout_index } => before.push(
                TxInView { prevout_txid: prevout_txid@, prevout_index },
            ),
            ParsedTransparentInput::Coinbase => before,
        }
    }
}

/// Light-client form of one transaction.
pub open spec fn compact_transaction_of(index: u64, transaction: ParsedTransactionView) -> CompactTxView {
    CompactTxView {
        index,
        txid: transaction.txid@,
        fee: 0,
        spends: transaction.sapling_nullifiers.map_values(|nullifier: [u8; 32]| nullifier@),
        outputs: transaction.sapling_outputs.map_values(
            |output: ParsedSaplingOutput| compact_sapling_output_of(output),
        ),
        actions: transaction.orchard_actions.map_values(
            |action: ParsedAction| compact_action_of(action),
        ),
        ironwood_actions: transaction.ironwood_actions.map_values(
            |action: ParsedAction| compact_action_of(action),
        ),
        vin: compact_inputs_of(transaction.inputs),
        vout: transaction.outputs,
    }
}

fn compact_sapling_spends(transaction: &ParsedTransaction) -> (spends: Vec<CompactSaplingSpend>)
    ensures
        views(spends@) == transaction.sapling_nullifiers@.map_values(
            |nullifier: [u8; 32]| nullifier@,
        ),
{
    let mut spends: Vec<CompactSaplingSpend> = Vec::new();
    let mut i: usize = 0;
    while i < transaction.sapling_nullifiers.len()
        invariant
            0 <= i <= transaction.sapling_nullifiers@.len(),
            spends@.len() == i,
            forall|j: int|
                0 <= j < i ==> (#[trigger] spends@[j])@ == transaction.sapling_nullifiers@[j]@,
        decreases transaction.sapling_nullifiers@.len() - i,
    {
        spends.push(
            CompactSaplingSpend {
                nf: slice_to_vec(transaction.sapling_nullifiers[i].as_slice()),
            },
        );
        i += 1;
    }
    assert(views(spends@) =~= transaction.sapling_nullifiers@.map_values(
        |nullifier: [u8; 32]| nullifier@,
    ));
    spends
}

fn compact_sapling_outputs(transaction: &ParsedTransaction) -> (outputs: Result<
    Vec<CompactSaplingOutput>,
    CanonicalBlockConstructionError,
>)
    ensures
        outputs matches Ok(outputs) && views(outputs@) == transaction.sapling_outputs@.map_values(
            |output: ParsedSaplingOutput| compact_sapling_output_of(output),
        ),
{
    let mut outputs: Vec<CompactSaplingOutput> = Vec::new();
    let mut i: usize = 0;
    while i < transaction.sapling_outputs.len()
        invariant
            0 <= i <= transaction.sapling_outputs@.len(),
            outputs@.len() == i,
            forall|j: int|
                0 <= j < i ==> (#[trigger] outputs@[j])@ == compact_sapling_output_of(
                    transaction.sapling_outputs@[j],
                ),
        decreases transaction.sapling_outputs@.len() - i,
    {
        let output = &transaction.sapling_outputs[i];
        let ciphertext = match compact_note_ciphertext_prefix(output.enc_ciphertext.as_slice()) {
            Ok(ciphertext) => ciphertext,
            Err(error) => {
                return Err(error);
            },
        };
        outputs.push(
            CompactSaplingOutput {
                cmu: slice_to_vec(output.cmu.as_slice()),
                ephemeral_key: slice_to_vec(output.ephemeral_key.as_slice()),
                ciphertext,
            },
        );
        i += 1;
    }
    assert(views(outputs@) =~= transaction.sapling_outputs@.map_values(
        |output: ParsedSaplingOutput| compact_sapling_output_of(output),
    ));
    Ok(outputs)
}

fn compact_actions(parsed: &Vec<ParsedAction>) -> (actions: Result<
    Vec<CompactOrchardAction>,
    CanonicalBlockConstructionError,
>)
    ensures
        actions matches Ok(actions) && views(actions@) == parsed@.map_values(
            |action: ParsedAction| compact_action_of(action),
        ),
{
    let mut actions: Vec<CompactOrchardAction> = Vec::new();
    let mut i: usize = 0;
    while i < parsed.len()
        invariant
            0 <= i <= parsed@.len(),
            actions@.len() == i,
            forall|j: int|
                0 <= j < i ==> (#[trigger] actions@[j])@ == compact_action_of(parsed@[j]),
        decreases parsed@.len() - i,
    {
        let action = &parsed[i];
        let ciphertext = match compact_note_ciphertext_prefix(action.enc_ciphertext.as_slice()) {
            Ok(ciphertext) => ciphertext,
            Err(error) => {
                return Err(error);
            },
        };
        actions.push(
            CompactOrchardAction {
                nullifier: slice_to_vec(action.nullifier.as_slice()),
                cmx: slice_to_vec(action.cmx.as_slice()),
                ephemeral_key: slice_to_vec(action.ephemeral_key.as_slice()),
                ciphertext,
            },
        );
        i += 1;
    }
    assert(views(actions@) =~= parsed@.map_values(|action: ParsedAction| compact_action_of(action)));
    Ok(actions)
}

fn compact_transparent_inputs(transaction: &ParsedTransaction) -> (vin: Vec<CompactTxIn>)
    ensures
        views(vin@) == compact_inputs_of(transaction.inputs@),
{
    let mut vin: Vec<CompactTxIn> = Vec::new();
    let mut i: usize = 0;
    assert(views(vin@) =~= compact_inputs_of(transaction.inputs@.take(0)));
    while i < transaction.inputs.len()
        invariant
            0 <= i <= transaction.inputs@.len(),
            views(vin@) == compact_inputs_of(transaction.inputs@.take(i as int)),
        decreases transaction.inputs@.len() - i,
    {
        let ghost before = vin@;
        assert(transaction.inputs@.take(i + 1).drop_last() =~= transaction.inputs@.take(i as int));
        match &transaction.inputs[i] {
            ParsedTransparentInput::PrevOut { prevout_txid, prevout_index } => {
                vin.push(
                    CompactTxIn {
                        prevout_txid: slice_to_vec(prevout_txid.as_slice()),
                        prevout_index: *prevout_index,
                    },
                );
                assert(views(vin@) =~= views(before).push(vin@.last()@));
            },
            ParsedTransparentInput::Coinbase => {},
        }
        i += 1;
    }
    assert(transaction.inputs@.take(i as int) =~= transaction.inputs@);
    vin
}

fn compact_transparent_outputs(transaction: &ParsedTransaction) -> (vout: Vec<CompactTxOut>)
    ensures
        views(vout@) == views(transaction.outputs@),
{
    let mut vout: Vec<CompactTxOut> = Vec::new();
    let mut i: usize = 0;
    while i < transaction.outputs.len()
        invariant
            0 <= i <= transaction.outputs@.len(),
            vout@.len() == i,
            forall|j: int| 0 <= j < i ==> (#[trigger] vout@[j])@ == transaction.outputs@[j]@,
        decreases transaction.outputs@.len() - i,
    {
        let output: &ParsedTransparentOutput = &transaction.outputs[i];
        vout.push(
            CompactTxOut {
                value: output.value,
                script_pub_key: slice_to_vec(output.lock_script.as_slice()),
            },
        );
        i += 1;
    }
    assert(views(vout@) =~= views(transaction.outputs@));
    vout
}

/// Builds a lightwalletd-compatible compact transaction from a parsed
/// transaction.
///
/// `index` is the position of the transaction within its containing block;
/// mempool callers that hydrate a single unmined transaction supply `0`.
pub fn compact_transaction(index: u64, transaction: &ParsedTransaction) -> (compact: Result<
    CompactTx,
    CanonicalBlockConstructionError,
>)
    ensures
        compact matches Ok(compact) && compact@ == compact_transaction_of(index, transaction@),
{
    let outputs = match compact_sapling_outputs(transaction) {
        Ok(outputs) => outputs,
        Err(error) => {
            return Err(error);
        },
    };
    let actions = match compact_actions(&transaction.orchard_actions) {
        Ok(actions) => actions,
        Err(error) => {
            return Err(error);
        },
    };
    let ironwood_actions = match compact_actions(&transaction.ironwood_actions) {
        Ok(actions) => actions,
        Err(error) => {
            return Err(error);
        },
    };
    Ok(
        CompactTx {
            index,
            txid: slice_to_vec(transaction.txid.as_slice()),
            fee: 0,
            spends: compact_sapling_spends(transaction),
            outputs,
            actions,
            ironwood_actions,
            vin: compact_transparent_inputs(transaction),
            vout: compact_transparent_outputs(transaction),
        },
    )
}

/// Whether a compact transaction holds anything a light client scans.
pub open spec fn has_payload(transaction: CompactTxView) -> bool {
    ||| transaction.spends.len() > 0
    ||| transaction.outputs.len() > 0
    ||| transaction.actions.len() > 0
    ||| transaction.ironwood_actions.len() > 0
    ||| transaction.vin.len() > 0
    ||| transaction.vout.len() > 0
}

/// Returns whether a compact transaction holds anything a light client scans.
pub fn compact_transaction_has_payload(transaction: &CompactTx) -> (payload: bool)
    ensures
        payload == has_payload(transaction@),
{
    transaction.spends.len() > 0 || transaction.outputs.len() > 0 || transaction.actions.len() > 0
        || transaction.ironwood_actions.len() > 0 || transaction.vin.len() > 0
        || transaction.vout.len() > 0
}

/// Notes that one transaction adds to each commitment tree.
pub open spec fn transaction_tree_additions(transaction: ParsedTransactionView) -> Result<
    CommitmentTreeSizes,
    ConstructionFault,
> {
    match counted(transaction.sapling_outputs.len(), "Sapling output count"@) {
        Err(fault) => Err(fault),
        Ok(sapling) => match counted(transaction.orchard_actions.len(), "Orchard action count"@) {
            Err(fault) => Err(fault),
            Ok(orchard) => match counted(
                transaction.ironwood_actions.len(),
                "Ironwood action count"@,
            ) {
                Err(fault) => Err(fault),
                Ok(ironwood) => Ok(CommitmentTreeSizes { sapling, orchard, ironwood }),
            },
        },
    }
}

/// Notes that a run of transactions adds to each commitment tree.
pub open spec fn block_tree_additions(transactions: Seq<ParsedTransactionView>) -> Result<
    CommitmentTreeSizes,
    ConstructionFault,
>
    decreases transactions.len(),
{
    if transactions.len() == 0 {
        Ok(CommitmentTreeSizes::zero())
    } else {
        match block_tree_additions(transactions.drop_last()) {
            Err(fault) => Err(fault),
            Ok(before) => match transaction_tree_additions(transactions.last()) {
                Err(fault) => Err(fault),
                Ok(additions) => before.sum(additions),
            },
        }
    }
}

/// Compact transactions of a run, without those that hold no payload.
pub open spec fn compact_transactions_of(transactions: Seq<ParsedTransactionView>) -> Seq<CompactTxView>
    decreases transactions.len(),
{
    if transactions.len() == 0 {
        Seq::empty()
    } else {
        let before = compact_transactions_of(transactions.drop_last());
        let compact = compact_transaction_of(
            (transactions.len() - 1) as u64,
            transactions.last(),
        );
        if has_payload(compact) {
            before.push(compact)
        } else {
            before
        }
    }
}

proof fn lemma_tree_additions_fault_persists(transactions: Seq<ParsedTransactionView>, k: int)
    requires
        0 <= k <= transactions.len(),
        block_tree_additions(transactions.take(k)) is Err,
    ensures
        block_tree_additions(transactions) == block_tree_additions(transactions.take(k)),
    decreases transactions.len() - k,
{
    if k == transactions.len() {
        assert(transactions.take(k) =~= transactions);
    } else {
        assert(transactions.take(k + 1).drop_last() =~= transactions.take(k));
        lemma_tree_additions_fault_persists(transactions, k + 1);
    }
}

/// Builds the compact transactions of a block and counts the notes it adds.
pub fn compact_transactions(parsed_block: &ParsedBlock) -> (compacted: Result<
    (Vec<CompactTx>, CommitmentTreeSizes),
    CanonicalBlockConstructionError,
>)
    ensures
        match compacted {
            Ok((vtx, additions)) => {
                &&& block_tree_additions(parsed_block@.transactions) == Ok::<
                    CommitmentTreeSizes,
                    ConstructionFault,
                >(additions)
                &&& views(vtx@) == compact_transactions_of(parsed_block@.transactions)
            },
            Err(error) => block_tree_additions(parsed_block@.transactions) == Err::<
                CommitmentTreeSizes,
                ConstructionFault,
            >(error@),
        },
{
    let ghost parsed = parsed_block@.transactions;
    let mut vtx: Vec<CompactTx> = Vec::new();
    let mut tree_size_additions = CommitmentTreeSizes::default();
    let mut i: usize = 0;
    assert(views(vtx@) =~= compact_transactions_of(parsed.take(0)));
    while i < parsed_block.transactions.len()
        invariant
            parsed == parsed_block@.transactions,
            0 <= i <= parsed_block.transactions@.len(),
            block_tree_additions(parsed.take(i as int)) == Ok::<
                CommitmentTreeSizes,
                ConstructionFault,
            >(tree_size_additions),
            views(vtx@) == compact_transactions_of(parsed.take(i as int)),
        decreases parsed_block.transactions@.len() - i,
    {
        let ghost next = parsed.take(i + 1);
        assert(next.drop_last() =~= parsed.take(i as int));
        assert(next.last() == parsed_block.transactions@[i as int]@);
        let compact = match compact_transaction(
            usize_to_u64_saturating(i),
            &parsed_block.transactions[i],
        ) {
            Ok(compact) => compact,
            Err(error) => {
                return Err(error);
            },
        };
        assert(compact@ == compact_transaction_of((next.len() - 1) as u64, next.last()));
        assert(compact.outputs@.len() == compact@.outputs.len());
        assert(compact.actions@.len() == compact@.actions.len());
        assert(compact.ironwood_actions@.len() == compact@.ironwood_actions.len());
        let sapling = match count_to_u32(compact.outputs.len(), "Sapling output count") {
            Ok(count) => count,
            Err(error) => {
                proof {
                    lemma_tree_additions_fault_persists(parsed, i + 1);
                }
                return Err(error);
            },
        };
        let orchard = match count_to_u32(compact.actions.len(), "Orchard action count") {
            Ok(count) => count,
            Err(error) => {
                proof {
                    lemma_tree_additions_fault_persists(parsed, i + 1);
                }
                return Err(error);
            },
        };
        let ironwood = match count_to_u32(compact.ironwood_actions.len(), "Ironwood action count") {
            Ok(count) => count,
            Err(error) => {
                proof {
                    lemma_tree_additions_fault_persists(parsed, i + 1);
                }
                return Err(error);
            },
        };
        tree_size_additions =
        match tree_size_additions.checked_add(CommitmentTreeSizes { sapling, orchard, ironwood }) {
            Ok(sum) => sum,
            Err(error) => {
                proof {
                    lemma_tree_additions_fault_persists(parsed, i + 1);
                }
                return Err(error);
            },
        };
        if compact_transaction_has_payload(&compact) {
            let ghost before = vtx@;
            vtx.push(compact);
            assert(views(vtx@) =~= views(before).push(compact@));
        }
        i += 1;
    }
    assert(parsed.take(i as int) =~= parsed);
    Ok((vtx, tree_size_additions))
}

/// Writes a block hash the way node RPC does.
fn format_block_hash(bytes: [u8; 32]) -> (text: String)
    ensures
        text@ == rpc_block_hash_text(BlockHash(bytes)),
{
    encode_rpc_block_hash_hex(BlockHash::from_bytes(bytes))
}

/// The first identity field in which a parsed block disagrees with its source, if any.
pub open spec fn identity_fault(parsed: ParsedBlockView, source: SourceBlock) -> Option<
    ConstructionFault,
> {
    match parsed.coinbase_height {
        None => Some(ConstructionFault::ParsedBlockMissingCoinbaseHeight),
        Some(height) => if height != source.height.0 {
            Some(
                ConstructionFault::SourceBlockMismatch {
                    field: BlockMismatchField::Height,
                    expected: decimal(source.height.0 as nat),
                    actual: decimal(height as nat),
                },
            )
        } else if parsed.hash != source.hash.0 {
            Some(
                ConstructionFault::SourceBlockMismatch {
                    field: BlockMismatchField::Hash,
                    expected: rpc_block_hash_text(source.hash),
                    actual: rpc_block_hash_text(BlockHash(parsed.hash)),
                },
            )
        } else if parsed.previous_block_hash != source.parent_hash.0 {
            Some(
                ConstructionFault::SourceBlockMismatch {
                    field: BlockMismatchField::ParentHash,
                    expected: rpc_block_hash_text(source.parent_hash),
                    actual: rpc_block_hash_text(BlockHash(parsed.previous_block_hash)),
                },
            )
        } else if parsed.time_seconds < 0 || parsed.time_seconds > u32::MAX {
            Some(ConstructionFault::CountOverflow { field: "parsed block time"@ })
        } else if parsed.time_seconds != source.block_time_seconds {
            Some(
                ConstructionFault::SourceBlockMismatch {
                    field: BlockMismatchField::Time,
                    expected: decimal(source.block_time_seconds as nat),
                    actual: decimal(parsed.time_seconds as nat),
                },
            )
        } else {
            None
        },
    }
}

/// Checks that a parsed block is the block the source said it is.
pub fn validate_parsed_block_identity(
    parsed_block: &ParsedBlock,
    source_block: &SourceBlock,
) -> (outcome: Result<(), CanonicalBlockConstructionError>)
    ensures
        match outcome {
            Ok(()) => identity_fault(parsed_block@, *source_block) is None,
            Err(error) => identity_fault(parsed_block@, *source_block) == Some(error@),
        },
{
    let parsed_height = match parsed_block.coinbase_height {
        Some(parsed_height) => parsed_height,
        None => {
            return Err(CanonicalBlockConstructionError::ParsedBlockMissingCoinbaseHeight);
        },
    };
    if parsed_height != source_block.height.value() {
        return Err(
            CanonicalBlockConstructionError::SourceBlockMismatch {
                field: BlockMismatchField::Height,
                expected: decimal_text(source_block.height.value() as u64),
                actual: decimal_text(parsed_height as u64),
            },
        );
    }
    if !same_bytes(&parsed_block.hash, &source_block.hash.0) {
        return Err(
            CanonicalBlockConstructionError::SourceBlockMismatch {
                field: BlockMismatchField::Hash,
                expected: format_block_hash(source_block.hash.as_bytes()),
                actual: format_block_hash(parsed_block.hash),
            },
        );
    }
    if !same_bytes(&parsed_block.previous_block_hash, &source_block.parent_hash.0) {
        return Err(
            CanonicalBlockConstructionError::SourceBlockMismatch {
                field: BlockMismatchField::ParentHash,
                expected: format_block_hash(source_block.parent_hash.as_bytes()),
                actual: format_block_hash(parsed_block.previous_block_hash),
            },
        );
    }
    if parsed_block.time_seconds < 0 || parsed_block.time_seconds > u32::MAX as i64 {
        return Err(CanonicalBlockConstructionError::CountOverflow { field: "parsed block time" });
    }
    let parsed_time: u32 = parsed_block.time_seconds as u32;
    if parsed_time != source_block.block_time_seconds {
        return Err(
            CanonicalBlockConstructionError::SourceBlockMismatch {
                field: BlockMismatchField::Time,
                expected: decimal_text(source_block.block_time_seconds as u64),
                actual: decimal_text(parsed_time as u64),
            },
        );
    }
    Ok(())
}

/// Why the transaction at one position cannot be turned into canonical facts, if it cannot.
pub open spec fn transaction_fault(
    position: int,
    parsed: ParsedTransaction,
    fact_sets: Seq<Result<TransactionFactSet, String>>,
    raw_blob_policy: RawBlobPolicy,
) -> Option<ConstructionFault> {
    if position > u32::MAX {
        Some(ConstructionFault::TransactionIndexOverflow)
    } else if position >= fact_sets.len() {
        Some(
            ConstructionFault::TransactionFactsParseFailed {
                reason: "no facts were extracted for the transaction"@,
            },
        )
    } else {
        match fact_sets[position] {
            Err(reason) => Some(
                ConstructionFault::TransactionFactsParseFailed { reason: reason@ },
            ),
            Ok(_) => if raw_blob_policy is NoBlobs {
                None
            } else {
                match parsed.encoding {
                    None => Some(
                        ConstructionFault::TransactionSerializationFailed {
                            reason: "the transaction encoding was not requested"@,
                        },
                    ),
                    Some(Err(reason)) => Some(
                        ConstructionFault::TransactionSerializationFailed { reason: reason@ },
                    ),
                    Some(Ok(_)) => None,
                }
            },
        }
    }
}

/// The first fault among a run of transactions, if any.
pub open spec fn first_transaction_fault(
    parsed: Seq<ParsedTransaction>,
    fact_sets: Seq<Result<TransactionFactSet, String>>,
    raw_blob_policy: RawBlobPolicy,
) -> Option<ConstructionFault>
    decreases parsed.len(),
{
    if parsed.len() == 0 {
        None
    } else {
        match first_transaction_fault(parsed.drop_last(), fact_sets, raw_blob_policy) {
            Some(fault) => Some(fault),
            None => transaction_fault(
                parsed.len() - 1,
                parsed.last(),
                fact_sets,
                raw_blob_policy,
            ),
        }
    }
}

proof fn lemma_first_transaction_fault_persists(
    parsed: Seq<ParsedTransaction>,
    fact_sets: Seq<Result<TransactionFactSet, String>>,
    raw_blob_policy: RawBlobPolicy,
    k: int,
)
    requires
        0 <= k <= parsed.len(),
        first_transaction_fault(parsed.take(k), fact_sets, raw_blob_policy) is Some,
    ensures
        first_transaction_fault(parsed, fact_sets, raw_blob_policy) == first_transaction_fault(
            parsed.take(k),
            fact_sets,
            raw_blob_policy,
        ),
    decreases parsed.len() - k,
{
    if k == parsed.len() {
        assert(parsed.take(k) =~= parsed);
    } else {
        assert(parsed.take(k + 1).drop_last() =~= parsed.take(k));
        lemma_first_transaction_fault_persists(parsed, fact_sets, raw_blob_policy, k + 1);
    }
}

/// Whether canonical facts are those that a fact set and a blob policy give.
pub open spec fn transaction_prepared(
    facts: CanonicalTransactionFacts,
    parsed: ParsedTransaction,
    fact_set: Result<TransactionFactSet, String>,
    raw_blob_policy: RawBlobPolicy,
) -> bool {
    &&& fact_set matches Ok(set)
    &&& facts.public_facts == set.public_facts
    &&& facts.intrinsic_value_balances == set.intrinsic_value_balances
    &&& facts.transparent_inputs == set.transparent_inputs
    &&& facts.transparent_outputs == set.transparent_outputs
    &&& match facts.raw_transaction_bytes {
        Some(bytes) => {
            &&& !(raw_blob_policy is NoBlobs)
            &&& parsed.encoding matches Some(Ok(encoding))
            &&& bytes@ == encoding@
        },
        None => raw_blob_policy is NoBlobs,
    }
}

/// Joins the parsed transactions of a block with their extracted facts.
///
/// Surplus fact sets are ignored; a missing one is reported as a failed
/// extraction for its transaction.
pub fn prepare_canonical_transactions_from_parsed(
    parsed: &Vec<ParsedTransaction>,
    fact_sets: Vec<Result<TransactionFactSet, String>>,
    raw_blob_policy: RawBlobPolicy,
) -> (prepared: Result<Vec<CanonicalTransactionFacts>, CanonicalBlockConstructionError>)
    ensures
        match prepared {
            Ok(transactions) => {
                &&& first_transaction_fault(parsed@, fact_sets@, raw_blob_policy) is None
                &&& transactions@.len() == parsed@.len()
                &&& parsed@.len() <= fact_sets@.len()
                &&& forall|i: int|
                    0 <= i < transactions@.len() ==> transaction_prepared(
                        #[trigger] transactions@[i],
                        parsed@[i],
                        fact_sets@[i],
                        raw_blob_policy,
                    )
            },
            Err(error) => first_transaction_fault(parsed@, fact_sets@, raw_blob_policy) == Some(
                error@,
            ),
        },
{
    let ghost sets = fact_sets@;
    let set_count: usize = fact_sets.len();
    let mut transactions: Vec<CanonicalTransactionFacts> = Vec::new();
    let mut i: usize = 0;
    for fact_set in sets_left: fact_sets
        invariant
            sets_left.seq() == sets,
            set_count == sets.len(),
            i == sets_left.index(),
            i < parsed@.len() ==> transactions@.len() == i,
            i >= parsed@.len() ==> transactions@.len() == parsed@.len(),
            first_transaction_fault(
                parsed@.take(transactions@.len() as int),
                sets,
                raw_blob_policy,
            ) is None,
            forall|j: int|
                0 <= j < transactions@.len() ==> transaction_prepared(
                    #[trigger] transactions@[j],
                    parsed@[j],
                    sets[j],
                    raw_blob_policy,
                ),
    {
        if i < parsed.len() {
            let ghost upto = parsed@.take(i + 1);
            assert(upto.drop_last() =~= parsed@.take(i as int));
            assert(upto.last() == parsed@[i as int]);
            if u32::try_from(i).is_err() {
                proof {
                    lemma_first_transaction_fault_persists(parsed@, sets, raw_blob_policy, i + 1);
                }
                return Err(CanonicalBlockConstructionError::TransactionIndexOverflow);
            }
            let set = match fact_set {
                Ok(set) => set,
                Err(reason) => {
                    proof {
                        lemma_first_transaction_fault_persists(
                            parsed@,
                            sets,
                            raw_blob_policy,
                            i + 1,
                        );
                    }
                    return Err(CanonicalBlockConstructionError::TransactionFactsParseFailed { reason });
                },
            };
            let raw_transaction_bytes = if raw_blob_policy.writes_transaction_blobs() {
                match &parsed[i].encoding {
                    None => {
                        proof {
                            lemma_first_transaction_fault_persists(
                                parsed@,
                                sets,
                                raw_blob_policy,
                                i + 1,
                            );
                        }
                        return Err(
                            CanonicalBlockConstructionError::TransactionSerializationFailed {
                                reason: "the transaction encoding was not requested".to_owned(),
                            },
                        );
                    },
                    Some(Err(reason)) => {
                        proof {
                            lemma_first_transaction_fault_persists(
                                parsed@,
                                sets,
                                raw_blob_policy,
                                i + 1,
                            );
                        }
                        return Err(
                            CanonicalBlockConstructionError::TransactionSerializationFailed {
                                reason: reason.clone(),
                            },
                        );
                    },
                    Some(Ok(bytes)) => Some(slice_to_vec(bytes.as_slice())),
                }
            } else {
                None
            };
            transactions.push(
                CanonicalTransactionFacts {
                    public_facts: set.public_facts,
                    intrinsic_value_balances: set.intrinsic_value_balances,
                    transparent_inputs: set.transparent_inputs,
                    transparent_outputs: set.transparent_outputs,
                    raw_transaction_bytes,
                },
            );
        }
        i += 1;
    }
    if set_count < parsed.len() {
        proof {
            let upto = parsed@.take(set_count + 1);
            assert(upto.drop_last() =~= parsed@.take(set_count as int));
            lemma_first_transaction_fault_persists(parsed@, sets, raw_blob_policy, set_count + 1);
        }
        if u32::try_from(set_count).is_err() {
            return Err(CanonicalBlockConstructionError::TransactionIndexOverflow);
        }
        return Err(
            CanonicalBlockConstructionError::TransactionFactsParseFailed {
                reason: "no facts were extracted for the transaction".to_owned(),
            },
        );
    }
    assert(parsed@.take(parsed@.len() as int) =~= parsed@);
    Ok(transactions)
}

/// Why canonical construction refuses a parsed block, if it does.
pub open spec fn construction_fault(
    parsed: ParsedBlock,
    source: SourceBlock,
    header_info: Result<BlockHeaderInfo, String>,
    fact_sets: Seq<Result<TransactionFactSet, String>>,
    raw_blob_policy: RawBlobPolicy,
) -> Option<ConstructionFault> {
    match identity_fault(parsed@, source) {
        Some(fault) => Some(fault),
        None => match block_tree_additions(parsed@.transactions) {
            Err(fault) => Some(fault),
            Ok(_) => match first_transaction_fault(
                parsed.transactions@,
                fact_sets,
                raw_blob_policy,
            ) {
                Some(fault) => Some(fault),
                None => match parsed.header_encoding {
                    Err(reason) => Some(
                        ConstructionFault::BlockHeaderSerializationFailed { reason: reason@ },
                    ),
                    Ok(_) => match header_info {
                        Err(reason) => Some(
                            ConstructionFault::BlockHeaderParseFailed { reason: reason@ },
                        ),
                        Ok(_) => None,
                    },
                },
            },
        },
    }
}

/// The compact block of a parsed block before its position is known.
pub open spec fn partial_compact_block_of(
    parsed: ParsedBlockView,
    header_encoding: Seq<u8>,
    source: SourceBlock,
) -> CompactBlockView {
    CompactBlockView {
        height: source.height.0 as u64,
        hash: source.hash.0@,
        prev_hash: source.parent_hash.0@,
        time: source.block_time_seconds,
        header: header_encoding,
        vtx: compact_transactions_of(parsed.transactions),
        chain_metadata: None,
    }
}

/// Whether a prepared block holds exactly what a parsed block and its extracted facts give.
pub open spec fn block_prepared(
    prepared: PreparedCanonicalBlock,
    parsed: ParsedBlock,
    source: SourceBlock,
    header_info: Result<BlockHeaderInfo, String>,
    fact_sets: Seq<Result<TransactionFactSet, String>>,
    raw_blob_policy: RawBlobPolicy,
) -> bool {
    &&& header_info matches Ok(info)
    &&& prepared.facts.block_header == BlockHeaderArtifact::spec_from_header_info(
        info,
        source.raw_block_bytes@.len() as u64,
    )
    &&& match prepared.facts.raw_block_bytes {
        Some(bytes) => raw_blob_policy is All && bytes@ == source.raw_block_bytes@,
        None => !(raw_blob_policy is All),
    }
    &&& prepared.facts.transactions@.len() == parsed.transactions@.len()
    &&& parsed.transactions@.len() <= fact_sets.len()
    &&& forall|i: int|
        0 <= i < parsed.transactions@.len() ==> transaction_prepared(
            #[trigger] prepared.facts.transactions@[i],
            parsed.transactions@[i],
            fact_sets[i],
            raw_blob_policy,
        )
    &&& parsed.header_encoding matches Ok(header_encoding)
    &&& prepared.partial_compact_block@ == partial_compact_block_of(
        parsed@,
        header_encoding@,
        source,
    )
    &&& block_tree_additions(parsed@.transactions) == Ok::<CommitmentTreeSizes, ConstructionFault>(
        prepared.tree_size_additions,
    )
}

/// What preparation makes of a source block and the facts extracted from it.
///
/// An empty payload and one that does not decode are refused as such. Any
/// other outcome is the one construction gives for the decoded values.
pub open spec fn preparation_outcome(
    prepared: Result<PreparedCanonicalBlock, CanonicalBlockConstructionError>,
    source: SourceBlock,
    header_info: Result<BlockHeaderInfo, String>,
    fact_sets: Seq<Result<TransactionFactSet, String>>,
    raw_blob_policy: RawBlobPolicy,
) -> bool {
    if source.raw_block_bytes@.len() == 0 {
        prepared matches Err(error) && error@ == ConstructionFault::EmptySourcePayload
    } else if decoded_block(source.raw_block_bytes@) is None {
        prepared matches Err(error) && error@ == ConstructionFault::BlockParseFailed
    } else {
        exists|parsed: ParsedBlock|
            {
                &&& #[trigger] parsed_from(parsed, source.raw_block_bytes@, raw_blob_policy)
                &&& construction_outcome(
                    prepared,
                    parsed,
                    source,
                    header_info,
                    fact_sets,
                    raw_blob_policy,
                )
            }
    }
}

/// What construction makes of a parsed block and the facts extracted from it.
pub open spec fn construction_outcome(
    prepared: Result<PreparedCanonicalBlock, CanonicalBlockConstructionError>,
    parsed: ParsedBlock,
    source: SourceBlock,
    header_info: Result<BlockHeaderInfo, String>,
    fact_sets: Seq<Result<TransactionFactSet, String>>,
    raw_blob_policy: RawBlobPolicy,
) -> bool {
    match prepared {
        Ok(prepared) => {
            &&& construction_fault(
                parsed,
                source,
                header_info,
                fact_sets,
                raw_blob_policy,
            ) is None
            &&& block_prepared(prepared, parsed, source, header_info, fact_sets, raw_blob_policy)
        },
        Err(error) => construction_fault(
            parsed,
            source,
            header_info,
            fact_sets,
            raw_blob_policy,
        ) == Some(error@),
    }
}

/// Prepares block-local canonical facts from a block that is already parsed.
pub fn prepare_canonical_block_from_parsed(
    parsed_block: ParsedBlock,
    source_block: &SourceBlock,
    header_info: Result<BlockHeaderInfo, String>,
    fact_sets: Vec<Result<TransactionFactSet, String>>,
    raw_blob_policy: RawBlobPolicy,
) -> (prepared: Result<PreparedCanonicalBlock, CanonicalBlockConstructionError>)
    ensures
        construction_outcome(
            prepared,
            parsed_block,
            *source_block,
            header_info,
            fact_sets@,
            raw_blob_policy,
        ),
{
    match validate_parsed_block_identity(&parsed_block, source_block) {
        Ok(()) => {},
        Err(error) => {
            return Err(error);
        },
    }
    let (vtx, tree_size_additions) = match compact_transactions(&parsed_block) {
        Ok(compacted) => compacted,
        Err(error) => {
            return Err(error);
        },
    };
    let transactions = match prepare_canonical_transactions_from_parsed(
        &parsed_block.transactions,
        fact_sets,
        raw_blob_policy,
    ) {
        Ok(transactions) => transactions,
        Err(error) => {
            return Err(error);
        },
    };
    let header = match parsed_block.header_encoding {
        Ok(header) => header,
        Err(reason) => {
            return Err(CanonicalBlockConstructionError::BlockHeaderSerializationFailed { reason });
        },
    };
    let info = match header_info {
        Ok(info) => info,
        Err(reason) => {
            return Err(CanonicalBlockConstructionError::BlockHeaderParseFailed { reason });
        },
    };
    let block_header = BlockHeaderArtifact::from_header_info_with_block_size(
        info,
        usize_to_u64_saturating(source_block.raw_block_bytes.len()),
    );
    let raw_block_bytes = if raw_blob_policy.writes_block_blobs() {
        Some(slice_to_vec(source_block.raw_block_bytes.as_slice()))
    } else {
        None
    };
    let partial_compact_block = CompactBlock {
        height: source_block.height.value() as u64,
        hash: slice_to_vec(source_block.hash.0.as_slice()),
        prev_hash: slice_to_vec(source_block.parent_hash.0.as_slice()),
        time: source_block.block_time_seconds,
        header,
        vtx,
        chain_metadata: None,
    };
    Ok(
        PreparedCanonicalBlock {
            facts: CanonicalBlockFacts { block_header, raw_block_bytes, transactions },
            partial_compact_block,
            tree_size_additions,
        },
    )
}

/// Whether a parsed block holds what the decoder read out of some raw bytes,
/// with transaction encodings exactly where a blob policy keeps them.
pub open spec fn parsed_from(
    parsed: ParsedBlock,
    raw_block_bytes: Seq<u8>,
    raw_blob_policy: RawBlobPolicy,
) -> bool {
    &&& decoded_block(raw_block_bytes) matches Some(block)
    &&& parsed@ == block_facts_view(block)
    &&& encoding_agrees(parsed.header_encoding, block_header_encoding(block))
    &&& parsed.transactions@.len() == block_transactions(block).len()
    &&& forall|i: int|
        #![trigger parsed.transactions@[i]]
        0 <= i < parsed.transactions@.len() ==> {
            &&& parsed.transactions@[i].encoding is Some <==> !(raw_blob_policy is NoBlobs)
            &&& parsed.transactions@[i].encoding matches Some(outcome) ==> encoding_agrees(
                outcome,
                transaction_encoding(block_transactions(block)[i]),
            )
        }
}

/// Parses one source block into plain values.
pub fn parse_source_block(
    source_block: &SourceBlock,
    raw_blob_policy: RawBlobPolicy,
) -> (parsed: Result<ParsedBlock, CanonicalBlockConstructionError>)
    ensures
        match parsed {
            Ok(parsed) => {
                &&& source_block.raw_block_bytes@.len() > 0
                &&& parsed_from(parsed, source_block.raw_block_bytes@, raw_blob_policy)
            },
            Err(error) => if source_block.raw_block_bytes@.len() == 0 {
                error@ == ConstructionFault::EmptySourcePayload
            } else {
                &&& decoded_block(source_block.raw_block_bytes@) is None
                &&& error@ == ConstructionFault::BlockParseFailed
            },
        },
{
    if source_block.raw_block_bytes.len() == 0 {
        return Err(CanonicalBlockConstructionError::EmptySourcePayload);
    }
    match decode_block(source_block.raw_block_bytes.as_slice()) {
        Ok(block) => {
            assert(is_decoded_block(block));
            Ok(read_parsed_block(&block, raw_blob_policy.writes_transaction_blobs()))
        },
        Err(source) => Err(CanonicalBlockConstructionError::BlockParseFailed { source }),
    }
}

/// Prepares block-local canonical facts with an explicit raw-blob policy.
///
/// `header_info` and `fact_sets` are what the header and transaction fact
/// parsers reported for this block.
pub fn prepare_canonical_block_with_raw_blob_policy(
    source_block: &SourceBlock,
    header_info: Result<BlockHeaderInfo, String>,
    fact_sets: Vec<Result<TransactionFactSet, String>>,
    raw_blob_policy: RawBlobPolicy,
) -> (prepared: Result<PreparedCanonicalBlock, CanonicalBlockConstructionError>)
    ensures
        preparation_outcome(prepared, *source_block, header_info, fact_sets@, raw_blob_policy),
{
    let parsed = match parse_source_block(source_block, raw_blob_policy) {
        Ok(parsed) => parsed,
        Err(error) => {
            return Err(error);
        },
    };
    assert(parsed_from(parsed, source_block.raw_block_bytes@, raw_blob_policy));
    prepare_canonical_block_from_parsed(
        parsed,
        source_block,
        header_info,
        fact_sets,
        raw_blob_policy,
    )
}

/// Parses one source block and prepares its block-local canonical facts,
/// keeping no raw bytes.
///
/// Preparation is parallel-safe because the returned value does not depend on
/// the block's position in the running chain state.
pub fn prepare_canonical_block(
    source_block: &SourceBlock,
    header_info: Result<BlockHeaderInfo, String>,
    fact_sets: Vec<Result<TransactionFactSet, String>>,
) -> (prepared: Result<PreparedCanonicalBlock, CanonicalBlockConstructionError>)
    ensures
        preparation_outcome(
            prepared,
            *source_block,
            header_info,
            fact_sets@,
            RawBlobPolicy::NoBlobs,
        ),
{
    prepare_canonical_block_with_raw_blob_policy(
        source_block,
        header_info,
        fact_sets,
        RawBlobPolicy::NoBlobs,
    )
}

/// Finalizes one prepared block at its ordered commitment-tree position.
///
/// Applies `prepared.tree_size_additions` to `running_tree_sizes`, stamps
/// the final `chain_metadata` into the compact block, and returns the
/// finalized [`PositionedCanonicalBlock`]. `running_tree_sizes` moves forward
/// only when the block fits, so a sequential loop can carry it across blocks.
pub fn finalize_canonical_block(
    prepared: PreparedCanonicalBlock,
    running_tree_sizes: &mut CommitmentTreeSizes,
) -> (positioned: Result<PositionedCanonicalBlock, CanonicalBlockConstructionError>)
    ensures
        match old(running_tree_sizes).sum(prepared.tree_size_additions) {
            Ok(sizes) => {
                &&& *final(running_tree_sizes) == sizes
                &&& positioned matches Ok(positioned)
                &&& positioned.facts == prepared.facts
                &&& positioned.compact_block@ == (CompactBlockView {
                    chain_metadata: Some(sizes.as_chain_metadata()),
                    ..prepared.partial_compact_block@
                })
                &&& positioned.tip_metadata == sizes.as_tip_metadata()
            },
            Err(fault) => {
                &&& *final(running_tree_sizes) == *old(running_tree_sizes)
                &&& positioned matches Err(error)
                &&& error@ == fault
            },
        },
{
    let PreparedCanonicalBlock { facts, partial_compact_block, tree_size_additions } = prepared;
    let final_tree_sizes = match running_tree_sizes.checked_add(tree_size_additions) {
        Ok(sizes) => sizes,
        Err(error) => {
            return Err(error);
        },
    };
    let mut compact_block = partial_compact_block;
    compact_block.chain_metadata = Some(final_tree_sizes.chain_metadata());
    *running_tree_sizes = final_tree_sizes;
    Ok(
        PositionedCanonicalBlock {
            facts,
            compact_block,
            tip_metadata: final_tree_sizes.tip_metadata(),
        },
    )
}

/// Joins a positioned block with the payloads its encoders produced for it.
pub fn attach_encodings(
    positioned: PositionedCanonicalBlock,
    replay_envelope: CanonicalBlockReplayEnvelope,
    compact_block_payload: Vec<u8>,
) -> (encoded: EncodedCanonicalBlock)
    ensures
        encoded.facts == positioned.facts,
        encoded.replay_envelope == replay_envelope,
        encoded.compact_block == (CompactBlockArtifact {
            height: positioned.facts.block_header.height,
            block_hash: positioned.facts.block_header.block_hash,
            payload_bytes: compact_block_payload,
        }),
        encoded.tip_metadata == positioned.tip_metadata,
{
    let height = positioned.facts.block_header.height;
    let block_hash = positioned.facts.block_header.block_hash;
    EncodedCanonicalBlock {
        facts: positioned.facts,
        replay_envelope,
        compact_block: CompactBlockArtifact {
            height,
            block_hash,
            payload_bytes: compact_block_payload,
        },
        tip_metadata: positioned.tip_metadata,
    }
}

/// Physical rows required by the current store writer.
///
/// These redundant index shapes belong to the current-schema writer boundary
/// and are not part of the backend-neutral fact contract.
#[derive(Debug)]
pub struct CurrentSchemaBlockArtifacts {
    pub block_header: BlockHeaderArtifact,
    pub block_blob: Option<BlockBlobArtifact>,
    pub block_transaction_index: Vec<BlockTransactionIndexArtifact>,
    pub transaction_locations: Vec<TransactionLocation>,
    pub transaction_facts: Vec<TransactionFactsArtifact>,
    pub transaction_intrinsic_value_balances: Vec<TransactionIntrinsicValueBalancesArtifact>,
    pub transaction_blobs: Vec<TransactionBlobArtifact>,
    pub transparent_outputs_by_outpoint: Vec<TransparentOutputArtifact>,
}

/// Where the transaction at one position of a block was mined.
pub open spec fn location_of(
    block_header: BlockHeaderArtifact,
    transaction: CanonicalTransactionFacts,
    position: int,
) -> TransactionLocation {
    TransactionLocation {
        transaction_id: transaction.public_facts.transaction_id,
        block_height: block_header.height,
        block_hash: block_header.block_hash,
        tx_index_in_block: position as u32,
    }
}

/// Store row of one transparent output.
pub open spec fn output_row_of(
    block_header: BlockHeaderArtifact,
    transaction: CanonicalTransactionFacts,
    output: TransparentOutputFact,
) -> TransparentOutputRow {
    TransparentOutputRow {
        outpoint: TransparentOutPoint {
            transaction_id: transaction.public_facts.transaction_id,
            output_index: output.output_index,
        },
        value_zat: output.value_zat,
        script_pub_key: output.script_pub_key@,
        address_script_hash: output.address_script_hash,
        block_height: block_header.height,
        block_hash: block_header.block_hash,
    }
}

/// Store rows of the transparent outputs of one transaction.
pub open spec fn transaction_output_rows(
    block_header: BlockHeaderArtifact,
    transaction: CanonicalTransactionFacts,
) -> Seq<TransparentOutputRow> {
    transaction.transparent_outputs@.map_values(
        |output: TransparentOutputFact| output_row_of(block_header, transaction, output),
    )
}

/// Store rows of the transparent outputs of a run of transactions, in block order.
pub open spec fn output_rows(
    block_header: BlockHeaderArtifact,
    transactions: Seq<CanonicalTransactionFacts>,
) -> Seq<TransparentOutputRow>
    decreases transactions.len(),
{
    if transactions.len() == 0 {
        Seq::empty()
    } else {
        output_rows(block_header, transactions.drop_last()) + transaction_output_rows(
            block_header,
            transactions.last(),
        )
    }
}

/// Raw-byte rows of a run of transactions, for those that kept their bytes.
pub open spec fn transaction_blob_rows(
    block_header: BlockHeaderArtifact,
    transactions: Seq<CanonicalTransactionFacts>,
) -> Seq<TransactionBlobArtifact>
    decreases transactions.len(),
{
    if transactions.len() == 0 {
        Seq::empty()
    } else {
        let before = transaction_blob_rows(block_header, transactions.drop_last());
        match transactions.last().raw_transaction_bytes {
            Some(raw_transaction_bytes) => before.push(
                TransactionBlobArtifact {
                    location: location_of(
                        block_header,
                        transactions.last(),
                        transactions.len() - 1,
                    ),
                    raw_transaction_bytes,
                },
            ),
            None => before,
        }
    }
}

/// Expands block-local transparent outputs into current-schema outpoint rows.
pub fn current_schema_transparent_outputs(facts: &CanonicalBlockFacts) -> (rows: Vec<
    TransparentOutputArtifact,
>)
    ensures
        views(rows@) == output_rows(facts.block_header, facts.transactions@),
{
    let mut rows: Vec<TransparentOutputArtifact> = Vec::new();
    let mut i: usize = 0;
    assert(views(rows@) =~= output_rows(facts.block_header, facts.transactions@.take(0)));
    while i < facts.transactions.len()
        invariant
            0 <= i <= facts.transactions@.len(),
            views(rows@) == output_rows(facts.block_header, facts.transactions@.take(i as int)),
        decreases facts.transactions@.len() - i,
    {
        let transaction = &facts.transactions[i];
        let ghost before = rows@;
        let mut j: usize = 0;
        while j < transaction.transparent_outputs.len()
            invariant
                0 <= j <= transaction.transparent_outputs@.len(),
                0 <= i < facts.transactions@.len(),
                *transaction == facts.transactions@[i as int],
                rows@.len() == before.len() + j,
                forall|k: int| 0 <= k < before.len() ==> rows@[k] == before[k],
                forall|k: int|
                    0 <= k < j ==> (#[trigger] rows@[before.len() + k])@ == output_row_of(
                        facts.block_header,
                        *transaction,
                        transaction.transparent_outputs@[k],
                    ),
            decreases transaction.transparent_outputs@.len() - j,
        {
            let output = &transaction.transparent_outputs[j];
            rows.push(
                TransparentOutputArtifact {
                    outpoint: TransparentOutPoint::new(
                        transaction.public_facts.transaction_id,
                        output.output_index,
                    ),
                    value_zat: output.value_zat,
                    script_pub_key: slice_to_vec(output.script_pub_key.as_slice()),
                    address_script_hash: output.address_script_hash,
                    block_height: facts.block_header.height,
                    block_hash: facts.block_header.block_hash,
                },
            );
            j += 1;
        }
        proof {
            let upto = facts.transactions@.take(i + 1);
            assert(upto.drop_last() =~= facts.transactions@.take(i as int));
            assert(upto.last() == *transaction);
            assert forall|k: int| 0 <= k < rows@.len() implies #[trigger] views(rows@)[k] == (views(
                before,
            ) + transaction_output_rows(facts.block_header, *transaction))[k] by {
                if k >= before.len() {
                    assert(rows@[before.len() + (k - before.len())]@ == output_row_of(
                        facts.block_header,
                        *transaction,
                        transaction.transparent_outputs@[k - before.len()],
                    ));
                }
            }
            assert(views(rows@) =~= views(before) + transaction_output_rows(
                facts.block_header,
                *transaction,
            ));
        }
        i += 1;
    }
    assert(facts.transactions@.take(i as int) =~= facts.transactions@);
    rows
}

/// Whether the rows at one position are those of the transaction at that position.
pub open spec fn rows_match_transaction(
    rows: CurrentSchemaBlockArtifacts,
    facts: CanonicalBlockFacts,
    position: int,
) -> bool {
    let transaction = facts.transactions@[position];
    let location = location_of(facts.block_header, transaction, position);
    &&& rows.block_transaction_index@[position] == (BlockTransactionIndexArtifact {
        block_height: facts.block_header.height,
        tx_index_in_block: position as u32,
        transaction_id: transaction.public_facts.transaction_id,
        block_hash: facts.block_header.block_hash,
    })
    &&& rows.transaction_locations@[position] == location
    &&& rows.transaction_facts@[position] == (TransactionFactsArtifact {
        location,
        public_facts: transaction.public_facts,
        transparent_inputs: transaction.transparent_inputs,
        transparent_outputs: transaction.transparent_outputs,
    })
    &&& rows.transaction_intrinsic_value_balances@[position] == (
    TransactionIntrinsicValueBalancesArtifact {
        location,
        intrinsic_value_balances: transaction.intrinsic_value_balances,
    })
}

/// Whether rows are exactly the expansion of a block's facts.
pub open spec fn is_expansion(
    rows: CurrentSchemaBlockArtifacts,
    facts: CanonicalBlockFacts,
) -> bool {
    &&& rows.block_header == facts.block_header
    &&& rows.block_blob == match facts.raw_block_bytes {
        Some(raw_block_bytes) => Some(
            BlockBlobArtifact {
                height: facts.block_header.height,
                block_hash: facts.block_header.block_hash,
                parent_hash: facts.block_header.parent_hash,
                raw_block_bytes,
            },
        ),
        None => None,
    }
    &&& rows.block_transaction_index@.len() == facts.transactions@.len()
    &&& rows.transaction_locations@.len() == facts.transactions@.len()
    &&& rows.transaction_facts@.len() == facts.transactions@.len()
    &&& rows.transaction_intrinsic_value_balances@.len() == facts.transactions@.len()
    &&& forall|i: int|
        0 <= i < facts.transactions@.len() ==> #[trigger] rows_match_transaction(rows, facts, i)
    &&& rows.transaction_blobs@ == transaction_blob_rows(facts.block_header, facts.transactions@)
    &&& views(rows.transparent_outputs_by_outpoint@) == output_rows(
        facts.block_header,
        facts.transactions@,
    )
}

/// Most transactions whose positions all fit `u32`.
pub const POSITION_LIMIT: u64 = 0x1_0000_0000;

/// Expands the minimal fact envelope into the redundant rows the current
/// store schema still commits.
pub fn expand_current_schema_block_artifacts(facts: CanonicalBlockFacts) -> (expanded: Result<
    CurrentSchemaBlockArtifacts,
    CanonicalBlockConstructionError,
>)
    ensures
        match expanded {
            Ok(rows) => facts.transactions@.len() <= POSITION_LIMIT && is_expansion(rows, facts),
            Err(error) => {
                &&& facts.transactions@.len() > POSITION_LIMIT
                &&& error@ == ConstructionFault::TransactionIndexOverflow
            },
        },
{
    let ghost whole = facts;
    let transparent_outputs_by_outpoint = current_schema_transparent_outputs(&facts);
    let CanonicalBlockFacts { block_header, raw_block_bytes, transactions } = facts;
    let block_height = block_header.height;
    let block_hash = block_header.block_hash;
    let block_blob = match raw_block_bytes {
        Some(raw_block_bytes) => Some(
            BlockBlobArtifact {
                height: block_height,
                block_hash,
                parent_hash: block_header.parent_hash,
                raw_block_bytes,
            },
        ),
        None => None,
    };
    let ghost all = transactions@;
    let transaction_count: usize = transactions.len();
    let mut block_transaction_index: Vec<BlockTransactionIndexArtifact> = Vec::new();
    let mut transaction_locations: Vec<TransactionLocation> = Vec::new();
    let mut transaction_facts: Vec<TransactionFactsArtifact> = Vec::new();
    let mut transaction_intrinsic_value_balances: Vec<TransactionIntrinsicValueBalancesArtifact> =
        Vec::new();
    let mut transaction_blobs: Vec<TransactionBlobArtifact> = Vec::new();
    let mut position: usize = 0;
    assert(transaction_blobs@ =~= transaction_blob_rows(block_header, all.take(0)));
    for transaction in left: transactions
        invariant
            left.seq() == all,
            transaction_count == all.len(),
            whole == facts,
            all == whole.transactions@,
            block_header == whole.block_header,
            block_height == block_header.height,
            block_hash == block_header.block_hash,
            position == left.index(),
            position <= POSITION_LIMIT,
            block_transaction_index@.len() == position,
            transaction_locations@.len() == position,
            transaction_facts@.len() == position,
            transaction_intrinsic_value_balances@.len() == position,
            forall|i: int|
                #![trigger block_transaction_index@[i]]
                #![trigger transaction_locations@[i]]
                #![trigger transaction_facts@[i]]
                #![trigger transaction_intrinsic_value_balances@[i]]
                0 <= i < position ==> {
                    let location = location_of(block_header, all[i], i);
                    &&& block_transaction_index@[i] == (BlockTransactionIndexArtifact {
                        block_height,
                        tx_index_in_block: i as u32,
                        transaction_id: all[i].public_facts.transaction_id,
                        block_hash,
                    })
                    &&& transaction_locations@[i] == location
                    &&& transaction_facts@[i] == (TransactionFactsArtifact {
                        location,
                        public_facts: all[i].public_facts,
                        transparent_inputs: all[i].transparent_inputs,
                        transparent_outputs: all[i].transparent_outputs,
                    })
                    &&& transaction_intrinsic_value_balances@[i] == (
                    TransactionIntrinsicValueBalancesArtifact {
                        location,
                        intrinsic_value_balances: all[i].intrinsic_value_balances,
                    })
                },
            transaction_blobs@ == transaction_blob_rows(block_header, all.take(position as int)),
    {
        let ghost upto = all.take(position + 1);
        assert(upto.drop_last() =~= all.take(position as int));
        assert(upto.last() == transaction);
        let tx_index_in_block = match u32::try_from(position) {
            Ok(tx_index_in_block) => tx_index_in_block,
            Err(_) => {
                return Err(CanonicalBlockConstructionError::TransactionIndexOverflow);
            },
        };
        let CanonicalTransactionFacts {
            public_facts,
            intrinsic_value_balances,
            transparent_inputs,
            transparent_outputs,
            raw_transaction_bytes,
        } = transaction;
        let transaction_id = public_facts.transaction_id;
        let location = TransactionLocation {
            transaction_id,
            block_height,
            block_hash,
            tx_index_in_block,
        };
        block_transaction_index.push(
            BlockTransactionIndexArtifact {
                block_height,
                tx_index_in_block,
                transaction_id,
                block_hash,
            },
        );
        transaction_locations.push(location);
        transaction_facts.push(
            TransactionFactsArtifact {
                location,
                public_facts,
                transparent_inputs,
                transparent_outputs,
            },
        );
        transaction_intrinsic_value_balances.push(
            TransactionIntrinsicValueBalancesArtifact { location, intrinsic_value_balances },
        );
        match raw_transaction_bytes {
            Some(raw_transaction_bytes) => {
                transaction_blobs.push(TransactionBlobArtifact { location, raw_transaction_bytes });
            },
            None => {},
        }
        position += 1;
    }
    assert(all.take(position as int) =~= all);
    let rows = CurrentSchemaBlockArtifacts {
        block_header,
        block_blob,
        block_transaction_index,
        transaction_locations,
        transaction_facts,
        transaction_intrinsic_value_balances,
        transaction_blobs,
        transparent_outputs_by_outpoint,
    };
    assert forall|i: int| 0 <= i < whole.transactions@.len() implies #[trigger]
        rows_match_transaction(rows, whole, i) by {
        assert(rows.transaction_locations@[i] == location_of(block_header, all[i], i));
    }
    Ok(rows)
}

/// Folding two deltas one after the other gives the position that folding
/// their sum gives, and fails exactly when the sum cannot be folded.
pub proof fn law_positions_fold_in_any_grouping(
    running: CommitmentTreeSizes,
    first: CommitmentTreeSizes,
    second: CommitmentTreeSizes,
    reached: CommitmentTreeSizes,
)
    ensures
        (running.sum(first) matches Ok(middle) && middle.sum(second) == Ok::<
            CommitmentTreeSizes,
            ConstructionFault,
        >(reached)) <==> (first.sum(second) matches Ok(both) && running.sum(both) == Ok::<
            CommitmentTreeSizes,
            ConstructionFault,
        >(reached)),
{
}

/// A position survives being stored as chain-tip metadata and read back.
pub proof fn law_position_survives_tip_metadata(sizes: CommitmentTreeSizes)
    ensures
        CommitmentTreeSizes::of_tip_metadata(sizes.as_tip_metadata()) == sizes,
{
}

/// A transaction left out of the compact block adds no note to any tree.
pub proof fn law_dropped_transaction_adds_no_notes(index: u64, transaction: ParsedTransactionView)
    requires
        !has_payload(compact_transaction_of(index, transaction)),
    ensures
        transaction_tree_additions(transaction) == Ok::<CommitmentTreeSizes, ConstructionFault>(
            CommitmentTreeSizes::zero(),
        ),
{
    let compact = compact_transaction_of(index, transaction);
    assert(compact.outputs.len() == transaction.sapling_outputs.len());
    assert(compact.actions.len() == transaction.orchard_actions.len());
    assert(compact.ironwood_actions.len() == transaction.ironwood_actions.len());
}

/// Each compact transaction is the compact form of the block transaction that
/// its index names, and the indexes rise strictly through the compact block.
pub proof fn law_compact_transactions_name_their_block_positions(
    transactions: Seq<ParsedTransactionView>,
)
    requires
        transactions.len() <= u64::MAX,
    ensures
        forall|k: int|
            0 <= k < compact_transactions_of(transactions).len() ==> {
                let compact = #[trigger] compact_transactions_of(transactions)[k];
                &&& compact.index < transactions.len()
                &&& compact == compact_transaction_of(
                    compact.index,
                    transactions[compact.index as int],
                )
                &&& has_payload(compact)
            },
        forall|j: int, k: int|
            0 <= j < k < compact_transactions_of(transactions).len() ==> (
            #[trigger] compact_transactions_of(transactions)[j]).index < (
            #[trigger] compact_transactions_of(transactions)[k]).index,
    decreases transactions.len(),
{
    if transactions.len() > 0 {
        law_compact_transactions_name_their_block_positions(transactions.drop_last());
        let before = compact_transactions_of(transactions.drop_last());
        let compact = compact_transaction_of((transactions.len() - 1) as u64, transactions.last());
        assert forall|k: int| 0 <= k < compact_transactions_of(transactions).len() implies {
            let compact = #[trigger] compact_transactions_of(transactions)[k];
            &&& compact.index < transactions.len()
            &&& compact == compact_transaction_of(
                compact.index,
                transactions[compact.index as int],
            )
            &&& has_payload(compact)
        } by {
            if k < before.len() {
                assert(before[k].index < transactions.len() - 1);
            }
        }
        assert forall|j: int, k: int|
            0 <= j < k < compact_transactions_of(transactions).len() implies (
        #[trigger] compact_transactions_of(transactions)[j]).index < (
        #[trigger] compact_transactions_of(transactions)[k]).index by {
            assert(before[j].index < transactions.len() - 1);
        }
    }
}

/// Every transparent output row of a block is located at that block.
pub proof fn law_output_rows_stay_at_their_block(
    block_header: BlockHeaderArtifact,
    transactions: Seq<CanonicalTransactionFacts>,
)
    ensures
        forall|k: int|
            0 <= k < output_rows(block_header, transactions).len() ==> {
                let row = #[trigger] output_rows(block_header, transactions)[k];
                row.block_height == block_header.height && row.block_hash
                    == block_header.block_hash
            },
    decreases transactions.len(),
{
    if transactions.len() > 0 {
        law_output_rows_stay_at_their_block(block_header, transactions.drop_last());
        let before = output_rows(block_header, transactions.drop_last());
        assert forall|k: int| 0 <= k < output_rows(block_header, transactions).len() implies {
            let row = #[trigger] output_rows(block_header, transactions)[k];
            row.block_height == block_header.height && row.block_hash == block_header.block_hash
        } by {
            if k < before.len() {
                assert(output_rows(block_header, transactions)[k] == before[k]);
            }
        }
    }
}

/// A compact transaction carries its position, the transaction's identifier and
/// no fee; what it carries of each pool is what the parsed transaction has, in
/// order, field by field, with the first 52 bytes of each note ciphertext.
pub proof fn law_compact_transaction_carries_its_parts(
    index: u64,
    transaction: ParsedTransactionView,
)
    ensures
        ({
            let compact = compact_transaction_of(index, transaction);
            &&& compact.index == index
            &&& compact.txid == transaction.txid@
            &&& compact.fee == 0
            &&& compact.spends.len() == transaction.sapling_nullifiers.len()
            &&& forall|i: int|
                0 <= i < compact.spends.len() ==> #[trigger] compact.spends[i]
                    == transaction.sapling_nullifiers[i]@
            &&& compact.outputs.len() == transaction.sapling_outputs.len()
            &&& forall|i: int|
                0 <= i < compact.outputs.len() ==> {
                    let parsed = transaction.sapling_outputs[i];
                    &&& (#[trigger] compact.outputs[i]).cmu == parsed.cmu@
                    &&& compact.outputs[i].ephemeral_key == parsed.ephemeral_key@
                    &&& compact.outputs[i].ciphertext == parsed.enc_ciphertext@.subrange(0, 52)
                }
            &&& compact.actions.len() == transaction.orchard_actions.len()
            &&& forall|i: int|
                0 <= i < compact.actions.len() ==> {
                    let parsed = transaction.orchard_actions[i];
                    &&& (#[trigger] compact.actions[i]).nullifier == parsed.nullifier@
                    &&& compact.actions[i].cmx == parsed.cmx@
                    &&& compact.actions[i].ephemeral_key == parsed.ephemeral_key@
                    &&& compact.actions[i].ciphertext == parsed.enc_ciphertext@.subrange(0, 52)
                }
            &&& compact.ironwood_actions.len() == transaction.ironwood_actions.len()
            &&& forall|i: int|
                0 <= i < compact.ironwood_actions.len() ==> {
                    let parsed = transaction.ironwood_actions[i];
                    &&& (#[trigger] compact.ironwood_actions[i]).nullifier == parsed.nullifier@
                    &&& compact.ironwood_actions[i].cmx == parsed.cmx@
                    &&& compact.ironwood_actions[i].ephemeral_key == parsed.ephemeral_key@
                    &&& compact.ironwood_actions[i].ciphertext
                        == parsed.enc_ciphertext@.subrange(0, 52)
                }
            &&& compact.vout == transaction.outputs
        }),
{
}

/// Each compact action of a run carries the nullifier, the note commitment and
/// the ephemeral key of the parsed action at its place, and the first 52 bytes
/// of its ciphertext.
pub proof fn law_compact_actions_carry_their_keys(
    parsed: Seq<ParsedAction>,
    actions: Seq<CompactOrchardAction>,
    i: int,
)
    requires
        views(actions) == parsed.map_values(|action: ParsedAction| compact_action_of(action)),
        0 <= i < parsed.len(),
    ensures
        actions.len() == parsed.len(),
        actions[i].nullifier@ == parsed[i].nullifier@,
        actions[i].cmx@ == parsed[i].cmx@,
        actions[i].ephemeral_key@ == parsed[i].ephemeral_key@,
        actions[i].ciphertext@.len() == 52,
        forall|b: int|
            0 <= b < 52 ==> #[trigger] actions[i].ciphertext@[b] == parsed[i].enc_ciphertext@[b],
{
    assert(views(actions).len() == actions.len());
    assert(views(actions).len() == parsed.len());
    assert(views(actions)[i] == actions[i]@);
    assert(actions[i]@ == compact_action_of(parsed[i]));
}

/// Each compact Sapling output of a run carries the note commitment and the
/// ephemeral key of the parsed output at its place, and the first 52 bytes of
/// its ciphertext.
pub proof fn law_compact_outputs_carry_their_keys(
    parsed: Seq<ParsedSaplingOutput>,
    outputs: Seq<CompactSaplingOutput>,
    i: int,
)
    requires
        views(outputs) == parsed.map_values(
            |output: ParsedSaplingOutput| compact_sapling_output_of(output),
        ),
        0 <= i < parsed.len(),
    ensures
        outputs.len() == parsed.len(),
        outputs[i].cmu@ == parsed[i].cmu@,
        outputs[i].ephemeral_key@ == parsed[i].ephemeral_key@,
        outputs[i].ciphertext@.len() == 52,
        forall|b: int|
            0 <= b < 52 ==> #[trigger] outputs[i].ciphertext@[b] == parsed[i].enc_ciphertext@[b],
{
    assert(views(outputs).len() == outputs.len());
    assert(views(outputs).len() == parsed.len());
    assert(views(outputs)[i] == outputs[i]@);
    assert(outputs[i]@ == compact_sapling_output_of(parsed[i]));
}

/// The compact inputs are the inputs that spend an earlier output, in order:
/// each of them follows those before it, and the inputs that mint a block
/// reward are left out.
pub proof fn law_spending_inputs_are_kept_in_their_turn(
    inputs: Seq<ParsedTransparentInput>,
    j: int,
)
    requires
        0 <= j < inputs.len(),
    ensures
        ({
            let compact = compact_inputs_of(inputs);
            let earlier = compact_inputs_of(inputs.take(j));
            let through = compact_inputs_of(inputs.take(j + 1));
            &&& earlier.len() <= through.len() <= compact.len()
            &&& through == compact.take(through.len() as int)
            &&& match inputs[j] {
                ParsedTransparentInput::PrevOut { prevout_txid, prevout_index } => {
                    &&& through.len() == earlier.len() + 1
                    &&& compact[earlier.len() as int].prevout_txid == prevout_txid@
                    &&& compact[earlier.len() as int].prevout_index == prevout_index
                },
                ParsedTransparentInput::Coinbase => through.len() == earlier.len(),
            }
        }),
    decreases inputs.len(),
{
    let rest = inputs.drop_last();
    let compact = compact_inputs_of(inputs);
    if j < rest.len() {
        law_spending_inputs_are_kept_in_their_turn(rest, j);
        assert(rest.take(j) =~= inputs.take(j));
        assert(rest.take(j + 1) =~= inputs.take(j + 1));
        let through = compact_inputs_of(inputs.take(j + 1));
        assert(through =~= compact.take(through.len() as int));
    } else {
        assert(inputs.take(j) =~= rest);
        assert(inputs.take(j + 1) =~= inputs);
        assert(compact =~= compact.take(compact.len() as int));
    }
}

/// Without an input there is no compact input.
pub proof fn law_no_inputs_make_no_compact_inputs()
    ensures
        compact_inputs_of(Seq::empty()).len() == 0,
{
}

proof fn lemma_compact_inputs_exist(inputs: Seq<ParsedTransparentInput>)
    ensures
        compact_inputs_of(inputs).len() > 0 <==> exists|j: int|
            0 <= j < inputs.len() && (#[trigger] inputs[j]) is PrevOut,
    decreases inputs.len(),
{
    if inputs.len() > 0 {
        let rest = inputs.drop_last();
        lemma_compact_inputs_exist(rest);
        assert(inputs[inputs.len() - 1] == inputs.last());
        if exists|j: int| 0 <= j < rest.len() && (#[trigger] rest[j]) is PrevOut {
            let j = choose|j: int| 0 <= j < rest.len() && (#[trigger] rest[j]) is PrevOut;
            assert(inputs[j] is PrevOut);
        }
        if exists|j: int| 0 <= j < inputs.len() && (#[trigger] inputs[j]) is PrevOut {
            let j = choose|j: int| 0 <= j < inputs.len() && (#[trigger] inputs[j]) is PrevOut;
            if j < rest.len() {
                assert(rest[j] is PrevOut);
            }
        }
    }
}

/// Whether a wallet finds anything in a transaction: a note that it spends or
/// creates, an earlier output that it spends, or one that it creates.
pub open spec fn concerns_wallets(transaction: ParsedTransactionView) -> bool {
    ||| transaction.sapling_nullifiers.len() > 0
    ||| transaction.sapling_outputs.len() > 0
    ||| transaction.orchard_actions.len() > 0
    ||| transaction.ironwood_actions.len() > 0
    ||| transaction.outputs.len() > 0
    ||| exists|j: int|
        0 <= j < transaction.inputs.len() && (#[trigger] transaction.inputs[j]) is PrevOut
}

/// The compact block holds every transaction in which a wallet finds anything,
/// in block order and under its position in the block, and no other.
pub proof fn law_wallet_transactions_are_kept_in_their_turn(
    transactions: Seq<ParsedTransactionView>,
    p: int,
)
    requires
        0 <= p < transactions.len(),
        transactions.len() <= u64::MAX,
    ensures
        ({
            let compact = compact_transactions_of(transactions);
            let earlier = compact_transactions_of(transactions.take(p));
            let through = compact_transactions_of(transactions.take(p + 1));
            &&& earlier.len() <= through.len() <= compact.len()
            &&& through == compact.take(through.len() as int)
            &&& if concerns_wallets(transactions[p]) {
                let kept = compact[earlier.len() as int];
                &&& through.len() == earlier.len() + 1
                &&& kept.index == p
                &&& kept.txid == transactions[p].txid@
                &&& kept.spends.len() == transactions[p].sapling_nullifiers.len()
                &&& kept.outputs.len() == transactions[p].sapling_outputs.len()
                &&& kept.actions.len() == transactions[p].orchard_actions.len()
                &&& kept.ironwood_actions.len() == transactions[p].ironwood_actions.len()
                &&& kept.vout == transactions[p].outputs
                &&& kept == compact_transaction_of(p as u64, transactions[p])
            } else {
                through.len() == earlier.len()
            }
        }),
    decreases transactions.len(),
{
    let rest = transactions.drop_last();
    let compact = compact_transactions_of(transactions);
    if p < rest.len() {
        law_wallet_transactions_are_kept_in_their_turn(rest, p);
        assert(rest.take(p) =~= transactions.take(p));
        assert(rest.take(p + 1) =~= transactions.take(p + 1));
        let through = compact_transactions_of(transactions.take(p + 1));
        assert(through =~= compact.take(through.len() as int));
    } else {
        assert(transactions.take(p) =~= rest);
        assert(transactions.take(p + 1) =~= transactions);
        assert(compact =~= compact.take(compact.len() as int));
        lemma_compact_inputs_exist(transactions[p].inputs);
        let own = compact_transaction_of(p as u64, transactions[p]);
        assert(own.spends.len() == transactions[p].sapling_nullifiers.len());
        assert(own.outputs.len() == transactions[p].sapling_outputs.len());
        assert(own.actions.len() == transactions[p].orchard_actions.len());
        assert(own.ironwood_actions.len() == transactions[p].ironwood_actions.len());
    }
}

/// A block without transactions has no compact transactions and adds no notes.
pub proof fn law_empty_block_is_compacted_to_nothing()
    ensures
        compact_transactions_of(Seq::empty()).len() == 0,
        block_tree_additions(Seq::empty()) == Ok::<CommitmentTreeSizes, ConstructionFault>(
            CommitmentTreeSizes { sapling: 0, orchard: 0, ironwood: 0 },
        ),
{
}

/// A transaction adds one leaf per Sapling output, Orchard action and Ironwood
/// action to the tree of that pool; a count beyond `u32` is refused by name.
pub proof fn law_transaction_adds_its_notes(transaction: ParsedTransactionView)
    ensures
        match transaction_tree_additions(transaction) {
            Ok(additions) => {
                &&& additions.sapling == transaction.sapling_outputs.len()
                &&& additions.orchard == transaction.orchard_actions.len()
                &&& additions.ironwood == transaction.ironwood_actions.len()
            },
            Err(fault) => {
                ||| transaction.sapling_outputs.len() > 0xffff_ffff && fault
                    == (ConstructionFault::CountOverflow { field: "Sapling output count"@ })
                ||| transaction.sapling_outputs.len() <= 0xffff_ffff
                    && transaction.orchard_actions.len() > 0xffff_ffff && fault == (
                ConstructionFault::CountOverflow { field: "Orchard action count"@ })
                ||| transaction.sapling_outputs.len() <= 0xffff_ffff
                    && transaction.orchard_actions.len() <= 0xffff_ffff
                    && transaction.ironwood_actions.len() > 0xffff_ffff && fault == (
                ConstructionFault::CountOverflow { field: "Ironwood action count"@ })
            },
        },
{
}

/// One more transaction raises what a block adds to each tree by the notes
/// that the transaction adds to it.
pub proof fn law_block_adds_the_notes_of_each_transaction(
    transactions: Seq<ParsedTransactionView>,
    next: ParsedTransactionView,
)
    ensures
        match (block_tree_additions(transactions), block_tree_additions(transactions.push(next))) {
            (Ok(before), Ok(after)) => {
                &&& after.sapling == before.sapling + next.sapling_outputs.len()
                &&& after.orchard == before.orchard + next.orchard_actions.len()
                &&& after.ironwood == before.ironwood + next.ironwood_actions.len()
            },
            (Ok(before), Err(_)) => {
                ||| before.sapling + next.sapling_outputs.len() > 0xffff_ffff
                ||| before.orchard + next.orchard_actions.len() > 0xffff_ffff
                ||| before.ironwood + next.ironwood_actions.len() > 0xffff_ffff
            },
            (Err(first), Err(fault)) => first == fault,
            (Err(_), Ok(_)) => false,
        },
{
    assert(transactions.push(next).drop_last() =~= transactions);
}

/// Tree sizes add up pool by pool; the first pool that passes `u32::MAX`, in
/// the order Sapling, Orchard, Ironwood, is the one that is reported.
pub proof fn law_tree_sizes_add_up_pool_by_pool(
    sizes: CommitmentTreeSizes,
    additions: CommitmentTreeSizes,
)
    ensures
        match sizes.sum(additions) {
            Ok(sum) => {
                &&& sum.sapling == sizes.sapling + additions.sapling
                &&& sum.orchard == sizes.orchard + additions.orchard
                &&& sum.ironwood == sizes.ironwood + additions.ironwood
            },
            Err(fault) => {
                &&& fault matches ConstructionFault::CommitmentTreeOverflow { protocol }
                &&& match protocol {
                    ShieldedProtocol::Sapling => sizes.sapling + additions.sapling > 0xffff_ffff,
                    ShieldedProtocol::Orchard => sizes.orchard + additions.orchard > 0xffff_ffff
                        && sizes.sapling + additions.sapling <= 0xffff_ffff,
                    ShieldedProtocol::Ironwood => sizes.ironwood + additions.ironwood
                        > 0xffff_ffff && sizes.orchard + additions.orchard <= 0xffff_ffff
                        && sizes.sapling + additions.sapling <= 0xffff_ffff,
                }
            },
        },
{
}

/// Tree sizes keep to their pool in every form they take.
pub proof fn law_tree_sizes_keep_to_their_pool(
    sizes: CommitmentTreeSizes,
    tip_metadata: ChainTipMetadata,
)
    ensures
        CommitmentTreeSizes::zero().sapling == 0,
        CommitmentTreeSizes::zero().orchard == 0,
        CommitmentTreeSizes::zero().ironwood == 0,
        sizes.as_chain_metadata().sapling_commitment_tree_size == sizes.sapling,
        sizes.as_chain_metadata().orchard_commitment_tree_size == sizes.orchard,
        sizes.as_chain_metadata().ironwood_commitment_tree_size == sizes.ironwood,
        sizes.as_tip_metadata().sapling_commitment_tree_size == sizes.sapling,
        sizes.as_tip_metadata().orchard_commitment_tree_size == sizes.orchard,
        sizes.as_tip_metadata().ironwood_commitment_tree_size == sizes.ironwood,
        CommitmentTreeSizes::of_tip_metadata(tip_metadata).sapling
            == tip_metadata.sapling_commitment_tree_size,
        CommitmentTreeSizes::of_tip_metadata(tip_metadata).orchard
            == tip_metadata.orchard_commitment_tree_size,
        CommitmentTreeSizes::of_tip_metadata(tip_metadata).ironwood
            == tip_metadata.ironwood_commitment_tree_size,
{
}

/// A parsed block is the one that the source announced exactly where its
/// coinbase height, hash, parent hash and time are those announced.
pub proof fn law_only_the_announced_block_is_accepted(parsed: ParsedBlockView, source: SourceBlock)
    ensures
        identity_fault(parsed, source) is None <==> {
            &&& parsed.coinbase_height == Some(source.height.0)
            &&& parsed.hash == source.hash.0
            &&& parsed.previous_block_hash == source.parent_hash.0
            &&& parsed.time_seconds == source.block_time_seconds
        },
        parsed.coinbase_height is None ==> identity_fault(parsed, source) == Some(
            ConstructionFault::ParsedBlockMissingCoinbaseHeight,
        ),
        identity_fault(parsed, source) matches Some(
            ConstructionFault::SourceBlockMismatch { field, expected, actual },
        ) ==> match field {
            BlockMismatchField::Height => {
                &&& parsed.coinbase_height matches Some(height)
                &&& height != source.height.0
                &&& expected == decimal(source.height.0 as nat)
                &&& actual == decimal(height as nat)
            },
            BlockMismatchField::Hash => {
                &&& parsed.hash != source.hash.0
                &&& expected == rpc_block_hash_text(source.hash)
                &&& actual == rpc_block_hash_text(BlockHash(parsed.hash))
            },
            BlockMismatchField::ParentHash => {
                &&& parsed.hash == source.hash.0
                &&& parsed.previous_block_hash != source.parent_hash.0
                &&& expected == rpc_block_hash_text(source.parent_hash)
                &&& actual == rpc_block_hash_text(BlockHash(parsed.previous_block_hash))
            },
            BlockMismatchField::Time => {
                &&& parsed.previous_block_hash == source.parent_hash.0
                &&& parsed.time_seconds != source.block_time_seconds
                &&& expected == decimal(source.block_time_seconds as nat)
                &&& actual == decimal(parsed.time_seconds as nat)
            },
        },
        parsed.coinbase_height is Some && parsed.coinbase_height != Some(source.height.0) ==> (
        identity_fault(parsed, source) matches Some(
            ConstructionFault::SourceBlockMismatch { field, .. },
        ) && field is Height),
        parsed.coinbase_height == Some(source.height.0) && parsed.hash != source.hash.0 ==> (
        identity_fault(parsed, source) matches Some(
            ConstructionFault::SourceBlockMismatch { field, .. },
        ) && field is Hash),
{
}

/// Whether facts can be taken from one transaction: its position can be
/// numbered, its facts were parsed, and its bytes are there where they are kept.
pub open spec fn yields_facts(
    position: int,
    parsed: ParsedTransaction,
    fact_sets: Seq<Result<TransactionFactSet, String>>,
    raw_blob_policy: RawBlobPolicy,
) -> bool {
    &&& position <= 0xffff_ffff
    &&& position < fact_sets.len()
    &&& fact_sets[position] is Ok
    &&& !(raw_blob_policy is NoBlobs) ==> (parsed.encoding matches Some(outcome) && outcome is Ok)
}

/// Facts are taken from a run of transactions exactly where each of them
/// yields some; else the fault is that of the first one that does not.
pub proof fn law_first_faulty_transaction_is_reported(
    parsed: Seq<ParsedTransaction>,
    fact_sets: Seq<Result<TransactionFactSet, String>>,
    raw_blob_policy: RawBlobPolicy,
)
    ensures
        match first_transaction_fault(parsed, fact_sets, raw_blob_policy) {
            None => forall|i: int|
                #![trigger parsed[i]]
                0 <= i < parsed.len() ==> yields_facts(i, parsed[i], fact_sets, raw_blob_policy),
            Some(fault) => exists|i: int|
                #![trigger parsed[i]]
                {
                    &&& 0 <= i < parsed.len()
                    &&& !yields_facts(i, parsed[i], fact_sets, raw_blob_policy)
                    &&& transaction_fault(i, parsed[i], fact_sets, raw_blob_policy) == Some(fault)
                    &&& forall|j: int|
                        #![trigger parsed[j]]
                        0 <= j < i ==> yields_facts(j, parsed[j], fact_sets, raw_blob_policy)
                },
        },
    decreases parsed.len(),
{
    if parsed.len() > 0 {
        let rest = parsed.drop_last();
        law_first_faulty_transaction_is_reported(rest, fact_sets, raw_blob_policy);
        let last = parsed.len() - 1;
        assert(parsed[last] == parsed.last());
        match first_transaction_fault(rest, fact_sets, raw_blob_policy) {
            Some(fault) => {
                let i = choose|i: int|
                    #![trigger rest[i]]
                    {
                        &&& 0 <= i < rest.len()
                        &&& !yields_facts(i, rest[i], fact_sets, raw_blob_policy)
                        &&& transaction_fault(i, rest[i], fact_sets, raw_blob_policy) == Some(
                            fault,
                        )
                        &&& forall|j: int|
                            #![trigger rest[j]]
                            0 <= j < i ==> yields_facts(j, rest[j], fact_sets, raw_blob_policy)
                    };
                assert(parsed[i] == rest[i]);
                assert forall|j: int|
                    #![trigger parsed[j]]
                    0 <= j < i implies yields_facts(j, parsed[j], fact_sets, raw_blob_policy) by {
                    assert(rest[j] == parsed[j]);
                }
            },
            None => {
                assert forall|j: int|
                    #![trigger parsed[j]]
                    0 <= j < last implies yields_facts(
                    j,
                    parsed[j],
                    fact_sets,
                    raw_blob_policy,
                ) by {
                    assert(rest[j] == parsed[j]);
                }
            },
        }
    }
}

/// The fault of a transaction says what is wrong with it: its position, then
/// its facts, then its bytes.
pub proof fn law_transaction_fault_says_what_is_wrong(
    position: int,
    parsed: ParsedTransaction,
    fact_sets: Seq<Result<TransactionFactSet, String>>,
    raw_blob_policy: RawBlobPolicy,
)
    requires
        0 <= position,
    ensures
        match transaction_fault(position, parsed, fact_sets, raw_blob_policy) {
            None => yields_facts(position, parsed, fact_sets, raw_blob_policy),
            Some(ConstructionFault::TransactionIndexOverflow) => position > 0xffff_ffff,
            Some(ConstructionFault::TransactionFactsParseFailed { reason }) => {
                ||| position >= fact_sets.len()
                ||| fact_sets[position] matches Err(told) && told@ == reason
            },
            Some(ConstructionFault::TransactionSerializationFailed { reason }) => {
                &&& !(raw_blob_policy is NoBlobs)
                &&& position < fact_sets.len() && fact_sets[position] is Ok
                &&& parsed.encoding is None || (parsed.encoding matches Some(Err(told)) && told@
                    == reason)
            },
            Some(_) => false,
        },
{
}

/// Prepared facts are those parsed for their transaction, and carry its raw
/// bytes exactly where raw transactions are kept.
pub proof fn law_prepared_transaction_carries_its_facts(
    facts: CanonicalTransactionFacts,
    parsed: ParsedTransaction,
    fact_set: Result<TransactionFactSet, String>,
    raw_blob_policy: RawBlobPolicy,
)
    requires
        transaction_prepared(facts, parsed, fact_set, raw_blob_policy),
    ensures
        fact_set matches Ok(set) && facts.public_facts == set.public_facts
            && facts.intrinsic_value_balances == set.intrinsic_value_balances
            && facts.transparent_inputs == set.transparent_inputs && facts.transparent_outputs
            == set.transparent_outputs,
        facts.raw_transaction_bytes is Some <==> (raw_blob_policy is Transactions
            || raw_blob_policy is All),
        facts.raw_transaction_bytes matches Some(bytes) ==> (parsed.encoding matches Some(
            Ok(encoding),
        ) && encoding@ == bytes@),
{
}

/// A prepared block carries the header of its source with the size of its raw
/// bytes, those bytes exactly where whole blocks are kept, the facts of each
/// transaction at its place, and a compact block without tree sizes.
pub proof fn law_prepared_block_carries_its_parts(
    prepared: PreparedCanonicalBlock,
    parsed: ParsedBlock,
    source: SourceBlock,
    header_info: Result<BlockHeaderInfo, String>,
    fact_sets: Seq<Result<TransactionFactSet, String>>,
    raw_blob_policy: RawBlobPolicy,
)
    requires
        block_prepared(prepared, parsed, source, header_info, fact_sets, raw_blob_policy),
    ensures
        header_info matches Ok(info) && {
            let header = prepared.facts.block_header;
            &&& header.height == info.height
            &&& header.block_hash == info.block_hash
            &&& header.parent_hash == info.parent_hash
            &&& header.merkle_root == info.merkle_root
            &&& header.commitment_bytes == info.commitment_bytes
            &&& header.block_time == info.block_time
            &&& header.difficulty_bits == info.difficulty_bits
            &&& header.nonce == info.nonce
            &&& header.version == info.version
            &&& header.block_size_bytes == source.raw_block_bytes@.len() as u64
        },
        prepared.facts.raw_block_bytes is Some <==> raw_blob_policy is All,
        prepared.facts.raw_block_bytes matches Some(bytes) ==> bytes@ == source.raw_block_bytes@,
        prepared.facts.transactions@.len() == parsed.transactions@.len(),
        parsed.transactions@.len() <= fact_sets.len(),
        forall|i: int|
            0 <= i < parsed.transactions@.len() ==> transaction_prepared(
                #[trigger] prepared.facts.transactions@[i],
                parsed.transactions@[i],
                fact_sets[i],
                raw_blob_policy,
            ),
        prepared.partial_compact_block.height == source.height.0,
        prepared.partial_compact_block.hash@ == source.hash.0@,
        prepared.partial_compact_block.prev_hash@ == source.parent_hash.0@,
        prepared.partial_compact_block.time == source.block_time_seconds,
        parsed.header_encoding matches Ok(encoding) && prepared.partial_compact_block.header@
            == encoding@,
        prepared.partial_compact_block.chain_metadata is None,
        views(prepared.partial_compact_block.vtx@) == compact_transactions_of(
            views(parsed.transactions@),
        ),
        block_tree_additions(views(parsed.transactions@)) == Ok::<
            CommitmentTreeSizes,
            ConstructionFault,
        >(prepared.tree_size_additions),
{
    let block = prepared.partial_compact_block;
    assert(block@.height == block.height);
    assert(block@.vtx == views(block.vtx@));
}

/// A block is refused exactly where it is not the one announced, adds more
/// notes than can be counted, or has a part that could not be parsed or
/// encoded.
pub proof fn law_only_complete_blocks_are_prepared(
    parsed: ParsedBlock,
    source: SourceBlock,
    header_info: Result<BlockHeaderInfo, String>,
    fact_sets: Seq<Result<TransactionFactSet, String>>,
    raw_blob_policy: RawBlobPolicy,
)
    ensures
        construction_fault(parsed, source, header_info, fact_sets, raw_blob_policy) is None <==> {
            &&& parsed.coinbase_height == Some(source.height.0)
            &&& parsed.hash == source.hash.0
            &&& parsed.previous_block_hash == source.parent_hash.0
            &&& parsed.time_seconds == source.block_time_seconds
            &&& block_tree_additions(views(parsed.transactions@)) is Ok
            &&& forall|i: int|
                #![trigger parsed.transactions@[i]]
                0 <= i < parsed.transactions@.len() ==> yields_facts(
                    i,
                    parsed.transactions@[i],
                    fact_sets,
                    raw_blob_policy,
                )
            &&& parsed.header_encoding is Ok
            &&& header_info is Ok
        },
{
    law_first_faulty_transaction_is_reported(parsed.transactions@, fact_sets, raw_blob_policy);
    law_only_the_announced_block_is_accepted(parsed@, source);
    if let Some(_) = first_transaction_fault(parsed.transactions@, fact_sets, raw_blob_policy) {
        let i = choose|i: int|
            #![trigger parsed.transactions@[i]]
            {
                &&& 0 <= i < parsed.transactions@.len()
                &&& !yields_facts(i, parsed.transactions@[i], fact_sets, raw_blob_policy)
            };
        assert(!yields_facts(i, parsed.transactions@[i], fact_sets, raw_blob_policy));
    }
}

/// The rows of a block are those of its transactions: each transaction has an
/// index row, a location, a fact row and a balance row at its place, which say
/// where it was mined and carry its own facts.
pub proof fn law_expanded_rows_carry_their_transaction(
    rows: CurrentSchemaBlockArtifacts,
    facts: CanonicalBlockFacts,
    i: int,
)
    requires
        is_expansion(rows, facts),
        0 <= i < facts.transactions@.len() <= 0x1_0000_0000,
    ensures
        rows.block_transaction_index@.len() == facts.transactions@.len(),
        rows.transaction_locations@.len() == facts.transactions@.len(),
        rows.transaction_facts@.len() == facts.transactions@.len(),
        rows.transaction_intrinsic_value_balances@.len() == facts.transactions@.len(),
        ({
            let transaction = facts.transactions@[i];
            let id = transaction.public_facts.transaction_id;
            let header = facts.block_header;
            &&& rows.block_transaction_index@[i].block_height == header.height
            &&& rows.block_transaction_index@[i].block_hash == header.block_hash
            &&& rows.block_transaction_index@[i].tx_index_in_block == i
            &&& rows.block_transaction_index@[i].transaction_id == id
            &&& locates(rows.transaction_locations@[i], id, header, i)
            &&& locates(rows.transaction_facts@[i].location, id, header, i)
            &&& rows.transaction_facts@[i].public_facts == transaction.public_facts
            &&& rows.transaction_facts@[i].transparent_inputs == transaction.transparent_inputs
            &&& rows.transaction_facts@[i].transparent_outputs == transaction.transparent_outputs
            &&& locates(rows.transaction_intrinsic_value_balances@[i].location, id, header, i)
            &&& rows.transaction_intrinsic_value_balances@[i].intrinsic_value_balances
                == transaction.intrinsic_value_balances
        }),
{
    assert(rows_match_transaction(rows, facts, i));
}

/// Whether a location says that a transaction stands at a place of a block.
pub open spec fn locates(
    location: TransactionLocation,
    transaction_id: crate::ids::TransactionId,
    header: BlockHeaderArtifact,
    position: int,
) -> bool {
    &&& location.transaction_id == transaction_id
    &&& location.block_height == header.height
    &&& location.block_hash == header.block_hash
    &&& location.tx_index_in_block == position
}

/// The rows of a block as a whole carry its header, and its raw bytes exactly
/// where it kept them.
pub proof fn law_expanded_rows_carry_their_block(
    rows: CurrentSchemaBlockArtifacts,
    facts: CanonicalBlockFacts,
)
    requires
        is_expansion(rows, facts),
    ensures
        rows.block_header == facts.block_header,
        rows.block_blob is Some <==> facts.raw_block_bytes is Some,
        rows.block_blob matches Some(blob) ==> {
            &&& Some(blob.raw_block_bytes) == facts.raw_block_bytes
            &&& blob.height == facts.block_header.height
            &&& blob.block_hash == facts.block_header.block_hash
            &&& blob.parent_hash == facts.block_header.parent_hash
        },
        rows.transaction_blobs@ == transaction_blob_rows(
            facts.block_header,
            facts.transactions@,
        ),
        views(rows.transparent_outputs_by_outpoint@) == output_rows(
            facts.block_header,
            facts.transactions@,
        ),
{
}

/// Every transaction that kept its raw bytes has one blob row, with these
/// bytes and the place of the transaction, after the rows of the transactions
/// before it; a transaction that kept none has no row.
pub proof fn law_kept_bytes_have_their_row(
    block_header: BlockHeaderArtifact,
    transactions: Seq<CanonicalTransactionFacts>,
    p: int,
)
    requires
        0 <= p < transactions.len() <= 0x1_0000_0000,
    ensures
        ({
            let rows = transaction_blob_rows(block_header, transactions);
            let earlier = transaction_blob_rows(block_header, transactions.take(p));
            let through = transaction_blob_rows(block_header, transactions.take(p + 1));
            &&& earlier.len() <= through.len() <= rows.len()
            &&& through == rows.take(through.len() as int)
            &&& match transactions[p].raw_transaction_bytes {
                Some(bytes) => {
                    let row = rows[earlier.len() as int];
                    &&& through.len() == earlier.len() + 1
                    &&& row.raw_transaction_bytes == bytes
                    &&& locates(
                        row.location,
                        transactions[p].public_facts.transaction_id,
                        block_header,
                        p,
                    )
                },
                None => through.len() == earlier.len(),
            }
        }),
    decreases transactions.len(),
{
    let rest = transactions.drop_last();
    let rows = transaction_blob_rows(block_header, transactions);
    if p < rest.len() {
        law_kept_bytes_have_their_row(block_header, rest, p);
        assert(rest.take(p) =~= transactions.take(p));
        assert(rest.take(p + 1) =~= transactions.take(p + 1));
        let through = transaction_blob_rows(block_header, transactions.take(p + 1));
        assert(through =~= rows.take(through.len() as int));
    } else {
        assert(transactions.take(p) =~= rest);
        assert(transactions.take(p + 1) =~= transactions);
        assert(rows =~= rows.take(rows.len() as int));
    }
}

/// Where every transaction of a block kept its raw bytes there are as many blob
/// rows as transactions, and each stands at the place of its transaction.
pub proof fn law_all_kept_bytes_are_written(
    block_header: BlockHeaderArtifact,
    transactions: Seq<CanonicalTransactionFacts>,
)
    requires
        transactions.len() <= 0x1_0000_0000,
        forall|i: int|
            0 <= i < transactions.len() ==> (
            #[trigger] transactions[i]).raw_transaction_bytes is Some,
    ensures
        transaction_blob_rows(block_header, transactions).len() == transactions.len(),
        forall|i: int|
            0 <= i < transactions.len() ==> {
                let row = #[trigger] transaction_blob_rows(block_header, transactions)[i];
                &&& Some(row.raw_transaction_bytes) == transactions[i].raw_transaction_bytes
                &&& row.location.tx_index_in_block == i
                &&& row.location.transaction_id == transactions[i].public_facts.transaction_id
                &&& row.location.block_height == block_header.height
                &&& row.location.block_hash == block_header.block_hash
            },
    decreases transactions.len(),
{
    if transactions.len() > 0 {
        let rest = transactions.drop_last();
        assert forall|i: int| 0 <= i < rest.len() implies (
        #[trigger] rest[i]).raw_transaction_bytes is Some by {
            assert(transactions[i] == rest[i]);
        }
        law_all_kept_bytes_are_written(block_header, rest);
        let last = transactions.len() - 1;
        assert(transactions[last].raw_transaction_bytes is Some);
        let rows = transaction_blob_rows(block_header, transactions);
        let before = transaction_blob_rows(block_header, rest);
        assert forall|i: int| 0 <= i < transactions.len() implies {
            let row = #[trigger] rows[i];
            &&& Some(row.raw_transaction_bytes) == transactions[i].raw_transaction_bytes
            &&& row.location.tx_index_in_block == i
            &&& row.location.transaction_id == transactions[i].public_facts.transaction_id
            &&& row.location.block_height == block_header.height
            &&& row.location.block_hash == block_header.block_hash
        } by {
            if i < last {
                assert(rows[i] == before[i]);
                assert(rest[i] == transactions[i]);
            }
        }
    }
}

/// A block without transactions has no rows of transactions.
pub proof fn law_empty_block_has_no_rows(block_header: BlockHeaderArtifact)
    ensures
        transaction_blob_rows(block_header, Seq::empty()).len() == 0,
        output_rows(block_header, Seq::empty()).len() == 0,
{
}

/// Every transparent output of a block has one row, after those of earlier
/// transactions and earlier outputs: under the outpoint that its transaction
/// and its index name, with its value, script and address, at its block.
pub proof fn law_every_output_has_its_row(
    block_header: BlockHeaderArtifact,
    transactions: Seq<CanonicalTransactionFacts>,
    t: int,
    o: int,
)
    requires
        0 <= t < transactions.len(),
        0 <= o < transactions[t].transparent_outputs@.len(),
    ensures
        ({
            let rows = output_rows(block_header, transactions);
            let earlier = output_rows(block_header, transactions.take(t)).len();
            let output = transactions[t].transparent_outputs@[o];
            &&& earlier + o < rows.len()
            &&& ({
                let row = rows[earlier + o];
                &&& row.outpoint.transaction_id == transactions[t].public_facts.transaction_id
                &&& row.outpoint.output_index == output.output_index
                &&& row.value_zat == output.value_zat
                &&& row.script_pub_key == output.script_pub_key@
                &&& row.address_script_hash == output.address_script_hash
                &&& row.block_height == block_header.height
                &&& row.block_hash == block_header.block_hash
            })
        }),
    decreases transactions.len(),
{
    let rest = transactions.drop_last();
    let before = output_rows(block_header, rest);
    if t < rest.len() {
        assert(rest[t] == transactions[t]);
        law_every_output_has_its_row(block_header, rest, t, o);
        assert(rest.take(t) =~= transactions.take(t));
        let at = output_rows(block_header, transactions.take(t)).len() + o;
        assert(output_rows(block_header, transactions)[at] == before[at]);
    } else {
        assert(transactions.take(t) =~= rest);
        let own = transaction_output_rows(block_header, transactions.last());
        assert(output_rows(block_header, transactions)[before.len() + o] == own[o]);
    }
}

/// A block has as many output rows as its transactions have outputs: one more
/// transaction adds as many rows as it has outputs, and changes no other.
pub proof fn law_output_rows_grow_by_each_transaction(
    block_header: BlockHeaderArtifact,
    transactions: Seq<CanonicalTransactionFacts>,
    next: CanonicalTransactionFacts,
)
    ensures
        ({
            let before = output_rows(block_header, transactions);
            let after = output_rows(block_header, transactions.push(next));
            &&& after.len() == before.len() + next.transparent_outputs@.len()
            &&& after.take(before.len() as int) == before
        }),
{
    assert(transactions.push(next).drop_last() =~= transactions);
    let before = output_rows(block_header, transactions);
    let after = output_rows(block_header, transactions.push(next));
    assert(after.take(before.len() as int) =~= before);
}

/// A blob policy keeps to its name in every form it takes.
pub proof fn law_blob_policies_keep_to_their_name(policy: RawBlobPolicy)
    ensures
        match policy {
            RawBlobPolicy::NoBlobs => policy.spelling() == "none"@ && policy.retention()
                == RawBlobRetention::NoBlobs,
            RawBlobPolicy::Transactions => policy.spelling() == "transactions"@
                && policy.retention() == RawBlobRetention::Transactions,
            RawBlobPolicy::All => policy.spelling() == "all"@ && policy.retention()
                == RawBlobRetention::All,
        },
{
}

/// A preparation fails where there are no bytes or they do not parse, and else
/// ends as the parsed block asks.
pub proof fn law_preparation_starts_from_the_raw_bytes(
    prepared: Result<PreparedCanonicalBlock, CanonicalBlockConstructionError>,
    source: SourceBlock,
    header_info: Result<BlockHeaderInfo, String>,
    fact_sets: Seq<Result<TransactionFactSet, String>>,
    raw_blob_policy: RawBlobPolicy,
)
    requires
        preparation_outcome(prepared, source, header_info, fact_sets, raw_blob_policy),
    ensures
        source.raw_block_bytes@.len() == 0 ==> (prepared matches Err(error) && error@
            == ConstructionFault::EmptySourcePayload),
        source.raw_block_bytes@.len() > 0 && decoded_block(source.raw_block_bytes@) is None ==> (
        prepared matches Err(error) && error@ == ConstructionFault::BlockParseFailed),
        prepared matches Ok(block) ==> {
            &&& decoded_block(source.raw_block_bytes@) matches Some(decoded)
            &&& crate::zebra::block_coinbase_height(decoded) == Some(source.height.0)
            &&& crate::zebra::block_header_hash(decoded) == source.hash.0
            &&& crate::zebra::block_parent_hash(decoded) == source.parent_hash.0
            &&& crate::zebra::block_header_time(decoded) == source.block_time_seconds
            &&& block.facts.transactions@.len() == block_transactions(decoded).len()
            &&& block.partial_compact_block.height == source.height.0
            &&& block.partial_compact_block.hash@ == source.hash.0@
            &&& Some(block.partial_compact_block.header@) == block_header_encoding(decoded)
        },
{
    if let Ok(block) = prepared {
        let parsed = choose|parsed: ParsedBlock|
            {
                &&& #[trigger] parsed_from(parsed, source.raw_block_bytes@, raw_blob_policy)
                &&& construction_outcome(
                    prepared,
                    parsed,
                    source,
                    header_info,
                    fact_sets,
                    raw_blob_policy,
                )
            };
        law_only_complete_blocks_are_prepared(
            parsed,
            source,
            header_info,
            fact_sets,
            raw_blob_policy,
        );
        law_prepared_block_carries_its_parts(
            block,
            parsed,
            source,
            header_info,
            fact_sets,
            raw_blob_policy,
        );
        let decoded = decoded_block(source.raw_block_bytes@)->0;
        assert(parsed@ == crate::zebra::block_facts_view(decoded));
        assert(parsed@.coinbase_height == parsed.coinbase_height);
    }
}

/// A parsed block is what the decoder reads out of the raw bytes: header facts,
/// transactions in order, and the encodings where raw bytes are kept.
pub proof fn law_parsed_block_is_what_was_decoded(
    parsed: ParsedBlock,
    raw_block_bytes: Seq<u8>,
    raw_blob_policy: RawBlobPolicy,
    i: int,
)
    requires
        parsed_from(parsed, raw_block_bytes, raw_blob_policy),
    ensures
        decoded_block(raw_block_bytes) matches Some(block) && {
            &&& parsed.coinbase_height == crate::zebra::block_coinbase_height(block)
            &&& parsed.hash == crate::zebra::block_header_hash(block)
            &&& parsed.previous_block_hash == crate::zebra::block_parent_hash(block)
            &&& parsed.time_seconds == crate::zebra::block_header_time(block)
            &&& parsed.transactions@.len() == block_transactions(block).len()
            &&& parsed.header_encoding is Ok <==> block_header_encoding(block) is Some
            &&& parsed.header_encoding matches Ok(bytes) ==> block_header_encoding(block) == Some(
                bytes@,
            )
            &&& 0 <= i < parsed.transactions@.len() ==> {
                let held = parsed.transactions@[i];
                let decoded = block_transactions(block)[i];
                &&& held.txid == crate::zebra::transaction_txid(decoded)
                &&& held.sapling_outputs@ == crate::zebra::transaction_sapling_outputs(decoded)
                &&& held.orchard_actions@ == crate::zebra::transaction_orchard_actions(decoded)
                &&& held.ironwood_actions@ == crate::zebra::transaction_ironwood_actions(decoded)
                &&& held.inputs@ == crate::zebra::transaction_inputs(decoded)
                &&& held.encoding is Some <==> raw_blob_policy is Transactions
                    || raw_blob_policy is All
                &&& held.encoding matches Some(Ok(bytes)) ==> transaction_encoding(decoded)
                    == Some(bytes@)
            }
        },
{
    let block = decoded_block(raw_block_bytes)->0;
    assert(parsed@.coinbase_height == parsed.coinbase_height);
    assert(parsed@.transactions.len() == parsed.transactions@.len());
    if 0 <= i < parsed.transactions@.len() {
        assert(parsed@.transactions[i] == parsed.transactions@[i]@);
        assert(parsed@.transactions[i] == crate::zebra::transaction_facts_view(
            block_transactions(block)[i],
        ));
    }
}

} // verus!
