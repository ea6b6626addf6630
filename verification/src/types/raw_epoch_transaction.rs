//! Raw transactions as received in an epoch, before they are placed in
//! batches, and their hashes.

use vstd::prelude::*;
use vstd::string::StringSliceAdditionalSpecFns;
use vstd::utf8::encode_utf8;

use crate::codec::{
    all_hex_digits, decode_hex, decode_to_array_32, encode_prefixed, hex_decode,
    hex_decode_digits, json_from_str, strip_hex_prefix,
    json_string_text, json_to_string, lemma_prefixed_hex_round_trip, prefixed_hex,
    rlp_decode_transaction,
    rlp_transaction, HexDecodeError,
};
use crate::error::Error;
use crate::types::raw_transaction::RawTransaction;

verus! {

/// A transaction hash as `0x`-prefixed hex text.
#[derive(Clone, Debug)]
pub struct RawEpochTransactionHash(String);

/// Hashes of raw transactions have the same shape in epochs and in batches.
pub type RawTransactionHash = RawEpochTransactionHash;

impl View for RawEpochTransactionHash {
    type V = Seq<char>;

    closed spec fn view(&self) -> Seq<char> {
        self.0@
    }
}

impl RawEpochTransactionHash {
    /// The hash of 32 zero bytes: `0x` and 64 zeros.
    pub fn default() -> (hash: Self)
        ensures
            hash@ == prefixed_hex(Seq::new(32, |i: int| 0u8)),
    {
        let zeros = [0u8; 32];
        assert(zeros@ =~= Seq::new(32, |i: int| 0u8));
        RawEpochTransactionHash(encode_prefixed(&zeros))
    }

    /// The hex text of 32 hash bytes.
    pub fn from_bytes(value: [u8; 32]) -> (hash: Self)
        ensures
            hash@ == prefixed_hex(value@),
    {
        RawEpochTransactionHash(encode_prefixed(&value))
    }

    /// Takes a text as it is.
    pub fn from_string(value: String) -> (hash: Self)
        ensures
            hash@ == value@,
    {
        RawEpochTransactionHash(value)
    }

    /// The hex text of arbitrary bytes.
    pub fn new(value: &[u8]) -> (hash: Self)
        ensures
            hash@ == prefixed_hex(value@),
    {
        RawEpochTransactionHash(encode_prefixed(value))
    }

    /// The hash's text.
    pub fn as_string(self) -> (text: String)
        ensures
            text@ == self@,
    {
        self.0
    }

    /// The hash's text, borrowed.
    pub fn as_str(&self) -> (text: &str)
        ensures
            text@ == self@,
    {
        self.0.as_str()
    }

    /// The 32 bytes the hash's text spells, when it is 64 hex digits after an
    /// optional `0x`.
    pub fn as_bytes(self) -> (bytes: Result<[u8; 32], HexDecodeError>)
        ensures
            encode_utf8(self@).len() % 2 != 0 ==> (bytes matches Err(HexDecodeError::OddLength)),
            encode_utf8(self@).len() % 2 == 0 && strip_hex_prefix(encode_utf8(self@)).len() != 64
                ==> (bytes matches Err(HexDecodeError::InvalidStringLength)),
            encode_utf8(self@).len() % 2 == 0 && strip_hex_prefix(encode_utf8(self@)).len() == 64
                ==> (bytes is Ok <==> all_hex_digits(strip_hex_prefix(encode_utf8(self@)))),
            bytes matches Ok(b) ==> b@ == hex_decode_digits(strip_hex_prefix(encode_utf8(self@))),
            encode_utf8(self@).len() % 2 == 0 && strip_hex_prefix(encode_utf8(self@)).len() == 64
                && bytes is Err ==> (bytes matches Err(HexDecodeError::InvalidHexCharacter { .. })),
    {
        decode_to_array_32(self.0.as_str())
    }
}

/// What a raw Ethereum transaction text decodes to: the hash and the gas limit
/// (four little-endian 64-bit limbs) of the transaction that its hex bytes spell
/// in RLP.
pub open spec fn decoded_transaction(raw_transaction: Seq<char>) -> Option<(Seq<u8>, Seq<u64>)> {
    match hex_decode(vstd::utf8::encode_utf8(raw_transaction)) {
        Some(bytes) => rlp_transaction(bytes),
        None => None,
    }
}

/// The fields of a decoded Ethereum transaction that the sequencer reads.
#[derive(Clone, Copy, Debug)]
pub struct DecodedTransaction {
    pub hash: [u8; 32],
    pub gas: [u64; 4],
}

/// Decodes the hex text of an RLP-encoded Ethereum transaction.
pub fn decode_rlp_transaction(raw_transaction: &str) -> (decoded: Option<DecodedTransaction>)
    ensures
        match decoded {
            Some(t) => decoded_transaction(raw_transaction@) == Some((t.hash@, t.gas@)),
            None => decoded_transaction(raw_transaction@) is None,
        },
{
    match decode_hex(raw_transaction) {
        Some(bytes) => match rlp_decode_transaction(bytes.as_slice()) {
            Some((hash, gas)) => Some(DecodedTransaction { hash, gas }),
            None => None,
        },
        None => None,
    }
}

/// A raw Ethereum transaction with the epoch it was received in; clients send
/// it without an epoch.
#[derive(Clone, Debug)]
pub struct EthRawEpochTransaction {
    pub raw_transaction: String,
    pub epoch: Option<u64>,
}

impl EthRawEpochTransaction {
    /// An empty transaction text without epoch.
    pub fn default() -> (transaction: Self)
        ensures
            transaction.raw_transaction@ == Seq::<char>::empty(),
            transaction.epoch is None,
    {
        EthRawEpochTransaction { raw_transaction: String::new(), epoch: None }
    }

    /// A transaction text as a client sends it, without epoch.
    pub fn from_raw(value: String) -> (transaction: Self)
        ensures
            transaction.raw_transaction == value,
            transaction.epoch is None,
    {
        EthRawEpochTransaction { raw_transaction: value, epoch: None }
    }

    /// The `0x`-prefixed hex of the decoded transaction's hash.
    pub fn raw_transaction_hash(&self) -> (hash: RawTransactionHash)
        requires
            decoded_transaction(self.raw_transaction@) is Some,
        ensures
            hash@ == prefixed_hex(decoded_transaction(self.raw_transaction@).unwrap().0),
    {
        let decoded = decode_rlp_transaction(self.raw_transaction.as_str());
        match decoded {
            Some(transaction) => RawEpochTransactionHash::from_string(
                encode_prefixed(&transaction.hash),
            ),
            None => {
                assert(false);
                RawEpochTransactionHash::default()
            },
        }
    }

    /// The decoded transaction, or `InvalidTransaction` when the text does not
    /// decode.
    pub fn rollup_transaction(&self) -> (transaction: Result<DecodedTransaction, Error>)
        ensures
            match transaction {
                Ok(t) => decoded_transaction(self.raw_transaction@) == Some((t.hash@, t.gas@)),
                Err(e) => e == Error::InvalidTransaction && decoded_transaction(
                    self.raw_transaction@,
                ) is None,
            },
    {
        match decode_rlp_transaction(self.raw_transaction.as_str()) {
            Some(transaction) => Ok(transaction),
            None => Err(Error::InvalidTransaction),
        }
    }

    /// Records the epoch the transaction belongs to.
    pub fn set_epoch(&mut self, epoch: u64)
        ensures
            final(self).epoch == Some(epoch),
            final(self).raw_transaction == old(self).raw_transaction,
    {
        self.epoch = Some(epoch);
    }
}

/// The `0x`-prefixed hex of the hash of a batch transaction's decoded text, or
/// nothing when its text does not decode.
pub fn batch_transaction_hash(transaction: &RawTransaction) -> (hash: Option<String>)
    ensures
        match decoded_transaction(transaction.data()) {
            Some(d) => hash matches Some(h) && h@ == prefixed_hex(d.0),
            None => hash is None,
        },
{
    let data = transaction.to_data();
    match decode_rlp_transaction(data.as_str()) {
        Some(decoded) => Some(encode_prefixed(&decoded.hash)),
        None => None,
    }
}

/// A bundle of raw Ethereum transactions, as one text.
#[derive(Clone, Debug)]
pub struct EthRawEpochBundleTransaction(pub String);

/// A bundle's hash is defined when its text decodes as a transaction.
pub open spec fn bundle_hash_defined(bundle: Seq<char>) -> bool {
    decoded_transaction(bundle) is Some
}

impl EthRawEpochBundleTransaction {
    pub fn from_raw(value: String) -> (bundle: Self)
        ensures
            bundle.0 == value,
    {
        EthRawEpochBundleTransaction(value)
    }

    /// The bundle text after writing it as JSON and reading it back, which is
    /// the text itself.
    fn parsed_text(&self) -> (text: String)
        ensures
            text@ == self.0@,
    {
        let json = json_to_string(&self.0);
        match json_from_str(json.as_str()) {
            Some(text) => text,
            None => {
                assert(false);
                String::new()
            },
        }
    }

    /// The hex text of the bytes of the `0x`-prefixed hex of the decoded
    /// transaction's hash (the hash text is hex-encoded once more).
    pub fn raw_transaction_hash(&self) -> (hash: RawTransactionHash)
        requires
            bundle_hash_defined(self.0@),
        ensures
            hash@ == prefixed_hex(
                vstd::utf8::encode_utf8(prefixed_hex(decoded_transaction(self.0@).unwrap().0)),
            ),
    {
        let text = self.parsed_text();
        match decode_rlp_transaction(text.as_str()) {
            Some(transaction) => {
                let hash_text = encode_prefixed(&transaction.hash);
                RawEpochTransactionHash::new(hash_text.as_str().as_bytes())
            },
            None => {
                assert(false);
                RawEpochTransactionHash::default()
            },
        }
    }

    /// The decoded transaction, or `InvalidTransaction`.
    pub fn rollup_transaction(&self) -> (transaction: Result<DecodedTransaction, Error>)
        ensures
            match transaction {
                Ok(t) => decoded_transaction(self.0@) == Some((t.hash@, t.gas@)),
                Err(e) => e == Error::InvalidTransaction && decoded_transaction(self.0@) is None,
            },
    {
        let text = self.parsed_text();
        match decode_rlp_transaction(text.as_str()) {
            Some(transaction) => Ok(transaction),
            None => Err(Error::InvalidTransaction),
        }
    }
}

/// A raw transaction received in an epoch.
#[derive(Clone, Debug)]
pub enum RawEpochTransaction {
    Eth(EthRawEpochTransaction),
    EthBundle(EthRawEpochBundleTransaction),
}

/// The hash of a raw transaction is defined when its text decodes.
pub open spec fn hash_defined(transaction: RawEpochTransaction) -> bool {
    match transaction {
        RawEpochTransaction::Eth(eth) => decoded_transaction(eth.raw_transaction@) is Some,
        RawEpochTransaction::EthBundle(bundle) => bundle_hash_defined(bundle.0@),
    }
}

/// The hash text of a raw transaction whose hash is defined.
pub open spec fn transaction_hash_text(transaction: RawEpochTransaction) -> Seq<char> {
    match transaction {
        RawEpochTransaction::Eth(eth) => prefixed_hex(
            decoded_transaction(eth.raw_transaction@).unwrap().0,
        ),
        RawEpochTransaction::EthBundle(bundle) => prefixed_hex(
            vstd::utf8::encode_utf8(
                prefixed_hex(decoded_transaction(bundle.0@).unwrap().0),
            ),
        ),
    }
}

/// A gas limit given as four little-endian 64-bit limbs fits in a `u64`.
pub open spec fn gas_fits_u64(gas: Seq<u64>) -> bool {
    gas[1] == 0 && gas[2] == 0 && gas[3] == 0
}

impl RawEpochTransaction {
    /// An empty Ethereum transaction without epoch.
    pub fn default() -> (transaction: Self)
        ensures
            transaction matches RawEpochTransaction::Eth(eth) && eth.raw_transaction@
                == Seq::<char>::empty() && eth.epoch is None,
    {
        RawEpochTransaction::Eth(EthRawEpochTransaction::default())
    }

    /// The transaction's hash text.
    pub fn raw_transaction_hash(&self) -> (hash: RawTransactionHash)
        requires
            hash_defined(*self),
        ensures
            hash@ == transaction_hash_text(*self),
    {
        match self {
            RawEpochTransaction::Eth(eth) => eth.raw_transaction_hash(),
            RawEpochTransaction::EthBundle(bundle) => bundle.raw_transaction_hash(),
        }
    }

    /// The transaction's hash text, or nothing when its text does not decode.
    pub fn checked_raw_transaction_hash(&self) -> (hash: Option<RawTransactionHash>)
        ensures
            match hash {
                Some(h) => hash_defined(*self) && h@ == transaction_hash_text(*self),
                None => !hash_defined(*self),
            },
    {
        let defined = match self {
            RawEpochTransaction::Eth(eth) => decode_rlp_transaction(
                eth.raw_transaction.as_str(),
            ).is_some(),
            RawEpochTransaction::EthBundle(bundle) => decode_rlp_transaction(
                bundle.parsed_text().as_str(),
            ).is_some(),
        };
        if defined {
            Some(self.raw_transaction_hash())
        } else {
            None
        }
    }

    /// The gas limit of an Ethereum transaction, or `InvalidTransaction` when
    /// its text does not decode.
    pub fn get_transaction_gas_limit(&self) -> (gas_limit: Result<u64, Error>)
        requires
            self is Eth,
            self matches RawEpochTransaction::Eth(eth) && decoded_transaction(eth.raw_transaction@)
                matches Some(d) ==> gas_fits_u64(d.1),
        ensures
            self matches RawEpochTransaction::Eth(eth) && match decoded_transaction(
                eth.raw_transaction@,
            ) {
                Some(d) => gas_limit == Ok::<u64, Error>(d.1[0]),
                None => gas_limit == Err::<u64, Error>(Error::InvalidTransaction),
            },
    {
        match self {
            RawEpochTransaction::Eth(eth) => match eth.rollup_transaction() {
                Ok(transaction) => Ok(transaction.gas[0]),
                Err(error) => Err(error),
            },
            RawEpochTransaction::EthBundle(_) => {
                assert(false);
                Err(Error::InvalidTransaction)
            },
        }
    }

    /// The gas limit, or nothing where it is not defined: for a bundle, or when
    /// the decoded gas limit does not fit in a `u64`.
    pub fn checked_transaction_gas_limit(&self) -> (gas_limit: Option<Result<u64, Error>>)
        ensures
            match gas_limit {
                Some(g) => self matches RawEpochTransaction::Eth(eth) && match decoded_transaction(
                    eth.raw_transaction@,
                ) {
                    Some(d) => gas_fits_u64(d.1) && g == Ok::<u64, Error>(d.1[0]),
                    None => g == Err::<u64, Error>(Error::InvalidTransaction),
                },
                None => self is EthBundle || (self matches RawEpochTransaction::Eth(eth)
                    && decoded_transaction(eth.raw_transaction@) matches Some(d) && !gas_fits_u64(
                    d.1,
                )),
            },
    {
        match self {
            RawEpochTransaction::Eth(eth) => match decode_rlp_transaction(
                eth.raw_transaction.as_str(),
            ) {
                Some(transaction) => {
                    if transaction.gas[1] == 0 && transaction.gas[2] == 0 && transaction.gas[3] == 0 {
                        Some(self.get_transaction_gas_limit())
                    } else {
                        None
                    }
                },
                None => Some(self.get_transaction_gas_limit()),
            },
            RawEpochTransaction::EthBundle(_) => None,
        }
    }
}

/// The model under which raw epoch transactions are stored, keyed by rollup,
/// epoch and order, or by rollup and hash.
#[derive(Clone, Copy, Debug)]
pub struct RawEpochTransactionModel;

/// A hash made from 32 bytes gives them back: its text has an even length and
/// 64 hex digits after the prefix, which spell the bytes.
pub proof fn lemma_hash_bytes_round_trip(value: [u8; 32])
    ensures
        encode_utf8(prefixed_hex(value@)).len() % 2 == 0,
        strip_hex_prefix(encode_utf8(prefixed_hex(value@))).len() == 64,
        all_hex_digits(strip_hex_prefix(encode_utf8(prefixed_hex(value@)))),
        hex_decode_digits(strip_hex_prefix(encode_utf8(prefixed_hex(value@)))) == value@,
{
    lemma_prefixed_hex_round_trip(value@);
}

} // verus!
