//! Errors of DID resolution, signing and SD-JWT processing.
use vstd::prelude::*;

verus! {

/// Why a `did:key` identifier gave no public key.
#[derive(Debug, Clone, Copy, PartialEq, Eq, Structural)]
pub enum DidError {
    /// The identifier does not start with `did:key:`.
    MissingDidKeyPrefix,
    /// The text after `did:key:` is not multibase.
    InvalidMultibase,
    /// The decoded bytes do not start with a varint multicodec prefix.
    InvalidVarint,
    /// The multicodec prefix names another key type.
    UnexpectedMulticodec { expected: u64, found: u64 },
}

/// Why a key or signature was refused.
#[derive(Debug, Clone, Copy, PartialEq, Eq, Structural)]
pub enum CryptoError {
    /// The private key bytes do not make a key of the algorithm.
    InvalidPrivateKey,
    /// The public key bytes do not make a key of the algorithm.
    InvalidPublicKey,
    /// The signature bytes do not make a signature of the algorithm.
    InvalidSignature,
}

/// Why an SD-JWT could not be issued or checked.
#[derive(Debug)]
pub enum SdJwtError {
    /// The token does not have three `.`-separated parts before the first `~`.
    InvalidJwtFormat,
    /// The header is not unpadded URL-safe Base64.
    HeaderDecode,
    /// The header is not JSON.
    HeaderParse,
    /// The header's `alg` is not the algorithm's name.
    UnsupportedAlgorithm,
    /// The header has no string `kid`.
    MissingKid,
    /// The payload is not unpadded URL-safe Base64.
    PayloadDecode,
    /// The payload is not JSON.
    PayloadParse,
    /// The payload's `iss` is not the DID of the header's `kid`.
    IssuerMismatch,
    /// The signature part is not unpadded URL-safe Base64.
    SignatureDecode,
    /// The issuer DID gave no public key.
    Did(DidError),
    /// Signing or checking a signature failed.
    Crypto(CryptoError),
    /// The payload has no string `_sd_alg`.
    MissingSdAlg,
    /// The payload's `_sd_alg` is not `sha-256`.
    UnsupportedSdAlg(String),
    /// `credentialSubject._sd` is not an array.
    InvalidSdFormat,
    /// The digest of a disclosure is not listed in `_sd`.
    DigestNotFound(String),
    /// The clock reading is out of the range that dates can be written for.
    ClockOutOfRange,
    /// The credential is too large to encode.
    TooLarge,
}

/// The model of an [`SdJwtError`], with texts as character sequences.
pub enum SdJwtErrorModel {
    InvalidJwtFormat,
    HeaderDecode,
    HeaderParse,
    UnsupportedAlgorithm,
    MissingKid,
    PayloadDecode,
    PayloadParse,
    IssuerMismatch,
    SignatureDecode,
    Did(DidError),
    Crypto(CryptoError),
    MissingSdAlg,
    UnsupportedSdAlg(Seq<char>),
    InvalidSdFormat,
    DigestNotFound(Seq<char>),
    ClockOutOfRange,
    TooLarge,
}

impl View for SdJwtError {
    type V = SdJwtErrorModel;

    open spec fn view(&self) -> SdJwtErrorModel {
        match self {
            SdJwtError::InvalidJwtFormat => SdJwtErrorModel::InvalidJwtFormat,
            SdJwtError::HeaderDecode => SdJwtErrorModel::HeaderDecode,
            SdJwtError::HeaderParse => SdJwtErrorModel::HeaderParse,
            SdJwtError::UnsupportedAlgorithm => SdJwtErrorModel::UnsupportedAlgorithm,
            SdJwtError::MissingKid => SdJwtErrorModel::MissingKid,
            SdJwtError::PayloadDecode => SdJwtErrorModel::PayloadDecode,
            SdJwtError::PayloadParse => SdJwtErrorModel::PayloadParse,
            SdJwtError::IssuerMismatch => SdJwtErrorModel::IssuerMismatch,
            SdJwtError::SignatureDecode => SdJwtErrorModel::SignatureDecode,
            SdJwtError::Did(e) => SdJwtErrorModel::Did(*e),
            SdJwtError::Crypto(e) => SdJwtErrorModel::Crypto(*e),
            SdJwtError::MissingSdAlg => SdJwtErrorModel::MissingSdAlg,
            SdJwtError::UnsupportedSdAlg(s) => SdJwtErrorModel::UnsupportedSdAlg(s@),
            SdJwtError::InvalidSdFormat => SdJwtErrorModel::InvalidSdFormat,
            SdJwtError::DigestNotFound(s) => SdJwtErrorModel::DigestNotFound(s@),
            SdJwtError::ClockOutOfRange => SdJwtErrorModel::ClockOutOfRange,
            SdJwtError::TooLarge => SdJwtErrorModel::TooLarge,
        }
    }
}

/// The model of a result whose error is an [`SdJwtError`].
pub open spec fn result_model<T>(r: Result<T, SdJwtError>) -> Result<T, SdJwtErrorModel> {
    match r {
        Ok(v) => Ok(v),
        Err(e) => Err(e@),
    }
}

} // verus!
