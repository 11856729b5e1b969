//! Header, payload and component types of an SD-JWT.
use vstd::prelude::*;

verus! {

/// The header of an SD-JWT.
pub struct SdJwtHeader {
    pub alg: String,
    pub typ: String,
    pub kid: String,
}

/// The payload of an SD-JWT credential.
pub struct SdJwtPayload {
    pub iss: String,
    pub iat: i64,
    pub nbf: i64,
    pub _sd_alg: String,
    pub jti: String,
    pub vc: serde_json::Value,
}

/// The parts of an SD-JWT.
pub struct SdJwtComponents {
    pub header: serde_json::Value,
    pub payload: serde_json::Value,
    pub signature: Vec<u8>,
    pub disclosures: Vec<String>,
}

} // verus!
