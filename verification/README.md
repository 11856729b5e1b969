# sd_vc_qr

Selective-disclosure verifiable credentials (SD-JWT VC) issued and checked with
`did:key` identifiers, for classical (Ed25519, secp256k1, P-256) and
post-quantum (Falcon-512, Dilithium2) keys. The library is written in Verus:
its functions carry `requires`/`ensures` contracts that the verifier proves.

Layout:

- `src/text.rs`, `src/encoding.rs`: splitting and joining on separators,
  base64url, SHA-256, unsigned varints, multibase, with their specifications.
- `src/json.rs`: the JSON texts of the token header, payload and disclosures,
  and the reading of header and payload claims.
- `src/claims.rs`: the credential subject, an ordered map of claims whose
  values are strings, booleans, or other JSON values held as JSON text.
- `src/did/`: `did:key` identifiers and key generation.
- `src/sd_jwt/`: issuing and verifying tokens; the proof that a token issued
  by the library is accepted by its verifier, also with fewer, reordered or
  no disclosures, and one naming another algorithm is refused; and that
  issuing from moderately sized inputs fails only on the clock or a refused
  key.
- `src/wallet/`: one wallet and signature algorithm per key type.
- `src/entropy.rs`: salts, clock and identifiers.
- `app/`: serde-facing copies of the credential types and error messages.

Calls into outside crates sit behind small trusted wrappers whose doc comments
say what each contract assumes of the crate it calls.
