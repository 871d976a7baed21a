//! Remote SaaS-compiled artifacts: where they are written, and the checks of
//! their signatures.

use vstd::prelude::*;
use crate::error::{CliError, err_text};
use crate::json::decimal;
use crate::text::{owned, push_text, trim, trimmed, texts_of, list_contains};

verus! {

/// `ed25519_dalek::VerifyingKey`, carried through unchanged.
#[verifier::external_type_specification]
#[verifier::external_body]
pub struct ExVerifyingKey(ed25519_dalek::VerifyingKey);


/// Options for verifying downloaded artifacts.
#[derive(Debug, Clone)]
pub struct RemoteAstOptions {
    pub public_key: Option<Vec<u8>>,
    pub require_signature: bool,
}

impl Default for RemoteAstOptions {
    fn default() -> (r: Self)
        ensures
            r.public_key is None,
            !r.require_signature,
    {
        RemoteAstOptions { public_key: None, require_signature: false }
    }
}

/// A required signature needs a public key.
pub fn ensure_signature_config(options: &RemoteAstOptions) -> (r: Result<(), CliError>)
    ensures
        err_text(r) == (if options.require_signature && options.public_key is None {
            Some("saas.ast_public_key is required when require_ast_signature is true"@)
        } else {
            None
        }),
{
    if options.require_signature && options.public_key.is_none() {
        return Err(CliError::Message(owned("saas.ast_public_key is required when require_ast_signature is true")));
    }
    Ok(())
}

/// What the standard base64 engine of the `base64` crate decodes a text to:
/// the bytes, or the text of its error.
pub uninterp spec fn base64_decoded(input: Seq<char>) -> Result<Seq<u8>, Seq<char>>;

/// Calls `base64::engine::general_purpose::STANDARD.decode`; the outcome is
/// named, not stated, and an error is kept as its display text.
#[verifier::external_body]
fn base64_decode(input: &str) -> (r: Result<Vec<u8>, String>)
    ensures
        match r {
            Ok(b) => base64_decoded(input@) == Ok::<Seq<u8>, Seq<char>>(b@),
            Err(t) => base64_decoded(input@) == Err::<Seq<u8>, Seq<char>>(t@),
        },
{
    base64::Engine::decode(&base64::engine::general_purpose::STANDARD, input).map_err(|e| e.to_string())
}

/// The public key of a catalog: base64 of 32 bytes, surrounding white space ignored.
pub open spec fn spec_decode_public_key(encoded: Seq<char>) -> Result<Seq<u8>, Seq<char>> {
    match base64_decoded(trimmed(encoded)) {
        Err(t) => Err("Invalid saas.ast_public_key base64: "@ + t),
        Ok(b) => if b.len() != 32 {
            Err("Invalid saas.ast_public_key length: expected 32 bytes, got "@ + decimal(b.len()))
        } else {
            Ok(b)
        },
    }
}

pub fn decode_public_key(encoded: &str) -> (r: Result<Vec<u8>, CliError>)
    ensures
        match r {
            Ok(b) => spec_decode_public_key(encoded@) == Ok::<Seq<u8>, Seq<char>>(b@),
            Err(e) => spec_decode_public_key(encoded@) == Err::<Seq<u8>, Seq<char>>(e.text()),
        },
{
    let t = trim(encoded);
    let bytes = match base64_decode(t.as_str()) {
        Ok(b) => b,
        Err(m) => {
            let mut s = owned("Invalid saas.ast_public_key base64: ");
            push_text(&mut s, m.as_str());
            return Err(CliError::Message(s));
        },
    };
    if bytes.len() != 32 {
        let mut s = owned("Invalid saas.ast_public_key length: expected 32 bytes, got ");
        crate::json::write_decimal(&mut s, bytes.len() as u64);
        return Err(CliError::Message(s));
    }
    Ok(bytes)
}

/// Verification options from a SaaS catalog: its public key (decoded) and
/// whether signatures are required. Without a `saas` section, no verification.
pub fn remote_ast_options(saas_present: bool, ast_public_key: Option<&str>, require_signature: bool) -> (r: Result<RemoteAstOptions, CliError>)
    ensures
        !saas_present ==> (r matches Ok(o) && o.public_key is None && !o.require_signature),
        saas_present ==> match ast_public_key {
            Some(k) => match spec_decode_public_key(k@) {
                Err(m) => err_text_of(r) == Some(m),
                Ok(b) => (r matches Ok(o) && o.public_key matches Some(p) && p@ == b && o.require_signature == require_signature),
            },
            None => if require_signature {
                err_text_of(r) == Some("saas.ast_public_key is required when require_ast_signature is true"@)
            } else {
                r matches Ok(o) && o.public_key is None && !o.require_signature
            },
        },
{
    if !saas_present {
        return Ok(RemoteAstOptions { public_key: None, require_signature: false });
    }
    let public_key = match ast_public_key {
        Some(encoded) => Some(decode_public_key(encoded)?),
        None => None,
    };
    let options = RemoteAstOptions { public_key, require_signature };
    ensure_signature_config(&options)?;
    Ok(options)
}

pub open spec fn err_text_of<T>(r: Result<T, CliError>) -> Option<Seq<char>> {
    match r {
        Ok(_) => None,
        Err(e) => Some(e.text()),
    }
}

/// Where a downloaded artifact is written; `env_valid` says whether the
/// environment name is one the SaaS service may use.
pub fn remote_ast_output_path(base_dir: &str, environment: &str, env_valid: bool) -> (r: Result<String, CliError>)
    ensures
        env_valid ==> (r matches Ok(p) && p@ == crate::paths::spec_path_join(base_dir@, ".controlpath/"@ + environment@ + ".ast"@)),
        !env_valid ==> err_text_of(r) == Some("Invalid environment name for remote AST: '"@ + environment@ + "'"@),
{
    if !env_valid {
        let mut m = owned("Invalid environment name for remote AST: '");
        push_text(&mut m, environment);
        push_text(&mut m, "'");
        return Err(CliError::Message(m));
    }
    let mut rel = owned(".controlpath/");
    push_text(&mut rel, environment);
    push_text(&mut rel, ".ast");
    Ok(crate::paths::path_join(base_dir, rel.as_str()))
}

/// The error text `ed25519_dalek::VerifyingKey::from_bytes` gives for 32 bytes
/// that are no public key, or `None` when they are one.
pub uninterp spec fn ed25519_key_error(key: Seq<u8>) -> Option<Seq<char>>;

/// Calls `ed25519_dalek::VerifyingKey::from_bytes`; whether it accepts the
/// bytes, and its error's display text, are named, not stated.
#[verifier::external_body]
fn parse_verifying_key(key: &[u8]) -> (r: Result<ed25519_dalek::VerifyingKey, String>)
    requires
        key@.len() == 32,
    ensures
        match r {
            Ok(_) => ed25519_key_error(key@) is None,
            Err(t) => ed25519_key_error(key@) == Some(t@),
        },
{
    let bytes: [u8; 32] = key.try_into().unwrap();
    ed25519_dalek::VerifyingKey::from_bytes(&bytes).map_err(|e| e.to_string())
}

/// Whether `ed25519_dalek`'s `Verifier::verify` accepts a signature (64 bytes)
/// of a message under a public key (32 bytes).
pub uninterp spec fn ed25519_verifies(key: Seq<u8>, message: Seq<u8>, signature: Seq<u8>) -> bool;

/// Calls `Verifier::verify` of `ed25519_dalek::VerifyingKey`, the key and the
/// signature made from their bytes; the outcome is named, not stated.
#[verifier::external_body]
fn verify_signature(key: &[u8], message: &[u8], sig: &[u8]) -> (r: bool)
    requires
        key@.len() == 32,
        sig@.len() == 64,
        ed25519_key_error(key@) is None,
    ensures
        r == ed25519_verifies(key@, message@, sig@),
{
    let key_bytes: [u8; 32] = key.try_into().unwrap();
    let sig_bytes: [u8; 64] = sig.try_into().unwrap();
    let key = ed25519_dalek::VerifyingKey::from_bytes(&key_bytes).unwrap();
    let signature = ed25519_dalek::Signature::from_bytes(&sig_bytes);
    ed25519_dalek::Verifier::verify(&key, message, &signature).is_ok()
}

/// Checks an artifact's signature over `message` (the artifact serialized
/// without its signature).
pub fn verify_artifact_signature(signature: Option<&Vec<u8>>, message: &Vec<u8>, public_key: &Vec<u8>, require_signature: bool) -> (r: Result<(), CliError>)
    ensures
        match signature {
            None => err_text(r) == (if require_signature { Some("Signature required but not present in artifact"@) } else { None }),
            Some(s) => if s@.len() != 64 {
                err_text(r) == Some("Invalid signature length: expected 64 bytes, got "@ + decimal(s@.len()))
            } else if public_key@.len() != 32 {
                err_text(r) == Some("Invalid public key length: expected 32 bytes, got "@ + decimal(public_key@.len()))
            } else {
                match ed25519_key_error(public_key@) {
                    Some(t) => err_text(r) == Some("Invalid public key: "@ + t),
                    None => err_text(r) == (if ed25519_verifies(public_key@, message@, s@) {
                        None
                    } else {
                        Some("Signature verification failed"@)
                    }),
                }
            },
        },
{
    let sig = match signature {
        Some(s) => s,
        None => {
            if require_signature {
                return Err(CliError::Message(owned("Signature required but not present in artifact")));
            }
            return Ok(());
        },
    };
    if sig.len() != 64 {
        let mut m = owned("Invalid signature length: expected 64 bytes, got ");
        crate::json::write_decimal(&mut m, sig.len() as u64);
        return Err(CliError::Message(m));
    }
    if public_key.len() != 32 {
        let mut m = owned("Invalid public key length: expected 32 bytes, got ");
        crate::json::write_decimal(&mut m, public_key.len() as u64);
        return Err(CliError::Message(m));
    }
    if let Err(t) = parse_verifying_key(public_key.as_slice()) {
        let mut m = owned("Invalid public key: ");
        push_text(&mut m, t.as_str());
        return Err(CliError::Message(m));
    }
    if !verify_signature(public_key.as_slice(), message.as_slice(), sig.as_slice()) {
        return Err(CliError::Message(owned("Signature verification failed")));
    }
    Ok(())
}


/// What checking a downloaded artifact answers: the configuration must be
/// consistent; with signatures required the signature is checked as required,
/// else with a public key it is checked when present, else nothing is checked.
pub open spec fn remote_check_outcome(
    signature: Option<Seq<u8>>,
    message: Seq<u8>,
    public_key: Option<Seq<u8>>,
    require_signature: bool,
) -> Option<Seq<char>> {
    if require_signature && public_key is None {
        Some("saas.ast_public_key is required when require_ast_signature is true"@)
    } else {
        match public_key {
            Some(k) => signature_outcome(signature, message, k, require_signature),
            None => None,
        }
    }
}

/// What [`verify_artifact_signature`] answers.
pub open spec fn signature_outcome(signature: Option<Seq<u8>>, message: Seq<u8>, key: Seq<u8>, require_signature: bool) -> Option<Seq<char>> {
    match signature {
        None => if require_signature { Some("Signature required but not present in artifact"@) } else { None },
        Some(s) => if s.len() != 64 {
            Some("Invalid signature length: expected 64 bytes, got "@ + decimal(s.len()))
        } else if key.len() != 32 {
            Some("Invalid public key length: expected 32 bytes, got "@ + decimal(key.len()))
        } else {
            match ed25519_key_error(key) {
                Some(t) => Some("Invalid public key: "@ + t),
                None => if ed25519_verifies(key, message, s) { None } else { Some("Signature verification failed"@) },
            }
        },
    }
}

/// Checks a downloaded artifact (its signature, and `message`: the artifact
/// serialized without its signature) against the verification options.
pub fn check_remote_artifact(signature: Option<&Vec<u8>>, message: &Vec<u8>, options: &RemoteAstOptions) -> (r: Result<(), CliError>)
    ensures
        err_text(r) == remote_check_outcome(
            match signature { Some(s) => Some(s@), None => None },
            message@,
            match &options.public_key { Some(k) => Some(k@), None => None },
            options.require_signature),
{
    ensure_signature_config(options)?;
    match &options.public_key {
        Some(k) => verify_artifact_signature(signature, message, k, options.require_signature),
        None => Ok(()),
    }
}

/// The environments whose cached artifacts are stale: those found in the cache
/// that the service did not send.
pub fn stale_environments(found: &Vec<String>, active: &Vec<String>) -> (r: Vec<String>)
    ensures
        texts_of(r@) == texts_of(found@).filter(|e: Seq<char>| !texts_of(active@).contains(e)),
{
    let mut out: Vec<String> = Vec::new();
    let mut i: usize = 0;
    while i < found.len()
        invariant
            i <= found@.len(),
            texts_of(out@) == texts_of(found@).take(i as int).filter(|e: Seq<char>| !texts_of(active@).contains(e)),
        decreases found@.len() - i,
    {
        let ghost before = out@;
        proof {
            assert(texts_of(found@).take(i + 1) =~= texts_of(found@).take(i as int).push(found@[i as int]@));
            texts_of(found@).take(i as int).lemma_filter_push(found@[i as int]@, |e: Seq<char>| !texts_of(active@).contains(e));
        }
        if !list_contains(active, found[i].as_str()) {
            out.push(found[i].clone());
            proof {
                assert(texts_of(out@) =~= texts_of(before).push(found@[i as int]@));
            }
        } else {
            proof {
                assert(texts_of(out@) =~= texts_of(before));
            }
        }
        i = i + 1;
    }
    proof {
        assert(texts_of(found@).take(found@.len() as int) =~= texts_of(found@));
    }
    out
}

} // verus!
