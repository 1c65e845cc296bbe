//! Validated capability tokens, backed by the biscuit credential crate.
//!
//! The outside crate does the cryptography: decoding a token text
//! verifies its signature chain against the root public key, and every
//! token this system hands out is built and signed under the root
//! private key. Everything the authorization engine reads from a token
//! — its profile grants, its expiry checks, its revocation
//! identifiers — is extracted as plain values and carried beside the
//! signed credential.

use vstd::prelude::*;

use crate::authz::{spec_grants, TokenFacts};
use crate::codec::{add_padding, remove_padding};
use crate::strings::is_hex_text;
use crate::source::{expiries_of_source, has_unreadable_check, lemma_profiles_of_source_concat,
    parse_block_source, profile_facts_source, profiles_of_source};
use crate::strings::{contains_view, views_of_strings};

verus! {

#[verifier::external_type_specification]
#[verifier::external_body]
pub struct ExBiscuit(biscuit_auth::Biscuit);

#[verifier::external_type_specification]
#[verifier::external_body]
pub struct ExKeyPair(biscuit_auth::KeyPair);

#[verifier::external_type_specification]
#[verifier::external_body]
pub struct ExPublicKey(biscuit_auth::PublicKey);

#[verifier::external_type_specification]
#[verifier::external_body]
pub struct ExPrivateKey(biscuit_auth::PrivateKey);

#[verifier::external_type_specification]
#[verifier::external_body]
pub struct ExBiscuitBuilder(biscuit_auth::builder::BiscuitBuilder);

#[verifier::external_type_specification]
#[verifier::external_body]
pub struct ExBlockBuilder(biscuit_auth::builder::BlockBuilder);

#[verifier::external_type_specification]
#[verifier::external_body]
pub struct ExBiscuitError(biscuit_auth::error::Token);

#[verifier::external_type_specification]
#[verifier::external_body]
pub struct ExFormatError(biscuit_auth::error::Format);

/// Relies on Biscuit::from_base64: deserializes a token and validates
/// its signature chain against the root public key.
#[verifier::external_body]
fn biscuit_from_base64(encoded: &str, root: &biscuit_auth::PublicKey) -> (r: Result<
    biscuit_auth::Biscuit,
    biscuit_auth::error::Token,
>) {
    biscuit_auth::Biscuit::from_base64(encoded, *root)
}

/// Relies on Biscuit::to_base64: serializes the token as URL-safe,
/// padded base64.
#[verifier::external_body]
fn biscuit_to_base64(b: &biscuit_auth::Biscuit) -> (r: Result<
    String,
    biscuit_auth::error::Token,
>) {
    b.to_base64()
}

/// Relies on Biscuit::block_count: one authority block plus the
/// appended blocks, so always at least one.
#[verifier::external_body]
fn biscuit_block_count(b: &biscuit_auth::Biscuit) -> (r: usize)
    ensures
        r >= 1,
{
    b.block_count()
}

/// Relies on Biscuit::print_block_source: the content of one block as
/// printed Datalog source. The crate's own bounds check lets an index
/// equal to the block count reach an out-of-range access, so this body
/// refuses any index at or past the block count with the crate's own
/// invalid-index error instead.
#[verifier::external_body]
fn biscuit_print_block_source(b: &biscuit_auth::Biscuit, index: usize) -> (r: Result<
    String,
    biscuit_auth::error::Token,
>) {
    if index >= b.block_count() {
        return Err(
            biscuit_auth::error::Token::Format(
                biscuit_auth::error::Format::BlockDeserializationError(
                    "invalid block index".to_string(),
                ),
            ),
        );
    }
    b.print_block_source(index)
}

/// Relies on Biscuit::revocation_identifiers: one identifier per block
/// of the chain, in order.
#[verifier::external_body]
fn biscuit_revocation_identifiers(b: &biscuit_auth::Biscuit) -> (r: Vec<Vec<u8>>) {
    b.revocation_identifiers()
}

/// Relies on Biscuit::builder: a fresh authority-block builder.
#[verifier::external_body]
fn biscuit_builder() -> (r: biscuit_auth::builder::BiscuitBuilder) {
    biscuit_auth::Biscuit::builder()
}

/// Relies on BiscuitBuilder::add_code: parses Datalog source into the
/// authority block.
#[verifier::external_body]
fn builder_add_code(
    builder: &mut biscuit_auth::builder::BiscuitBuilder,
    code: &str,
) -> (r: Result<(), biscuit_auth::error::Token>) {
    builder.add_code(code)
}

/// Relies on BiscuitBuilder::build: creates a new token signed by the
/// root keypair.
#[verifier::external_body]
fn builder_build(
    builder: biscuit_auth::builder::BiscuitBuilder,
    root: &biscuit_auth::KeyPair,
) -> (r: Result<biscuit_auth::Biscuit, biscuit_auth::error::Token>) {
    builder.build(root)
}

/// Relies on BlockBuilder::new: a fresh attenuation-block builder.
#[verifier::external_body]
fn block_builder() -> (r: biscuit_auth::builder::BlockBuilder) {
    biscuit_auth::builder::BlockBuilder::new()
}

/// Relies on BlockBuilder::add_code: parses Datalog source into the
/// block.
#[verifier::external_body]
fn block_add_code(
    builder: &mut biscuit_auth::builder::BlockBuilder,
    code: &str,
) -> (r: Result<(), biscuit_auth::error::Token>) {
    builder.add_code(code)
}

/// Relies on Biscuit::append: a new token with one more block; the
/// original is unchanged (attenuation never widens a token).
#[verifier::external_body]
fn biscuit_append(
    b: &biscuit_auth::Biscuit,
    block: biscuit_auth::builder::BlockBuilder,
) -> (r: Result<biscuit_auth::Biscuit, biscuit_auth::error::Token>) {
    b.append(block)
}

/// Relies on KeyPair::new: generates a fresh random root keypair.
#[verifier::external_body]
fn keypair_generate() -> (r: biscuit_auth::KeyPair) {
    biscuit_auth::KeyPair::new()
}

/// Relies on PrivateKey::from_bytes_hex: reads a private key from its
/// hexadecimal text form. It succeeds exactly on 64 hexadecimal digits
/// (the crate hex-decodes, then requires 32 bytes and accepts any such
/// key material).
#[verifier::external_body]
fn private_key_from_hex(hex_text: &str) -> (r: Result<
    biscuit_auth::PrivateKey,
    biscuit_auth::error::Format,
>)
    ensures
        r is Ok <==> (is_hex_text(hex_text@) && hex_text@.len() == 64),
{
    biscuit_auth::PrivateKey::from_bytes_hex(hex_text)
}

/// Relies on KeyPair::from: derives the keypair of a private key.
#[verifier::external_body]
fn keypair_from_private(key: &biscuit_auth::PrivateKey) -> (r: biscuit_auth::KeyPair) {
    biscuit_auth::KeyPair::from(key)
}

/// Relies on KeyPair::public: the public half of the keypair.
#[verifier::external_body]
fn keypair_public(pair: &biscuit_auth::KeyPair) -> (r: biscuit_auth::PublicKey) {
    pair.public()
}

/// Why a token operation failed, recoverably: the text did not decode
/// as a signature-valid token, or the outside crate refused to rebuild
/// one.
#[derive(PartialEq, Eq, Structural, Clone, Copy, Debug)]
pub enum TokenError {
    Decode,
    Rebuild,
}

/// The root signing keypair: every token this system trusts was signed
/// under it, and every merge or refresh re-signs under it.
pub struct RootKey {
    pub pair: biscuit_auth::KeyPair,
}

impl RootKey {
    /// A keystore loaded from hexadecimal private-key material (the
    /// environment-supplied form): exactly 64 hex digits are accepted.
    pub fn from_private_key_hex(hex_text: &str) -> (r: Result<RootKey, TokenError>)
        ensures
            r is Ok <==> (is_hex_text(hex_text@) && hex_text@.len() == 64),
            r is Err ==> r->Err_0 == TokenError::Decode,
    {
        match private_key_from_hex(hex_text) {
            Ok(key) => Ok(RootKey { pair: keypair_from_private(&key) }),
            Err(_) => Err(TokenError::Decode),
        }
    }

    /// A freshly generated keystore (the local-file form generates one
    /// when none is saved yet).
    pub fn generate() -> (r: RootKey) {
        RootKey { pair: keypair_generate() }
    }

    /// The public key every token is verified against.
    pub fn public(&self) -> (r: biscuit_auth::PublicKey) {
        keypair_public(&self.pair)
    }
}

/// A validated capability token: the signed credential, and the plain
/// facts the authorization engine reads from it.
pub struct CapabilityToken {
    pub biscuit: biscuit_auth::Biscuit,
    pub facts: TokenFacts,
    pub block0_source: String,
    pub revocation_ids: Vec<Vec<u8>>,
}

impl CapabilityToken {
    /// The profile grants are exactly the profile facts of the printed
    /// authority-block source.
    pub open spec fn wf(&self) -> bool {
        views_of_strings(self.facts.profiles@) == profiles_of_source(self.block0_source@)
    }

    /// The profile names this token grants.
    pub fn profiles(&self) -> (r: &Vec<String>)
        ensures
            r@ == self.facts.profiles@,
    {
        &self.facts.profiles
    }
}

/// Builds a validated token's plain model from a signature-checked
/// credential: profile grants from the authority block, expiry checks
/// from every block, and the chain's revocation identifiers.
fn token_from_biscuit(b: biscuit_auth::Biscuit) -> (r: Result<CapabilityToken, TokenError>)
    ensures
        r is Ok ==> r->Ok_0.wf(),
        r is Err ==> r->Err_0 == TokenError::Decode,
{
    let n = biscuit_block_count(&b);
    let block0 = match biscuit_print_block_source(&b, 0) {
        Ok(s) => s,
        Err(_) => {
            return Err(TokenError::Decode);
        },
    };
    let parsed = parse_block_source(block0.as_str());
    let profiles = parsed.profiles;
    let mut expiries = parsed.expiries;
    let mut unreadable = parsed.unreadable;
    let mut i: usize = 1;
    while i < n
        invariant
            views_of_strings(profiles@) == profiles_of_source(block0@),
        decreases n - i,
    {
        match biscuit_print_block_source(&b, i) {
            Ok(src) => {
                let mut block = parse_block_source(src.as_str());
                expiries.append(&mut block.expiries);
                if block.unreadable {
                    unreadable = true;
                }
            },
            Err(_) => {
                // A block whose source cannot even be printed is a
                // constraint this engine cannot evaluate.
                unreadable = true;
            },
        }
        i = i + 1;
    }
    let revocation_ids = biscuit_revocation_identifiers(&b);
    Ok(
        CapabilityToken {
            biscuit: b,
            facts: TokenFacts { profiles, expiries, opaque_checks: unreadable },
            block0_source: block0,
            revocation_ids,
        },
    )
}

/// Decodes a token from its (possibly padding-stripped) base64 text,
/// verifying its signature chain against the root public key. Any
/// failure is recoverable: the source that supplied the text simply
/// contributes nothing.
pub fn decode_token(encoded: &str, root: &biscuit_auth::PublicKey) -> (r: Result<
    CapabilityToken,
    TokenError,
>)
    ensures
        r is Ok ==> r->Ok_0.wf(),
        r is Err ==> r->Err_0 == TokenError::Decode,
{
    let padded = add_padding(encoded);
    match biscuit_from_base64(padded.as_str(), root) {
        Ok(b) => token_from_biscuit(b),
        Err(_) => Err(TokenError::Decode),
    }
}

/// Serializes a token as URL-safe base64 with its `=` padding removed,
/// ready to be carried in a URL query parameter.
pub fn encode_token_url_safe(token: &CapabilityToken) -> (r: Result<String, TokenError>)
    ensures
        r is Ok ==> forall|j: int| 0 <= j < r->Ok_0@.len() ==> r->Ok_0@[j] != '=',
        r is Err ==> r->Err_0 == TokenError::Rebuild,
{
    match biscuit_to_base64(&token.biscuit) {
        Ok(b64) => Ok(remove_padding(b64.as_str())),
        Err(_) => Err(TokenError::Rebuild),
    }
}

/// Serializes a token as padded base64, the session-cookie form.
pub fn encode_token(token: &CapabilityToken) -> (r: Result<String, TokenError>)
    ensures
        r is Err ==> r->Err_0 == TokenError::Rebuild,
{
    match biscuit_to_base64(&token.biscuit) {
        Ok(b64) => Ok(b64),
        Err(_) => Err(TokenError::Rebuild),
    }
}

/// Combines two validated tokens into one trusted token. The merge
/// never reuses a client-supplied signature chain: the result is
/// rebuilt from the two authority-block sources, concatenated, and
/// re-signed under the root key. Its granted profiles are exactly the
/// union of the two inputs' grants. A rebuild the outside crate refuses
/// is a recoverable failure: the caller simply does not gain the
/// additional profiles.
pub fn merge_tokens(a: &CapabilityToken, b: &CapabilityToken, root: &RootKey) -> (r: Option<
    CapabilityToken,
>)
    ensures
        match r {
            Some(m) => {
                &&& m.wf()
                &&& m.block0_source@ == a.block0_source@ + seq!['\n'] + b.block0_source@
                &&& m.facts.expiries@ == expiries_of_source(a.block0_source@)
                    + expiries_of_source(b.block0_source@)
                &&& m.facts.opaque_checks == (has_unreadable_check(a.block0_source@)
                    || has_unreadable_check(b.block0_source@))
                &&& (a.wf() && b.wf()) ==> views_of_strings(m.facts.profiles@)
                    == views_of_strings(a.facts.profiles@) + views_of_strings(b.facts.profiles@)
                &&& (a.wf() && b.wf()) ==> forall|p: Seq<char>|
                    spec_grants(m.facts.profiles@, p) <==> (spec_grants(a.facts.profiles@, p)
                        || spec_grants(b.facts.profiles@, p))
            },
            None => true,
        },
{
    let mut source = a.block0_source.clone();
    proof {
        reveal_strlit("\n");
    }
    source.append("\n");
    source.append(b.block0_source.as_str());
    proof {
        assert("\n"@ =~= seq!['\n']);
        lemma_profiles_of_source_concat(a.block0_source@, b.block0_source@);
        assert(source@ == a.block0_source@ + seq!['\n'] + b.block0_source@);
    }
    let mut builder = biscuit_builder();
    match builder_add_code(&mut builder, source.as_str()) {
        Ok(u) => u,
        Err(_) => {
            return None;
        },
    }
    let built = match builder_build(builder, &root.pair) {
        Ok(x) => x,
        Err(_) => {
            return None;
        },
    };
    let parsed = parse_block_source(source.as_str());
    let revocation_ids = biscuit_revocation_identifiers(&built);
    let m = CapabilityToken {
        biscuit: built,
        facts: TokenFacts {
            profiles: parsed.profiles,
            expiries: parsed.expiries,
            opaque_checks: parsed.unreadable,
        },
        block0_source: source,
        revocation_ids,
    };
    proof {
        if a.wf() && b.wf() {
        let mv = m.facts.profiles@;
        let av = a.facts.profiles@;
        let bv = b.facts.profiles@;
        assert(views_of_strings(mv) =~= views_of_strings(av) + views_of_strings(bv));
        assert forall|p: Seq<char>|
            contains_view(mv, p) <==> (contains_view(av, p) || contains_view(bv, p)) by {
            if contains_view(mv, p) {
                let i = choose|i: int| 0 <= i < mv.len() && mv[i]@ == p;
                assert(views_of_strings(mv)[i] == p);
                if i < av.len() {
                    assert(av[i]@ == p);
                } else {
                    assert(bv[i - av.len()]@ == p);
                }
            }
            if contains_view(av, p) {
                let i = choose|i: int| 0 <= i < av.len() && av[i]@ == p;
                assert(views_of_strings(mv)[i] == p);
                assert(mv[i]@ == p);
            }
            if contains_view(bv, p) {
                let i = choose|i: int| 0 <= i < bv.len() && bv[i]@ == p;
                assert(views_of_strings(mv)[av.len() + i] == p);
                assert(mv[av.len() + i]@ == p);
            }
        }
        }
    }
    Some(m)
}

/// Bakes a brand-new session token from a refresh credential's
/// authority-block source, re-signed under the root key: the refresh
/// token's own signature is never reused, and its expiry block is left
/// behind — the session carries exactly the credential's authority
/// block, so with a well-formed credential it grants the same profiles.
pub fn bake_session_token(refresh: &CapabilityToken, root: &RootKey) -> (r: Result<
    CapabilityToken,
    TokenError,
>)
    ensures
        r is Ok ==> {
            &&& r->Ok_0.wf()
            &&& r->Ok_0.block0_source@ == refresh.block0_source@
            &&& r->Ok_0.facts.expiries@ == expiries_of_source(refresh.block0_source@)
            &&& r->Ok_0.facts.opaque_checks == has_unreadable_check(refresh.block0_source@)
        },
{
    let mut builder = biscuit_builder();
    match builder_add_code(&mut builder, refresh.block0_source.as_str()) {
        Ok(u) => u,
        Err(_) => {
            return Err(TokenError::Rebuild);
        },
    }
    let built = match builder_build(builder, &root.pair) {
        Ok(x) => x,
        Err(_) => {
            return Err(TokenError::Rebuild);
        },
    };
    let parsed = parse_block_source(refresh.block0_source.as_str());
    let revocation_ids = biscuit_revocation_identifiers(&built);
    Ok(
        CapabilityToken {
            biscuit: built,
            facts: TokenFacts {
                profiles: parsed.profiles,
                expiries: parsed.expiries,
                opaque_checks: parsed.unreadable,
            },
            block0_source: refresh.block0_source.clone(),
            revocation_ids,
        },
    )
}

/// A short-lived, narrowly scoped credential that can mint a session:
/// an authority block of profile grants, attenuated with one expiry
/// check.
pub struct RefreshToken {
    pub token: CapabilityToken,
}

impl RefreshToken {
    /// Mints a refresh token granting `profiles`, expiring
    /// `duration_secs` after `now`. An expiry that does not fit the
    /// clock's range is refused, and failures of the outside builder
    /// (malformed profile names, out-of-range dates) are recoverable.
    pub fn new(duration_secs: i64, profiles: &Vec<String>, now: i64, root: &RootKey) -> (r: Result<
        RefreshToken,
        TokenError,
    >)
        ensures
            r is Ok ==> r->Ok_0.token.wf(),
            !(i64::MIN <= now + duration_secs <= i64::MAX) ==> r is Err,
    {
        let expiry = match now.checked_add(duration_secs) {
            Some(t) => t,
            None => {
                return Err(TokenError::Rebuild);
            },
        };
        let expiry_text = match crate::source::format_rfc3339(expiry) {
            Some(t) => t,
            None => {
                return Err(TokenError::Rebuild);
            },
        };
        let code = profile_facts_source(profiles);
        let mut builder = biscuit_builder();
        match builder_add_code(&mut builder, code.as_str()) {
            Ok(u) => u,
            Err(_) => {
                return Err(TokenError::Rebuild);
            },
        }
        let built = match builder_build(builder, &root.pair) {
            Ok(x) => x,
            Err(_) => {
                return Err(TokenError::Rebuild);
            },
        };
        let mut check = String::new();
        check.append("check if time($time), $time <= ");
        check.append(expiry_text.as_str());
        check.append(";");
        let mut block = block_builder();
        match block_add_code(&mut block, check.as_str()) {
            Ok(u) => u,
            Err(_) => {
                return Err(TokenError::Rebuild);
            },
        }
        let attenuated = match biscuit_append(&built, block) {
            Ok(x) => x,
            Err(_) => {
                return Err(TokenError::Rebuild);
            },
        };
        match token_from_biscuit(attenuated) {
            Ok(token) => Ok(RefreshToken { token }),
            Err(_) => Err(TokenError::Rebuild),
        }
    }

    /// The URL-ready text of this credential: base64 with padding
    /// removed, for easier query-parameter carriage.
    pub fn as_base64(&self) -> (r: Result<String, TokenError>)
        ensures
            r is Ok ==> forall|j: int| 0 <= j < r->Ok_0@.len() ==> r->Ok_0@[j] != '=',
    {
        encode_token_url_safe(&self.token)
    }
}

} // verus!
