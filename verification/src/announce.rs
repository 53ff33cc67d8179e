//! Justified block announcements between collators.
//!
//! A collator announces a parachain block together with the statement of a
//! relay-chain validator that the block is a valid candidate. A node that
//! receives an announcement accepts it when it carries no justification, or
//! when the justification is a candidate statement, signed by a validator,
//! whose head data is the announced header.
//!
//! The node decodes the gossip message, fetches the signing context and
//! checks the signature; the decisions, in the order they are taken, are here.
use vstd::prelude::*;

verus! {

/// A relay-chain validator's statement, as far as announcements read it.
pub enum Statement {
    /// The candidate is valid; its head data.
    Candidate(Vec<u8>),
    Valid,
    Invalid,
}

/// A decoded gossip message, as far as announcements read it.
pub enum GossipMessage {
    /// A signed statement by the validator at `sender` in the validator set.
    Statement { statement: Statement, sender: u32 },
    /// Any other gossip message.
    Other,
}

/// Why an announcement is refused.
#[derive(Clone, Copy, Debug, PartialEq, Eq, Structural)]
pub enum AnnounceError {
    /// The justification is not a gossip message.
    CannotDecode,
    /// The gossip message is not a statement.
    NotAStatement,
    /// The signing context could not be fetched.
    SigningContext,
    /// The statement's sender is not in the validator set.
    SignerOutOfBounds,
    /// The statement's signature is invalid.
    InvalidSignature,
    /// The statement is not a candidate statement.
    NotACandidate,
    /// The candidate's head data is not the announced header.
    HeaderMismatch,
}

impl AnnounceError {
    /// The error in words.
    pub fn message(&self) -> (s: &'static str)
        ensures
            s@ == match *self {
                AnnounceError::CannotDecode =>
                    "cannot decode block announced justification, must be a gossip message"@,
                AnnounceError::NotAStatement =>
                    "block announced justification statement must be a gossip statement"@,
                AnnounceError::SigningContext => "the signing context could not be fetched"@,
                AnnounceError::SignerOutOfBounds =>
                    "block accounced justification signer is a validator index out of bound"@,
                AnnounceError::InvalidSignature => "block announced justification signature is invalid"@,
                AnnounceError::NotACandidate =>
                    "block announced justification statement must be a candidate statement"@,
                AnnounceError::HeaderMismatch => "block announced header does not match the one justified"@,
            },
    {
        match *self {
            AnnounceError::CannotDecode => "cannot decode block announced justification, must be a gossip message",
            AnnounceError::NotAStatement => "block announced justification statement must be a gossip statement",
            AnnounceError::SigningContext => "the signing context could not be fetched",
            AnnounceError::SignerOutOfBounds =>
                "block accounced justification signer is a validator index out of bound",
            AnnounceError::InvalidSignature => "block announced justification signature is invalid",
            AnnounceError::NotACandidate => "block announced justification statement must be a candidate statement",
            AnnounceError::HeaderMismatch => "block announced header does not match the one justified",
        }
    }
}

/// The first checks on the justification bytes: none at all is accepted at
/// once (`Ok(None)`); otherwise they must decode (`decoded`) into a gossip
/// statement, whose statement and sender are returned.
pub fn justification_statement(data_len: usize, decoded: Option<GossipMessage>) -> (r: Result<
    Option<(Statement, u32)>,
    AnnounceError,
>)
    ensures
        data_len == 0 ==> r matches Ok(None),
        data_len > 0 ==> match decoded {
            None => r == Err::<Option<(Statement, u32)>, AnnounceError>(AnnounceError::CannotDecode),
            Some(GossipMessage::Other) => r == Err::<Option<(Statement, u32)>, AnnounceError>(
                AnnounceError::NotAStatement,
            ),
            Some(GossipMessage::Statement { statement, sender }) => r == Ok::<
                Option<(Statement, u32)>,
                AnnounceError,
            >(Some((statement, sender))),
        },
{
    if data_len == 0 {
        return Ok(None);
    }
    match decoded {
        None => Err(AnnounceError::CannotDecode),
        Some(GossipMessage::Other) => Err(AnnounceError::NotAStatement),
        Some(GossipMessage::Statement { statement, sender }) => Ok(Some((statement, sender))),
    }
}

/// The position of the signer in the validator set, once the signing context
/// was fetched (`context_ok`): the sender must be in the set.
pub fn signer_index(context_ok: bool, validator_count: usize, sender: u32) -> (r: Result<usize, AnnounceError>)
    ensures
        !context_ok ==> r == Err::<usize, AnnounceError>(AnnounceError::SigningContext),
        context_ok && sender < validator_count ==> r == Ok::<usize, AnnounceError>(sender as usize),
        context_ok && sender >= validator_count ==> r == Err::<usize, AnnounceError>(
            AnnounceError::SignerOutOfBounds,
        ),
{
    if !context_ok {
        return Err(AnnounceError::SigningContext);
    }
    if (sender as u64) < (validator_count as u64) {
        Ok(sender as usize)
    } else {
        Err(AnnounceError::SignerOutOfBounds)
    }
}

/// A relay-chain validator's public key.
pub type ValidatorId = [u8; 32];

/// Checks announcements against the relay chain's validator set.
pub struct JustifiedBlockAnnounceValidator {
    pub authorities: Vec<ValidatorId>,
}

impl JustifiedBlockAnnounceValidator {
    pub fn new(authorities: Vec<ValidatorId>) -> (v: Self)
        ensures
            v.authorities == authorities,
    {
        JustifiedBlockAnnounceValidator { authorities }
    }

    /// The key that must have signed the statement of `sender`, once the
    /// signing context was fetched (`context_ok`).
    pub fn signer(&self, context_ok: bool, sender: u32) -> (r: Result<ValidatorId, AnnounceError>)
        ensures
            !context_ok ==> r == Err::<ValidatorId, AnnounceError>(AnnounceError::SigningContext),
            context_ok && sender < self.authorities.len() ==> r == Ok::<ValidatorId, AnnounceError>(
                self.authorities@[sender as int],
            ),
            context_ok && sender >= self.authorities.len() ==> r == Err::<ValidatorId, AnnounceError>(
                AnnounceError::SignerOutOfBounds,
            ),
    {
        match signer_index(context_ok, self.authorities.len(), sender) {
            Ok(i) => Ok(self.authorities[i]),
            Err(e) => Err(e),
        }
    }
}

/// The last checks: a valid signature, on a candidate statement whose head
/// data is the announced header's encoding.
pub fn check_candidate(signature_valid: bool, statement: &Statement, header: &Vec<u8>) -> (r: Result<(), AnnounceError>)
    ensures
        !signature_valid ==> r == Err::<(), AnnounceError>(AnnounceError::InvalidSignature),
        signature_valid ==> match statement {
            Statement::Candidate(head) => if head@ == header@ {
                r is Ok
            } else {
                r == Err::<(), AnnounceError>(AnnounceError::HeaderMismatch)
            },
            _ => r == Err::<(), AnnounceError>(AnnounceError::NotACandidate),
        },
{
    if !signature_valid {
        return Err(AnnounceError::InvalidSignature);
    }
    match statement {
        Statement::Candidate(head) => {
            if bytes_equal(head, header) {
                Ok(())
            } else {
                Err(AnnounceError::HeaderMismatch)
            }
        },
        _ => Err(AnnounceError::NotACandidate),
    }
}

/// Whether two byte strings are equal.
pub fn bytes_equal(a: &Vec<u8>, b: &Vec<u8>) -> (r: bool)
    ensures
        r == (a@ == b@),
{
    if a.len() != b.len() {
        return false;
    }
    let mut i: usize = 0;
    while i < a.len()
        invariant
            a.len() == b.len(),
            i <= a.len(),
            forall|k: int| 0 <= k < i ==> a@[k] == b@[k],
        decreases a.len() - i,
    {
        if a[i] != b[i] {
            return false;
        }
        i = i + 1;
    }
    assert(a@ =~= b@);
    true
}

/// Whether the collator announces its block with a statement that arrived
/// for its relay-chain leaf: only a candidate statement for its own head data.
pub fn announces_with(statement: &Statement, head_data: &Vec<u8>) -> (announce: bool)
    requires
        !(statement is Invalid),
    ensures
        announce == (statement matches Statement::Candidate(head) && head@ == head_data@),
{
    match statement {
        Statement::Candidate(head) => bytes_equal(head, head_data),
        _ => false,
    }
}

} // verus!
