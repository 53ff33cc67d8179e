//! The collation proposer: a thin wrapper around the node's block proposer.
use std::marker::PhantomData;
use vstd::prelude::*;

verus! {

/// A simple wrapper around a block proposer for creating collations.
pub struct Proposer<B, T> {
    pub inner: T,
    pub marker: PhantomData<B>,
}

impl<B, T> Proposer<B, T> {
    /// Create a new [`Proposer`].
    pub fn new(inner: T) -> (r: Self)
        ensures
            r.inner == inner,
    {
        Proposer { inner, marker: PhantomData }
    }
}

/// Why proposing a collation failed.
#[derive(Debug, PartialEq, Eq)]
pub enum ProposerError {
    /// The block proposer could not be created, with its message.
    ProposerCreation(String),
    /// Proposing failed, with its message.
    Proposing(String),
}

/// The outcome of the proposal steps the node ran: creating the block
/// proposer, putting the parachain inherent into the inherent data, and
/// proposing; each is `Err` with its message when it failed. A step fails the
/// proposal at the first failure, later steps not being run.
pub fn proposal_outcome<P>(
    creation: Result<(), String>,
    inherent_put: Result<(), String>,
    proposal: Result<P, String>,
) -> (r: Result<P, ProposerError>)
    ensures
        match creation {
            Err(m) => r == Err::<P, ProposerError>(ProposerError::ProposerCreation(m)),
            Ok(_) => match inherent_put {
                Err(m) => r == Err::<P, ProposerError>(ProposerError::Proposing(m)),
                Ok(_) => match proposal {
                    Err(m) => r == Err::<P, ProposerError>(ProposerError::Proposing(m)),
                    Ok(p) => r == Ok::<P, ProposerError>(p),
                },
            },
        },
{
    match creation {
        Err(m) => Err(ProposerError::ProposerCreation(m)),
        Ok(_) => match inherent_put {
            Err(m) => Err(ProposerError::Proposing(m)),
            Ok(_) => match proposal {
                Err(m) => Err(ProposerError::Proposing(m)),
                Ok(p) => Ok(p),
            },
        },
    }
}

} // verus!
