//! Nimbus authoring: which local key authors a block, how the author's seal
//! is appended to a block's digest, and how an importing node takes it off
//! again to check it.
//!
//! The runtime records the author in a consensus digest tagged with the
//! Nimbus engine id; the author signs the header and appends the signature in
//! a seal digest with the same tag, as the last digest item. The node computes
//! hashes, keys and signatures; the digest logic is here.
use vstd::prelude::*;

verus! {

/// A consensus engine's four-byte tag.
pub type EngineId = [u8; 4];

/// The Nimbus engine id, `b"nmbs"`.
pub open spec fn nimbus_engine_id() -> Seq<u8> {
    seq![110u8, 109u8, 98u8, 115u8]
}

/// The Nimbus engine id, `b"nmbs"`.
pub fn nimbus_id() -> (id: EngineId)
    ensures
        id@ == nimbus_engine_id(),
{
    let id: EngineId = [110, 109, 98, 115];
    assert(id@ =~= nimbus_engine_id());
    id
}

/// Whether a tag is the Nimbus engine id.
pub fn is_nimbus(id: &EngineId) -> (r: bool)
    ensures
        r == (id@ == nimbus_engine_id()),
{
    let r = id[0] == 110 && id[1] == 109 && id[2] == 98 && id[3] == 115;
    proof {
        if r {
            assert(id@ =~= nimbus_engine_id());
        }
    }
    r
}

/// An item of a block header's digest.
pub enum DigestItem {
    PreRuntime(EngineId, Vec<u8>),
    Consensus(EngineId, Vec<u8>),
    Seal(EngineId, Vec<u8>),
    Other(Vec<u8>),
    RuntimeEnvironmentUpdated,
}

/// A digest item as values.
pub enum DigestItemView {
    PreRuntime(Seq<u8>, Seq<u8>),
    Consensus(Seq<u8>, Seq<u8>),
    Seal(Seq<u8>, Seq<u8>),
    Other(Seq<u8>),
    RuntimeEnvironmentUpdated,
}

impl View for DigestItem {
    type V = DigestItemView;

    open spec fn view(&self) -> DigestItemView {
        match self {
            DigestItem::PreRuntime(id, d) => DigestItemView::PreRuntime(id@, d@),
            DigestItem::Consensus(id, d) => DigestItemView::Consensus(id@, d@),
            DigestItem::Seal(id, d) => DigestItemView::Seal(id@, d@),
            DigestItem::Other(d) => DigestItemView::Other(d@),
            DigestItem::RuntimeEnvironmentUpdated => DigestItemView::RuntimeEnvironmentUpdated,
        }
    }
}

/// The digest logs as values.
pub open spec fn logs_view(logs: Seq<DigestItem>) -> Seq<DigestItemView> {
    logs.map_values(|d: DigestItem| d@)
}

/// The author recorded by the first Nimbus consensus digest, if any.
pub open spec fn first_nimbus_author(logs: Seq<DigestItemView>) -> Option<Seq<u8>>
    decreases logs.len(),
{
    if logs.len() == 0 {
        None
    } else {
        match logs[0] {
            DigestItemView::Consensus(id, author) => if id == nimbus_engine_id() {
                Some(author)
            } else {
                first_nimbus_author(logs.drop_first())
            },
            _ => first_nimbus_author(logs.drop_first()),
        }
    }
}

/// Whether the last digest item is a Nimbus seal.
pub open spec fn ends_with_nimbus_seal(logs: Seq<DigestItemView>) -> bool {
    &&& logs.len() > 0
    &&& logs.last() matches DigestItemView::Seal(id, _) && id == nimbus_engine_id()
}

/// The logs with the author's seal appended.
pub open spec fn sealed(logs: Seq<DigestItemView>, signature: Seq<u8>) -> Seq<DigestItemView> {
    logs.push(DigestItemView::Seal(nimbus_engine_id(), signature))
}

/// Why a block is refused.
#[derive(Clone, Copy, Debug, PartialEq, Eq, Structural)]
pub enum VerifyError {
    /// The last digest item is not a Nimbus seal.
    HeaderUnsealed,
    /// The seal's signature does not verify against the claimed author.
    InvalidSignature,
}

impl VerifyError {
    /// The error in words.
    pub fn message(&self) -> (s: &'static str)
        ensures
            s@ == match *self {
                VerifyError::HeaderUnsealed => "HeaderUnsealed"@,
                VerifyError::InvalidSignature => "Block signature invalid"@,
            },
    {
        match *self {
            VerifyError::HeaderUnsealed => "HeaderUnsealed",
            VerifyError::InvalidSignature => "Block signature invalid",
        }
    }
}

/// A seal taken off a header: the logs before it, the signature, and the
/// author that the runtime recorded.
pub struct NimbusSeal {
    pub pre_seal_logs: Vec<DigestItem>,
    pub signature: Vec<u8>,
    pub claimed_author: Vec<u8>,
}

/// The seal taken off logs, as values: the logs before it, the signature and
/// the claimed author; `None` when the logs do not end with a Nimbus seal.
pub open spec fn unsealed(logs: Seq<DigestItemView>) -> Option<(Seq<DigestItemView>, Seq<u8>, Seq<u8>)> {
    if ends_with_nimbus_seal(logs) {
        match logs.last() {
            DigestItemView::Seal(_, signature) => Some(
                (logs.drop_last(), signature, first_nimbus_author(logs.drop_last()).unwrap()),
            ),
            _ => None,
        }
    } else {
        None
    }
}

proof fn lemma_first_author_after(logs: Seq<DigestItemView>, i: int)
    requires
        0 <= i < logs.len(),
        !(logs[i] matches DigestItemView::Consensus(id, _) && id == nimbus_engine_id()),
    ensures
        first_nimbus_author(logs.skip(i)) == first_nimbus_author(logs.skip(i + 1)),
{
    assert(logs.skip(i).drop_first() =~= logs.skip(i + 1));
}

/// Appends the author's seal to the header's digest.
pub fn seal_logs(logs: &mut Vec<DigestItem>, signature: Vec<u8>)
    ensures
        logs_view(final(logs)@) == sealed(logs_view(old(logs)@), signature@),
{
    logs.push(DigestItem::Seal(nimbus_id(), signature));
    proof {
        assert(logs_view(logs@) =~= sealed(logs_view(old(logs)@), signature@));
    }
}

/// Takes the last digest item off the logs, which must be the Nimbus seal,
/// and finds the author that the runtime recorded.
pub fn split_nimbus_seal(logs: Vec<DigestItem>) -> (r: Result<NimbusSeal, VerifyError>)
    requires
        logs.len() > 0,
        ends_with_nimbus_seal(logs_view(logs@)) ==> first_nimbus_author(logs_view(logs@).drop_last()) is Some,
    ensures
        match r {
            Ok(s) => unsealed(logs_view(logs@)) == Some(
                (logs_view(s.pre_seal_logs@), s.signature@, s.claimed_author@),
            ),
            Err(e) => e == VerifyError::HeaderUnsealed && unsealed(logs_view(logs@)) is None,
        },
{
    let ghost all = logs_view(logs@);
    let mut logs = logs;
    let last = logs.pop().unwrap();
    proof {
        assert(logs_view(logs@) =~= all.drop_last());
    }
    let signature = match last {
        DigestItem::Seal(id, signature) => {
            if !is_nimbus(&id) {
                return Err(VerifyError::HeaderUnsealed);
            }
            signature
        },
        _ => return Err(VerifyError::HeaderUnsealed),
    };
    let ghost pre = logs_view(logs@);
    proof {
        assert(pre.skip(0) =~= pre);
    }
    let mut i: usize = 0;
    let mut author: Option<Vec<u8>> = None;
    while i < logs.len()
        invariant_except_break
            author is None,
        invariant
            i <= logs.len(),
            pre == logs_view(logs@),
            first_nimbus_author(pre) is Some,
            first_nimbus_author(pre) == first_nimbus_author(pre.skip(i as int)),
        ensures
            author matches Some(a) && first_nimbus_author(pre) == Some(a@),
        decreases logs.len() - i,
    {
        let found = match &logs[i] {
            DigestItem::Consensus(id, data) => if is_nimbus(id) {
                Some(data.clone())
            } else {
                None
            },
            _ => None,
        };
        match found {
            Some(a) => {
                proof {
                    assert(pre.skip(i as int)[0] == pre[i as int]);
                }
                author = Some(a);
                break;
            },
            None => {
                proof {
                    lemma_first_author_after(pre, i as int);
                }
            },
        }
        i = i + 1;
        proof {
            if i == logs.len() {
                assert(pre.skip(i as int).len() == 0);
            }
        }
    }
    match author {
        Some(claimed_author) => Ok(NimbusSeal { pre_seal_logs: logs, signature, claimed_author }),
        None => Err(VerifyError::HeaderUnsealed),
    }
}

/// Sealing logs that record a Nimbus author and taking the seal off again
/// gives back the logs, the signature and that author.
pub proof fn law_seal_then_split(logs: Seq<DigestItemView>, signature: Seq<u8>)
    requires
        first_nimbus_author(logs) is Some,
    ensures
        unsealed(sealed(logs, signature)) == Some((logs, signature, first_nimbus_author(logs).unwrap())),
{
    assert(sealed(logs, signature).drop_last() =~= logs);
}

/// The verdict on a seal whose signature was checked.
pub fn signature_verdict(valid_signature: bool) -> (r: Result<(), VerifyError>)
    ensures
        r == if valid_signature { Ok::<(), VerifyError>(()) } else { Err(VerifyError::InvalidSignature) },
{
    if valid_signature {
        Ok(())
    } else {
        Err(VerifyError::InvalidSignature)
    }
}

/// Which local key authors the block.
#[derive(Clone, Copy, Debug, PartialEq, Eq, Structural)]
pub enum AuthorChoice {
    /// The keystore holds no Nimbus key.
    NoKeys,
    /// No local key may author on this parent.
    NotEligible,
    /// The key at this position in the keystore's list.
    Key(usize),
}

/// The first eligible key, given whether each key may author, in the
/// keystore's order.
pub fn choose_author(eligible: &Vec<bool>) -> (c: AuthorChoice)
    ensures
        match c {
            AuthorChoice::NoKeys => eligible.len() == 0,
            AuthorChoice::NotEligible => eligible.len() > 0 && forall|j: int| 0 <= j < eligible.len() ==> !eligible[j],
            AuthorChoice::Key(i) => i < eligible.len() && eligible[i as int] && forall|j: int|
                0 <= j < i ==> !eligible[j],
        },
{
    if eligible.len() == 0 {
        return AuthorChoice::NoKeys;
    }
    let mut i: usize = 0;
    while i < eligible.len()
        invariant
            i <= eligible.len(),
            forall|j: int| 0 <= j < i ==> !eligible[j],
        decreases eligible.len() - i,
    {
        if eligible[i] {
            return AuthorChoice::Key(i);
        }
        i = i + 1;
    }
    AuthorChoice::NotEligible
}

/// What the author search does after asking whether one key may author.
#[derive(Clone, Copy, Debug, PartialEq, Eq, Structural)]
pub enum AuthorStep {
    /// Author with the key at this position.
    Author(usize),
    /// Ask about the key at this position next.
    Ask(usize),
    /// No key may author.
    NotEligible,
}

/// One step of the search for an author among `key_count` keys, in the
/// keystore's order, after asking whether the key at `index` may author:
/// the first key that may author is taken and no later key is asked.
pub fn author_step(key_count: usize, index: usize, can_author: bool) -> (s: AuthorStep)
    requires
        index < key_count,
    ensures
        can_author ==> s == AuthorStep::Author(index),
        !can_author && index + 1 < key_count ==> s == AuthorStep::Ask((index + 1) as usize),
        !can_author && index + 1 == key_count ==> s == AuthorStep::NotEligible,
{
    if can_author {
        AuthorStep::Author(index)
    } else if index + 1 < key_count {
        AuthorStep::Ask(index + 1)
    } else {
        AuthorStep::NotEligible
    }
}

} // verus!
