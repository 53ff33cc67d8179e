//! Parsing cross-chain locations into their chain part and the rest, and the
//! reserve chain of an asset.
use vstd::prelude::*;

verus! {

/// The most junctions a location holds.
pub const MAX_JUNCTIONS: usize = 8usize;

/// A single item in a path to describe the relative location of a consensus system.
#[derive(Debug, PartialEq, Eq)]
pub enum Junction {
    /// The consensus system of which the context is a member and state-wise super-set.
    Parent,
    /// An indexed parachain belonging to and operated by the context.
    Parachain(u32),
    /// An instanced, indexed pallet that forms a constituent part of the context.
    PalletInstance(u8),
    /// A non-descript index within the context location.
    GeneralIndex(u128),
    /// A nondescript datum acting as a key within the context location.
    GeneralKey(Vec<u8>),
    /// The unambiguous child.
    OnlyChild,
}

/// A junction as a mathematical value.
pub enum JunctionView {
    Parent,
    Parachain(u32),
    PalletInstance(u8),
    GeneralIndex(u128),
    GeneralKey(Seq<u8>),
    OnlyChild,
}

impl View for Junction {
    type V = JunctionView;

    open spec fn view(&self) -> JunctionView {
        match self {
            Junction::Parent => JunctionView::Parent,
            Junction::Parachain(id) => JunctionView::Parachain(*id),
            Junction::PalletInstance(i) => JunctionView::PalletInstance(*i),
            Junction::GeneralIndex(i) => JunctionView::GeneralIndex(*i),
            Junction::GeneralKey(k) => JunctionView::GeneralKey(k@),
            Junction::OnlyChild => JunctionView::OnlyChild,
        }
    }
}

/// A relative path between consensus systems: a sequence of at most
/// `MAX_JUNCTIONS` junctions (none for the context itself).
#[derive(Debug, PartialEq, Eq)]
pub struct MultiLocation {
    pub junctions: Vec<Junction>,
}

impl View for MultiLocation {
    type V = Seq<JunctionView>;

    open spec fn view(&self) -> Seq<JunctionView> {
        self.junctions@.map_values(|j: Junction| j@)
    }
}

impl MultiLocation {
    pub open spec fn wf(&self) -> bool {
        self.junctions.len() <= MAX_JUNCTIONS
    }
}

/// Whether a junction leads to another chain: the parent or a parachain.
pub open spec fn spec_is_chain_junction(j: JunctionView) -> bool {
    j is Parent || j is Parachain
}

/// The chain part of a location: the parent and a sibling parachain, the
/// parent, or a child parachain, as the location begins; `None` otherwise.
pub open spec fn spec_chain_part(l: Seq<JunctionView>) -> Option<Seq<JunctionView>> {
    if l.len() >= 2 && l[0] is Parent && l[1] is Parachain {
        Some(seq![JunctionView::Parent, l[1]])
    } else if l.len() >= 1 && l[0] is Parent {
        Some(seq![JunctionView::Parent])
    } else if l.len() >= 1 && l[0] is Parachain {
        Some(seq![l[0]])
    } else {
        None
    }
}

/// The number of chain junctions a location begins with.
pub open spec fn leading_chain_junctions(l: Seq<JunctionView>) -> nat
    decreases l.len(),
{
    if l.len() > 0 && spec_is_chain_junction(l[0]) {
        1 + leading_chain_junctions(l.drop_first())
    } else {
        0
    }
}

/// What follows the leading chain junctions, if anything does.
pub open spec fn spec_non_chain_part(l: Seq<JunctionView>) -> Option<Seq<JunctionView>> {
    let rest = l.skip(leading_chain_junctions(l) as int);
    if rest.len() > 0 {
        Some(rest)
    } else {
        None
    }
}

pub proof fn lemma_leading_chain_junctions_bound(l: Seq<JunctionView>)
    ensures
        leading_chain_junctions(l) <= l.len(),
    decreases l.len(),
{
    if l.len() > 0 && spec_is_chain_junction(l[0]) {
        lemma_leading_chain_junctions_bound(l.drop_first());
    }
}

/// A location splits into its leading chain junctions and what follows: the
/// junctions before the non-chain part all lead to other chains, the first
/// junction of the non-chain part does not, and the two parts make up the
/// location again.
pub proof fn law_location_splits_at_the_chain_part(l: Seq<JunctionView>)
    ensures
        ({
            let n = leading_chain_junctions(l) as int;
            &&& 0 <= n <= l.len()
            &&& forall|i: int| 0 <= i < n ==> spec_is_chain_junction(#[trigger] l[i])
            &&& n < l.len() ==> !spec_is_chain_junction(l[n])
            &&& spec_non_chain_part(l) matches Some(rest) ==> l == l.take(n) + rest && rest.len() > 0
            &&& spec_non_chain_part(l) is None ==> n == l.len()
        }),
        spec_chain_part(l) matches Some(c) ==> c.len() <= 2 && c.len() <= l.len() && forall|i: int|
            0 <= i < c.len() ==> spec_is_chain_junction(#[trigger] c[i]) && c[i] == l[i],
    decreases l.len(),
{
    lemma_leading_chain_junctions_bound(l);
    if l.len() > 0 && spec_is_chain_junction(l[0]) {
        law_location_splits_at_the_chain_part(l.drop_first());
        let n = leading_chain_junctions(l) as int;
        assert forall|i: int| 0 <= i < n implies spec_is_chain_junction(#[trigger] l[i]) by {
            if i > 0 {
                assert(l[i] == l.drop_first()[i - 1]);
            }
        }
        if n < l.len() {
            assert(l[n] == l.drop_first()[n - 1]);
        }
    }
    let n = leading_chain_junctions(l) as int;
    if spec_non_chain_part(l) is Some {
        assert(l =~= l.take(n) + l.skip(n));
    }
    if let Some(c) = spec_chain_part(l) {
        if l.len() >= 2 && l[0] is Parent && l[1] is Parachain {
            assert(c[0] == l[0]);
        }
    }
}

/// A copy of a junction.
pub fn copy_junction(j: &Junction) -> (r: Junction)
    ensures
        r@ == j@,
{
    match j {
        Junction::Parent => Junction::Parent,
        Junction::Parachain(id) => Junction::Parachain(*id),
        Junction::PalletInstance(i) => Junction::PalletInstance(*i),
        Junction::GeneralIndex(i) => Junction::GeneralIndex(*i),
        Junction::GeneralKey(k) => {
            let mut c: Vec<u8> = Vec::new();
            let mut i: usize = 0;
            while i < k.len()
                invariant
                    i <= k.len(),
                    c@ == k@.take(i as int),
                decreases k.len() - i,
            {
                c.push(k[i]);
                i = i + 1;
                proof {
                    assert(c@ =~= k@.take(i as int));
                }
            }
            proof {
                assert(k@.take(k.len() as int) =~= k@);
            }
            Junction::GeneralKey(c)
        },
        Junction::OnlyChild => Junction::OnlyChild,
    }
}

fn is_chain_junction(j: &Junction) -> (r: bool)
    ensures
        r == spec_is_chain_junction(j@),
{
    match j {
        Junction::Parent => true,
        Junction::Parachain(_) => true,
        _ => false,
    }
}

impl MultiLocation {
    /// Returns the "chain" location part. It could be parent, sibling
    /// parachain, or child parachain.
    pub fn chain_part(&self) -> (r: Option<MultiLocation>)
        ensures
            match r {
                Some(l) => spec_chain_part(self@) == Some(l@) && l.wf(),
                None => spec_chain_part(self@) is None,
            },
    {
        let n = self.junctions.len();
        if n >= 1 {
            match &self.junctions[0] {
                Junction::Parent => {
                    if n >= 2 {
                        if let Junction::Parachain(id) = &self.junctions[1] {
                            let l = MultiLocation {
                                junctions: vec![Junction::Parent, Junction::Parachain(*id)],
                            };
                            proof {
                                assert(l@ =~= seq![JunctionView::Parent, self@[1]]);
                            }
                            return Some(l);
                        }
                    }
                    let l = MultiLocation { junctions: vec![Junction::Parent] };
                    proof {
                        assert(l@ =~= seq![JunctionView::Parent]);
                    }
                    Some(l)
                },
                Junction::Parachain(id) => {
                    let l = MultiLocation { junctions: vec![Junction::Parachain(*id)] };
                    proof {
                        assert(l@ =~= seq![self@[0]]);
                    }
                    Some(l)
                },
                _ => None,
            }
        } else {
            None
        }
    }

    /// Returns "non-chain" location part.
    pub fn non_chain_part(&self) -> (r: Option<MultiLocation>)
        requires
            self.wf(),
        ensures
            match r {
                Some(l) => spec_non_chain_part(self@) == Some(l@) && l.wf(),
                None => spec_non_chain_part(self@) is None,
            },
    {
        let n = self.junctions.len();
        let mut start: usize = 0;
        proof {
            assert(self@.skip(0) =~= self@);
        }
        while start < n && is_chain_junction(&self.junctions[start])
            invariant
                start <= n,
                n == self.junctions.len(),
                leading_chain_junctions(self@) == start + leading_chain_junctions(self@.skip(start as int)),
            decreases n - start,
        {
            proof {
                assert(self@.skip(start as int).drop_first() =~= self@.skip(start + 1));
            }
            start = start + 1;
        }
        proof {
            assert(leading_chain_junctions(self@.skip(start as int)) == 0);
        }
        if start == n {
            proof {
                assert(self@.skip(start as int).len() == 0);
            }
            return None;
        }
        let mut rest: Vec<Junction> = Vec::new();
        let mut i: usize = start;
        while i < n
            invariant
                start <= i <= n,
                n == self.junctions.len(),
                rest@.map_values(|j: Junction| j@) == self@.subrange(start as int, i as int),
            decreases n - i,
        {
            let j = copy_junction(&self.junctions[i]);
            let ghost before = rest@;
            rest.push(j);
            proof {
                assert(rest@.map_values(|j: Junction| j@) =~= before.map_values(|j: Junction| j@).push(
                    self@[i as int],
                ));
                assert(self@.subrange(start as int, i + 1) =~= self@.subrange(start as int, i as int).push(
                    self@[i as int],
                ));
            }
            i = i + 1;
        }
        let l = MultiLocation { junctions: rest };
        proof {
            assert(self@.skip(start as int) =~= self@.subrange(start as int, n as int));
        }
        Some(l)
    }
}

/// An asset, as far as its reserve is concerned.
#[allow(inconsistent_fields)]
#[derive(Debug, PartialEq, Eq)]
pub enum MultiAsset {
    /// A fungible asset identified by the location of its issuer.
    ConcreteFungible { id: MultiLocation, amount: u128 },
    /// A fungible asset identified by an abstract name.
    AbstractFungible { id: Vec<u8>, amount: u128 },
    /// Any other kind of asset.
    Other,
}

impl MultiAsset {
    /// Returns assets reserve location: the chain part of a concrete fungible
    /// asset's location.
    pub fn reserve(&self) -> (r: Option<MultiLocation>)
        ensures
            match self {
                MultiAsset::ConcreteFungible { id, .. } => match r {
                    Some(l) => spec_chain_part(id@) == Some(l@),
                    None => spec_chain_part(id@) is None,
                },
                _ => r is None,
            },
    {
        match self {
            MultiAsset::ConcreteFungible { id, .. } => id.chain_part(),
            _ => None,
        }
    }
}

} // verus!
