use integritee_parachain::orml::location::{Junction, MultiAsset, MultiLocation};

const PARACHAIN: u32 = 1;

fn general_index() -> Junction {
    Junction::GeneralIndex(1)
}

fn loc(junctions: Vec<Junction>) -> MultiLocation {
    MultiLocation { junctions }
}

fn concrete_fungible(id: MultiLocation) -> MultiAsset {
    MultiAsset::ConcreteFungible { id, amount: 1 }
}

#[test]
fn parent_as_reserve_chain() {
    assert_eq!(
        concrete_fungible(loc(vec![Junction::Parent, general_index()])).reserve(),
        Some(loc(vec![Junction::Parent]))
    );
}

#[test]
fn sibling_parachain_as_reserve_chain() {
    assert_eq!(
        concrete_fungible(loc(vec![Junction::Parent, Junction::Parachain(PARACHAIN), general_index()])).reserve(),
        Some(loc(vec![Junction::Parent, Junction::Parachain(PARACHAIN)]))
    );
}

#[test]
fn child_parachain_as_reserve_chain() {
    assert_eq!(
        concrete_fungible(loc(vec![Junction::Parachain(PARACHAIN), general_index()])).reserve(),
        Some(loc(vec![Junction::Parachain(PARACHAIN)]))
    );
}

#[test]
fn no_reserve_chain() {
    assert_eq!(concrete_fungible(loc(vec![Junction::GeneralKey(b"DOT".to_vec())])).reserve(), None);
}

#[test]
fn non_chain_part_works() {
    assert_eq!(loc(vec![Junction::Parent]).non_chain_part(), None);
    assert_eq!(loc(vec![Junction::Parent, Junction::Parachain(PARACHAIN)]).non_chain_part(), None);
    assert_eq!(loc(vec![Junction::Parachain(PARACHAIN)]).non_chain_part(), None);

    assert_eq!(
        loc(vec![Junction::Parent, general_index()]).non_chain_part(),
        Some(loc(vec![general_index()]))
    );
    assert_eq!(
        loc(vec![Junction::Parent, general_index(), general_index()]).non_chain_part(),
        Some(loc(vec![general_index(), general_index()]))
    );
    assert_eq!(
        loc(vec![Junction::Parent, Junction::Parachain(PARACHAIN), general_index()]).non_chain_part(),
        Some(loc(vec![general_index()]))
    );
    assert_eq!(
        loc(vec![Junction::Parachain(PARACHAIN), general_index()]).non_chain_part(),
        Some(loc(vec![general_index()]))
    );
}

#[test]
fn other_assets_and_locations_have_no_chain_part() {
    assert_eq!(MultiAsset::Other.reserve(), None);
    assert_eq!(MultiAsset::AbstractFungible { id: b"DOT".to_vec(), amount: 3 }.reserve(), None);
    assert_eq!(loc(vec![]).chain_part(), None);
    assert_eq!(loc(vec![]).non_chain_part(), None);
    assert_eq!(loc(vec![Junction::OnlyChild, Junction::Parent]).chain_part(), None);
    assert_eq!(
        loc(vec![Junction::Parent, Junction::Parent, Junction::PalletInstance(3)]).non_chain_part(),
        Some(loc(vec![Junction::PalletInstance(3)]))
    );
    assert_eq!(
        loc(vec![Junction::Parachain(4), Junction::Parachain(5)]).chain_part(),
        Some(loc(vec![Junction::Parachain(4)]))
    );
}
