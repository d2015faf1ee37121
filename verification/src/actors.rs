//! The bundles of builtin actors.

use crate::identifiers::Cid;
use std::collections::BTreeMap;
use vstd::prelude::*;

verus! {

/// The version of the network's rules.
pub type NetworkVersion = u32;

/// The version of the network that brought the sixth version of the actors.
pub const V14: NetworkVersion = 14;

/// The version of the network that brought the seventh version of the actors.
pub const V15: NetworkVersion = 15;

/// The versions of the network for which there is a bundle of actors, in the order in which the
/// bundles are loaded.
pub fn bundle_versions() -> (versions: Vec<NetworkVersion>)
    ensures
        versions@ == seq![V14, V15],
        versions@ == seq![14u32, 15u32],
{
    let versions = vec![V14, V15];
    assert(versions@ =~= seq![V14, V15]);
    versions
}

/// The index of builtin actors for each version of the network.
pub open spec fn actors_view(actors: Map<NetworkVersion, Cid>) -> Map<NetworkVersion, Seq<u8>> {
    actors.map_values(|cid: Cid| cid@)
}

/// A block of data with its identifier.
#[derive(Debug)]
pub struct DataBlock {
    pub cid: Cid,
    pub data: Vec<u8>,
}

impl View for DataBlock {
    type V = (Seq<u8>, Seq<u8>);

    open spec fn view(&self) -> (Seq<u8>, Seq<u8>) {
        (self.cid@, self.data@)
    }
}

/// What a bundle of actors holds.
#[derive(Debug)]
pub struct Bundle {
    pub roots: Vec<Cid>,
    pub blocks: Vec<DataBlock>,
}

/// The contents of a `Bundle`.
#[verifier::ext_equal]
pub struct BundleView {
    pub roots: Seq<Seq<u8>>,
    pub blocks: Seq<(Seq<u8>, Seq<u8>)>,
}

impl View for Bundle {
    type V = BundleView;

    open spec fn view(&self) -> BundleView {
        BundleView {
            roots: self.roots@.map_values(|cid: Cid| cid@),
            blocks: self.blocks@.map_values(|block: DataBlock| block@),
        }
    }
}

/// The bundles that a list holds.
pub open spec fn bundles_view(bundles: Seq<Bundle>) -> Seq<BundleView> {
    bundles.map_values(|bundle: Bundle| bundle@)
}

/// The blocks that a list refers to.
pub open spec fn data_view(blocks: Seq<&DataBlock>) -> Seq<(Seq<u8>, Seq<u8>)> {
    blocks.map_values(|block: &DataBlock| block@)
}

/// There are two bundles, and each of them has one root.
pub open spec fn one_root_each(bundles: Seq<BundleView>) -> bool {
    bundles.len() == 2 && bundles[0].roots.len() == 1 && bundles[1].roots.len() == 1
}

/// The table of builtin actors that the bundles make.
pub open spec fn actors_table(bundles: Seq<BundleView>) -> Map<NetworkVersion, Seq<u8>> {
    map![V14 => bundles[0].roots[0], V15 => bundles[1].roots[0]]
}

/// The blocks of the bundles, in their order.
pub open spec fn bundle_blocks(bundles: Seq<BundleView>) -> Seq<(Seq<u8>, Seq<u8>)> {
    bundles[0].blocks + bundles[1].blocks
}

/// A blockstore in which the blocks were put, in their order. It maps identifiers to data.
pub open spec fn written(
    store: Map<Seq<u8>, Seq<u8>>,
    blocks: Seq<(Seq<u8>, Seq<u8>)>,
) -> Map<Seq<u8>, Seq<u8>>
    decreases blocks.len(),
{
    if blocks.len() == 0 {
        store
    } else {
        written(store, blocks.drop_last()).insert(blocks.last().0, blocks.last().1)
    }
}

/// Refers to the blocks of a bundle, behind those that are referred to before.
fn add_blocks<'a>(blocks: Vec<&'a DataBlock>, bundle: &'a Bundle) -> (all: Vec<&'a DataBlock>)
    ensures
        data_view(all@) == data_view(blocks@) + bundle@.blocks,
{
    let ghost before = data_view(blocks@);
    let mut all = blocks;
    let mut i: usize = 0;
    while i < bundle.blocks.len()
        invariant
            i <= bundle.blocks.len(),
            data_view(all@) =~= before + bundle@.blocks.take(i as int),
        decreases bundle.blocks.len() - i,
    {
        let ghost earlier = data_view(all@);
        all.push(&bundle.blocks[i]);
        assert(data_view(all@) =~= earlier.push(bundle@.blocks[i as int]));
        i = i + 1;
    }
    assert(bundle@.blocks.take(i as int) =~= bundle@.blocks);
    all
}

/// Makes the table of builtin actors, and collects the blocks that have to be put in the
/// blockstore. `bundles` holds the bundles in the order of `bundle_versions`. A bundle has one
/// root: the index of its actors.
pub fn import_actors<'a>(bundles: &'a Vec<Bundle>) -> (imported: (
    BTreeMap<NetworkVersion, Cid>,
    Vec<&'a DataBlock>,
))
    requires
        one_root_each(bundles_view(bundles@)),
    ensures
        actors_view(imported.0@) == actors_table(bundles_view(bundles@)),
        data_view(imported.1@) == bundle_blocks(bundles_view(bundles@)),
        imported.0@.dom() == set![14u32, 15u32],
        imported.0@[14]@ == bundles@[0].roots@[0]@,
        imported.0@[15]@ == bundles@[1].roots@[0]@,
        imported.1@.len() == bundles@[0].blocks@.len() + bundles@[1].blocks@.len(),
        forall|i: int|
            0 <= i < bundles@[0].blocks@.len() ==> imported.1@[i]@ == (
            #[trigger] bundles@[0].blocks@[i])@,
        forall|i: int|
            0 <= i < bundles@[1].blocks@.len() ==> imported.1@[bundles@[0].blocks@.len()
                + i]@ == (#[trigger] bundles@[1].blocks@[i])@,
{
    let mut actors: BTreeMap<NetworkVersion, Cid> = BTreeMap::new();
    actors.insert(V14, bundles[0].roots[0].clone());
    actors.insert(V15, bundles[1].roots[0].clone());
    assert(actors_view(actors@) =~= actors_table(bundles_view(bundles@)));
    let none: Vec<&'a DataBlock> = Vec::new();
    assert(data_view(none@) =~= Seq::empty());
    let blocks = add_blocks(add_blocks(none, &bundles[0]), &bundles[1]);
    proof {
        let all = bundle_blocks(bundles_view(bundles@));
        let count = bundles@[0].blocks@.len();
        assert(data_view(blocks@) =~= all);
        assert(all.len() == data_view(blocks@).len());
        assert forall|i: int| 0 <= i < count implies blocks@[i]@ == (
        #[trigger] bundles@[0].blocks@[i])@ by {
            assert(data_view(blocks@)[i] == all[i]);
        }
        assert forall|i: int| 0 <= i < bundles@[1].blocks@.len() implies blocks@[count + i]@ == (
        #[trigger] bundles@[1].blocks@[i])@ by {
            assert(data_view(blocks@)[count + i] == all[count + i]);
        }
    }
    (actors, blocks)
}

/// What an import into `store` leaves behind: the store, and the table of builtin actors.
pub open spec fn import(store: Map<Seq<u8>, Seq<u8>>, bundles: Seq<BundleView>) -> (
    Map<Seq<u8>, Seq<u8>>,
    Map<NetworkVersion, Seq<u8>>,
) {
    (written(store, bundle_blocks(bundles)), actors_table(bundles))
}

/// Putting blocks in a store changes what it maps their identifiers to, and nothing else.
proof fn lemma_written(store: Map<Seq<u8>, Seq<u8>>, blocks: Seq<(Seq<u8>, Seq<u8>)>)
    ensures
        written(store, blocks) == store.union_prefer_right(written(Map::empty(), blocks)),
        forall|i: int|
            0 <= i < blocks.len() ==> written(store, blocks).dom().contains(
                (#[trigger] blocks[i]).0,
            ),
    decreases blocks.len(),
{
    let none = Map::<Seq<u8>, Seq<u8>>::empty();
    if blocks.len() == 0 {
        assert(store =~= store.union_prefer_right(none));
    } else {
        let earlier = blocks.drop_last();
        lemma_written(store, earlier);
        assert(written(store, blocks) =~= store.union_prefer_right(written(none, blocks)));
        assert forall|i: int| 0 <= i < blocks.len() implies written(store, blocks).dom().contains(
            (#[trigger] blocks[i]).0,
        ) by {
            if i < earlier.len() {
                assert(earlier[i] == blocks[i]);
            }
        }
    }
}

/// The table is the same on every import of the bundles, whatever the stores held before, and has
/// an index for the versions of the network for which there is a bundle, and for no others. After
/// an import the store holds a block for each identifier of the bundles, and a second import
/// changes nothing in it.
pub proof fn law_import_can_be_repeated(
    store: Map<Seq<u8>, Seq<u8>>,
    other: Map<Seq<u8>, Seq<u8>>,
    bundles: Seq<BundleView>,
    version: NetworkVersion,
)
    ensures
        import(store, bundles).1 == import(other, bundles).1,
        import(store, bundles).1.dom().contains(version) <==> seq![V14, V15].contains(version),
        forall|i: int|
            0 <= i < bundle_blocks(bundles).len() ==> import(store, bundles).0.dom().contains(
                (#[trigger] bundle_blocks(bundles)[i]).0,
            ),
        import(import(store, bundles).0, bundles) == import(store, bundles),
{
    let versions = seq![V14, V15];
    assert(versions[0] == V14 && versions[1] == V15);
    let blocks = bundle_blocks(bundles);
    let once = import(store, bundles).0;
    lemma_written(store, blocks);
    lemma_written(once, blocks);
    assert(written(once, blocks) =~= once);
}

/// The table is fixed by the roots: bundles with the same roots make the same table, and bundles
/// with other roots make another one.
pub proof fn law_table_is_fixed_by_the_roots(first: Seq<BundleView>, second: Seq<BundleView>)
    requires
        one_root_each(first),
        one_root_each(second),
    ensures
        actors_table(first) == actors_table(second) <==> {
            &&& first[0].roots == second[0].roots
            &&& first[1].roots == second[1].roots
        },
{
    if actors_table(first) == actors_table(second) {
        assert(actors_table(first)[V14] == first[0].roots[0]);
        assert(actors_table(first)[V15] == first[1].roots[0]);
        assert(actors_table(second)[V14] == second[0].roots[0]);
        assert(actors_table(second)[V15] == second[1].roots[0]);
        assert(first[0].roots =~= second[0].roots);
        assert(first[1].roots =~= second[1].roots);
    }
}

/// A block of a bundle is one of the blocks that are put in the store.
proof fn lemma_block_is_collected(bundles: Seq<BundleView>, b: int, i: int)
    requires
        0 <= b < 2,
        0 <= i < bundles[b].blocks.len(),
    ensures
        bundle_blocks(bundles).contains(bundles[b].blocks[i]),
{
    let place = if b == 0 {
        i
    } else {
        bundles[0].blocks.len() + i
    };
    assert(bundle_blocks(bundles)[place] == bundles[b].blocks[i]);
}

/// What a store maps an identifier to after blocks were put in it: the data of one of the blocks
/// with the identifier, or what it mapped the identifier to before if there is none.
proof fn lemma_lookup_written(
    store: Map<Seq<u8>, Seq<u8>>,
    blocks: Seq<(Seq<u8>, Seq<u8>)>,
    key: Seq<u8>,
)
    ensures
        (exists|i: int| 0 <= i < blocks.len() && (#[trigger] blocks[i]).0 == key) ==> {
            &&& written(store, blocks).dom().contains(key)
            &&& blocks.contains((key, written(store, blocks)[key]))
        },
        (forall|i: int| 0 <= i < blocks.len() ==> (#[trigger] blocks[i]).0 != key) ==> {
            &&& written(store, blocks).dom().contains(key) == store.dom().contains(key)
            &&& written(store, blocks)[key] == store[key]
        },
    decreases blocks.len(),
{
    if blocks.len() > 0 {
        let earlier = blocks.drop_last();
        lemma_lookup_written(store, earlier, key);
        if blocks.last().0 == key {
            assert(blocks[blocks.len() - 1] == (key, blocks.last().1));
        } else {
            if exists|i: int| 0 <= i < blocks.len() && (#[trigger] blocks[i]).0 == key {
                let i = choose|i: int| 0 <= i < blocks.len() && (#[trigger] blocks[i]).0 == key;
                assert(earlier[i].0 == key);
                let entry = (key, written(store, earlier)[key]);
                let j = choose|j: int| 0 <= j < earlier.len() && earlier[j] == entry;
                assert(blocks[j] == entry);
            } else {
                assert forall|i: int| 0 <= i < earlier.len() implies (#[trigger] earlier[i]).0
                    != key by {
                    assert(blocks[i].0 != key);
                }
            }
        }
    }
}

/// An import puts every block of either bundle in the store, under its identifier and with its
/// data, as long as no other block of the bundles has the identifier with other data.
pub proof fn law_every_block_is_imported(
    store: Map<Seq<u8>, Seq<u8>>,
    bundles: Seq<BundleView>,
    b: int,
    i: int,
)
    requires
        0 <= b < 2,
        0 <= i < bundles[b].blocks.len(),
    ensures
        written(store, bundle_blocks(bundles)).dom().contains(bundles[b].blocks[i].0),
        (forall|c: int, j: int|
            0 <= c < 2 && 0 <= j < bundles[c].blocks.len() && (
            #[trigger] bundles[c].blocks[j]).0 == bundles[b].blocks[i].0 ==> bundles[c].blocks[j].1
                == bundles[b].blocks[i].1) ==> written(store, bundle_blocks(
            bundles,
        ))[bundles[b].blocks[i].0] == bundles[b].blocks[i].1,
{
    let all = bundle_blocks(bundles);
    let (key, data) = bundles[b].blocks[i];
    lemma_block_is_collected(bundles, b, i);
    let place = choose|k: int| 0 <= k < all.len() && all[k] == bundles[b].blocks[i];
    assert(all[place].0 == key);
    lemma_lookup_written(store, all, key);
    let entry = (key, written(store, all)[key]);
    let k = choose|k: int| 0 <= k < all.len() && all[k] == entry;
    if k < bundles[0].blocks.len() {
        assert(bundles[0].blocks[k] == entry);
    } else {
        assert(bundles[1].blocks[k - bundles[0].blocks.len()] == entry);
    }
}

/// An import puts the blocks of the bundles in the store, and no others: what the store maps
/// another identifier to stays.
pub proof fn law_nothing_else_is_imported(
    store: Map<Seq<u8>, Seq<u8>>,
    bundles: Seq<BundleView>,
    key: Seq<u8>,
)
    requires
        forall|b: int, i: int|
            0 <= b < 2 && 0 <= i < bundles[b].blocks.len() ==> (
            #[trigger] bundles[b].blocks[i]).0 != key,
    ensures
        written(store, bundle_blocks(bundles)).dom().contains(key) == store.dom().contains(key),
        written(store, bundle_blocks(bundles))[key] == store[key],
{
    let all = bundle_blocks(bundles);
    assert forall|k: int| 0 <= k < all.len() implies (#[trigger] all[k]).0 != key by {
        if k < bundles[0].blocks.len() {
            assert(bundles[0].blocks[k] == all[k]);
        } else {
            assert(bundles[1].blocks[k - bundles[0].blocks.len()] == all[k]);
        }
    }
    lemma_lookup_written(store, all, key);
}

/// There are as many blocks to be put in the store as the two bundles hold. Those of the first
/// bundle come first, and each bundle keeps the order of its blocks.
pub proof fn law_blocks_keep_their_order(bundles: Seq<BundleView>, i: int)
    ensures
        bundle_blocks(bundles).len() == bundles[0].blocks.len() + bundles[1].blocks.len(),
        0 <= i < bundles[0].blocks.len() ==> bundle_blocks(bundles)[i] == bundles[0].blocks[i],
        0 <= i < bundles[1].blocks.len() ==> bundle_blocks(bundles)[bundles[0].blocks.len() + i]
            == bundles[1].blocks[i],
{
}

/// The index of the actors for a version of the network is the root of the bundle of that version.
pub proof fn law_index_is_the_root(bundles: Seq<BundleView>, version: NetworkVersion)
    ensures
        actors_table(bundles).dom().contains(version) <==> version == 14 || version == 15,
        actors_table(bundles)[14] == bundles[0].roots[0],
        actors_table(bundles)[15] == bundles[1].roots[0],
{
}

/// What a bundle holds are its roots and its blocks, each with its identifier and its data.
pub proof fn law_bundle_holds_roots_and_blocks(bundle: Bundle, i: int)
    ensures
        bundle@.roots.len() == bundle.roots@.len(),
        0 <= i < bundle.roots@.len() ==> bundle@.roots[i] == bundle.roots@[i]@,
        bundle@.blocks.len() == bundle.blocks@.len(),
        0 <= i < bundle.blocks@.len() ==> bundle@.blocks[i] == (
            bundle.blocks@[i].cid@,
            bundle.blocks@[i].data@,
        ),
{
}

/// Lists and tables hold what their members hold.
pub proof fn law_lists_hold_their_members(
    bundles: Seq<Bundle>,
    blocks: Seq<&DataBlock>,
    actors: Map<NetworkVersion, Cid>,
    i: int,
    version: NetworkVersion,
)
    ensures
        bundles_view(bundles).len() == bundles.len(),
        0 <= i < bundles.len() ==> bundles_view(bundles)[i] == bundles[i]@,
        data_view(blocks).len() == blocks.len(),
        0 <= i < blocks.len() ==> data_view(blocks)[i] == (blocks[i].cid@, blocks[i].data@),
        actors_view(actors).dom().contains(version) == actors.dom().contains(version),
        actors.dom().contains(version) ==> actors_view(actors)[version] == actors[version]@,
{
}

} // verus!
