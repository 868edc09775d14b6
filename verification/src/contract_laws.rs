//! What holds of every dependency graph.

use vstd::prelude::*;

use crate::contract::{
    are_path_equalities, dependencies, depends, is_outdated_id, is_path,
    law_the_old_contract_spreads_to_dependents, needs_old_contract, node_index, package_index,
    speaks, Metadata, MetadataError, Node, Package,
};
use crate::paths::is_path_equality;
use crate::text::texts;

verus! {

proof fn lemma_last_node(nodes: Seq<Node>, n: int)
    requires
        0 <= n < nodes.len(),
        forall|m: int| n < m < nodes.len() ==> (#[trigger] nodes[m]).id@ != nodes[n].id@,
    ensures
        node_index(nodes, nodes[n].id@) == Some(n),
    decreases nodes.len(),
{
    if n < nodes.len() - 1 {
        let fewer = nodes.drop_last();
        assert forall|m: int| n < m < fewer.len() implies (#[trigger] fewer[m]).id@
            != fewer[n].id@ by {
            assert(nodes[m] == fewer[m]);
        }
        assert(nodes[nodes.len() - 1].id@ != nodes[n].id@);
        lemma_last_node(fewer, n);
    }
}

proof fn lemma_node_found(nodes: Seq<Node>, id: Seq<char>)
    ensures
        node_index(nodes, id) matches Some(n) ==> {
            &&& 0 <= n < nodes.len()
            &&& nodes[n].id@ == id
            &&& forall|m: int| n < m < nodes.len() ==> (#[trigger] nodes[m]).id@ != id
        },
    decreases nodes.len(),
{
    if nodes.len() > 0 {
        let fewer = nodes.drop_last();
        lemma_node_found(fewer, id);
        assert(forall|m: int| 0 <= m < fewer.len() ==> nodes[m] == fewer[m]);
    }
}

proof fn lemma_last_package(packages: Seq<Package>, p: int)
    requires
        0 <= p < packages.len(),
        forall|q: int| p < q < packages.len() ==> (#[trigger] packages[q]).id@ != packages[p].id@,
    ensures
        package_index(packages, packages[p].id@) == Some(p),
    decreases packages.len(),
{
    if p < packages.len() - 1 {
        let fewer = packages.drop_last();
        assert forall|q: int| p < q < fewer.len() implies (#[trigger] fewer[q]).id@
            != fewer[p].id@ by {
            assert(packages[q] == fewer[q]);
        }
        assert(packages[packages.len() - 1].id@ != packages[p].id@);
        lemma_last_package(fewer, p);
    }
}

proof fn lemma_package_found(packages: Seq<Package>, id: Seq<char>)
    ensures
        package_index(packages, id) matches Some(p) ==> {
            &&& 0 <= p < packages.len()
            &&& packages[p].id@ == id
            &&& forall|q: int| p < q < packages.len() ==> (#[trigger] packages[q]).id@ != id
        },
    decreases packages.len(),
{
    if packages.len() > 0 {
        let fewer = packages.drop_last();
        lemma_package_found(fewer, id);
        assert(forall|q: int| 0 <= q < fewer.len() ==> packages[q] == fewer[q]);
    }
}

/// A package depends on itself and on each package that it lists, wherever in the list that stands.
/// Of several nodes of one id, the last counts.
pub proof fn law_a_package_depends_on_all_that_it_lists(nodes: Seq<Node>, n: int, k: int)
    requires
        0 <= n < nodes.len(),
        forall|m: int| n < m < nodes.len() ==> (#[trigger] nodes[m]).id@ != nodes[n].id@,
        0 <= k < nodes[n].deps@.len(),
    ensures
        depends(nodes, nodes[n].id@, nodes[n].id@),
        depends(nodes, nodes[n].id@, nodes[n].deps@[k]@),
{
    lemma_last_node(nodes, n);
    let id = nodes[n].id@;
    let dep = nodes[n].deps@[k]@;
    assert(texts(nodes[n].deps@)[k] == dep);
    assert(dependencies(nodes, id).contains(dep));
    assert(is_path(nodes, seq![id], id, id));
    assert(is_path(nodes, seq![id, dep], id, dep));
}

/// A package that lists an old UniFFI, at whatever place, needs the old contract.
pub proof fn law_a_listed_old_uniffi_is_found(
    packages: Seq<Package>,
    nodes: Seq<Node>,
    n: int,
    k: int,
    p: int,
)
    requires
        0 <= n < nodes.len(),
        forall|m: int| n < m < nodes.len() ==> (#[trigger] nodes[m]).id@ != nodes[n].id@,
        0 <= k < nodes[n].deps@.len(),
        0 <= p < packages.len(),
        forall|q: int| p < q < packages.len() ==> (#[trigger] packages[q]).id@ != packages[p].id@,
        packages[p].id@ == nodes[n].deps@[k]@,
        packages[p].name@ == "uniffi"@ || packages[p].name@ == "uniffi_core"@,
        packages[p].major == 0,
        packages[p].minor < 30,
    ensures
        needs_old_contract(packages, nodes, nodes[n].id@),
{
    law_a_package_depends_on_all_that_it_lists(nodes, n, k);
    lemma_last_package(packages, p);
    assert(is_outdated_id(packages, nodes[n].deps@[k]@));
}

/// A package that is itself an old UniFFI needs the old contract.
pub proof fn law_an_old_uniffi_needs_the_old_contract(
    packages: Seq<Package>,
    nodes: Seq<Node>,
    p: int,
)
    requires
        0 <= p < packages.len(),
        forall|q: int| p < q < packages.len() ==> (#[trigger] packages[q]).id@ != packages[p].id@,
        packages[p].name@ == "uniffi"@ || packages[p].name@ == "uniffi_core"@,
        packages[p].major == 0,
        packages[p].minor < 30,
    ensures
        needs_old_contract(packages, nodes, packages[p].id@),
{
    let id = packages[p].id@;
    lemma_last_package(packages, p);
    assert(is_path(nodes, seq![id], id, id));
    assert(depends(nodes, id, id));
    assert(is_outdated_id(packages, id));
}

/// A package needs the old contract as soon as one of those that it lists does.
pub proof fn law_the_old_contract_is_inherited_from_each_dependency(
    packages: Seq<Package>,
    nodes: Seq<Node>,
    n: int,
    k: int,
)
    requires
        0 <= n < nodes.len(),
        forall|m: int| n < m < nodes.len() ==> (#[trigger] nodes[m]).id@ != nodes[n].id@,
        0 <= k < nodes[n].deps@.len(),
        needs_old_contract(packages, nodes, nodes[n].deps@[k]@),
    ensures
        needs_old_contract(packages, nodes, nodes[n].id@),
{
    law_a_package_depends_on_all_that_it_lists(nodes, n, k);
    law_the_old_contract_spreads_to_dependents(
        packages,
        nodes,
        nodes[n].id@,
        nodes[n].deps@[k]@,
    );
}

/// Nothing but an old UniFFI among what is reached makes a package need the old contract: if `ids`
/// holds the package and whatever its members list, and no member is an old UniFFI, it does not.
pub proof fn law_only_an_old_uniffi_needs_the_old_contract(
    packages: Seq<Package>,
    nodes: Seq<Node>,
    root: Seq<char>,
    ids: Set<Seq<char>>,
)
    requires
        ids.contains(root),
        forall|n: int, k: int|
            0 <= n < nodes.len() && ids.contains(nodes[n].id@) && (forall|m: int|
                n < m < nodes.len() ==> (#[trigger] nodes[m]).id@ != nodes[n].id@) && 0 <= k
                < nodes[n].deps@.len() ==> ids.contains((#[trigger] nodes[n].deps@[k])@),
        forall|p: int|
            0 <= p < packages.len() && ids.contains((#[trigger] packages[p]).id@) && (forall|
                q: int,
            |
                p < q < packages.len() ==> (#[trigger] packages[q]).id@ != packages[p].id@) ==> !((
            packages[p].name@ == "uniffi"@ || packages[p].name@ == "uniffi_core"@)
                && packages[p].major == 0 && packages[p].minor < 30),
    ensures
        !needs_old_contract(packages, nodes, root),
{
    if needs_old_contract(packages, nodes, root) {
        let id = choose|id: Seq<char>| #[trigger]
            depends(nodes, root, id) && is_outdated_id(packages, id);
        let path = choose|path: Seq<Seq<char>>| is_path(nodes, path, root, id);
        lemma_path_stays(nodes, path, root, id, ids, path.len() - 1);
        lemma_package_found(packages, id);
        let p = package_index(packages, id)->0;
        assert(ids.contains(packages[p].id@));
    }
}

proof fn lemma_path_stays(
    nodes: Seq<Node>,
    path: Seq<Seq<char>>,
    root: Seq<char>,
    id: Seq<char>,
    ids: Set<Seq<char>>,
    i: int,
)
    requires
        is_path(nodes, path, root, id),
        ids.contains(root),
        forall|n: int, k: int|
            0 <= n < nodes.len() && ids.contains(nodes[n].id@) && (forall|m: int|
                n < m < nodes.len() ==> (#[trigger] nodes[m]).id@ != nodes[n].id@) && 0 <= k
                < nodes[n].deps@.len() ==> ids.contains((#[trigger] nodes[n].deps@[k])@),
        0 <= i < path.len(),
    ensures
        ids.contains(path[i]),
    decreases i,
{
    if i > 0 {
        lemma_path_stays(nodes, path, root, id, ids, i - 1);
        let from = path[i - 1];
        lemma_node_found(nodes, from);
        assert(dependencies(nodes, from).contains(path[i]));
        let n = node_index(nodes, from)->0;
        let deps = texts(nodes[n].deps@);
        let k = choose|k: int| 0 <= k < deps.len() && deps[k] == path[i];
        assert(nodes[n].deps@[k]@ == path[i]);
    }
}

/// The answer is about the first package with the manifest: 29 where it needs the old contract,
/// else 30. It is an error only where there is no such package, or no graph.
pub proof fn law_the_first_package_with_the_manifest_decides(
    metadata: Metadata,
    manifest_path: Seq<char>,
    same: Seq<bool>,
    r: Result<u32, MetadataError>,
    i: int,
)
    requires
        speaks(metadata, manifest_path, same, r),
    ensures
        (forall|j: int| 0 <= j < same.len() ==> !(#[trigger] same[j])) ==> (r matches Err(
            MetadataError::RootNotFound { manifest_path: path },
        ) && path@ == manifest_path),
        0 <= i < same.len() && same[i] && (forall|j: int| 0 <= j < i ==> !(#[trigger] same[j]))
            ==> match metadata.resolve {
            None => r matches Err(MetadataError::NoResolve),
            Some(nodes) => if needs_old_contract(
                metadata.packages@,
                nodes@,
                metadata.packages@[i].id@,
            ) {
                r == Ok::<u32, MetadataError>(29)
            } else {
                r == Ok::<u32, MetadataError>(30)
            },
        },
{
    same.index_of_first_ensures(true);
    if same.contains(true) {
        let k = choose|k: int| 0 <= k < same.len() && same[k] == true;
        assert(same[k]);
    }
    if 0 <= i < same.len() && same[i] && (forall|j: int| 0 <= j < i ==> !(#[trigger] same[j])) {
        assert(same.contains(true));
        let first = same.index_of_first(true)->0;
        assert(first == i) by {
            if first < i {
                assert(!same[first]);
            }
        }
    }
}

/// Every package is asked for by its own manifest, and one whose manifest is written alike is the
/// one that is asked for.
pub proof fn law_every_manifest_is_compared(
    packages: Seq<Package>,
    manifest_path: Seq<char>,
    same: Seq<bool>,
    i: int,
)
    requires
        are_path_equalities(packages, manifest_path, same),
        0 <= i < packages.len(),
    ensures
        same.len() == packages.len(),
        is_path_equality(packages[i].manifest_path@, manifest_path, same[i]),
        packages[i].manifest_path@ == manifest_path ==> same[i],
{
    assert(is_path_equality(packages[i].manifest_path@, manifest_path, same[i]));
}

/// The message about a package that was not found names its manifest.
pub proof fn law_the_message_names_the_manifest(error: MetadataError)
    ensures
        error matches MetadataError::RootNotFound { manifest_path } ==> error.message_text()
            == "Failed to find root package for "@ + manifest_path@ + " in cargo metadata"@,
        error matches MetadataError::NoResolve ==> error.message_text()
            == "Cargo metadata did not include dependency resolution graph"@,
{
}

} // verus!
