//! Which version of the UniFFI contract the scaffolding of a crate speaks.

use vstd::prelude::*;
use vstd::string::*;

use crate::name_set::NameSet;
use crate::paths::{is_path_equality, same_path};
use crate::text::{same_text, texts};

verus! {

/// A package of a workspace or a dependency of one.
#[derive(Debug)]
pub struct Package {
    pub id: String,
    pub name: String,
    pub major: u64,
    pub minor: u64,
    pub manifest_path: String,
}

/// The dependencies that a package was resolved to.
#[derive(Debug)]
pub struct Node {
    pub id: String,
    pub deps: Vec<String>,
}

/// What Cargo says of a workspace.
#[derive(Debug)]
pub struct Metadata {
    pub packages: Vec<Package>,
    /// The dependency graph, where it was asked for.
    pub resolve: Option<Vec<Node>>,
}

/// Why no version can be told.
#[derive(Debug)]
pub enum MetadataError {
    /// No package has the manifest.
    RootNotFound { manifest_path: String },
    /// There is no dependency graph.
    NoResolve,
}

impl MetadataError {
    /// The text shown to the user.
    pub open spec fn message_text(self) -> Seq<char> {
        match self {
            MetadataError::RootNotFound { manifest_path } => "Failed to find root package for "@
                + manifest_path@ + " in cargo metadata"@,
            MetadataError::NoResolve => "Cargo metadata did not include dependency resolution graph"@,
        }
    }

    /// The text shown to the user.
    pub fn message(&self) -> (r: String)
        ensures
            r@ == self.message_text(),
    {
        match self {
            MetadataError::RootNotFound { manifest_path } => {
                let mut r = "Failed to find root package for ".to_owned();
                r.append(manifest_path.as_str());
                r.append(" in cargo metadata");
                r
            },
            MetadataError::NoResolve => {
                "Cargo metadata did not include dependency resolution graph".to_owned()
            },
        }
    }
}

/// Where the package `id` is listed: the last of the id counts.
pub open spec fn package_index(packages: Seq<Package>, id: Seq<char>) -> Option<int>
    decreases packages.len(),
{
    if packages.len() == 0 {
        None
    } else if packages.last().id@ == id {
        Some(packages.len() - 1)
    } else {
        package_index(packages.drop_last(), id)
    }
}

/// Where the dependencies of `id` are listed: the last of the id counts.
pub open spec fn node_index(nodes: Seq<Node>, id: Seq<char>) -> Option<int>
    decreases nodes.len(),
{
    if nodes.len() == 0 {
        None
    } else if nodes.last().id@ == id {
        Some(nodes.len() - 1)
    } else {
        node_index(nodes.drop_last(), id)
    }
}

/// What the package `id` depends on.
pub open spec fn dependencies(nodes: Seq<Node>, id: Seq<char>) -> Seq<Seq<char>> {
    match node_index(nodes, id) {
        Some(i) => texts(nodes[i].deps@),
        None => Seq::empty(),
    }
}

/// Whether `path` leads from `from` to `to`, each package depending on the next.
pub open spec fn is_path(
    nodes: Seq<Node>,
    path: Seq<Seq<char>>,
    from: Seq<char>,
    to: Seq<char>,
) -> bool {
    &&& path.len() > 0
    &&& path[0] == from
    &&& path.last() == to
    &&& forall|i: int|
        0 < i < path.len() ==> dependencies(nodes, path[i - 1]).contains(#[trigger] path[i])
}

/// Whether `from` depends on `to`, through any number of packages, or is `to`.
pub open spec fn depends(nodes: Seq<Node>, from: Seq<char>, to: Seq<char>) -> bool {
    exists|path: Seq<Seq<char>>| is_path(nodes, path, from, to)
}

impl Package {
    /// Whether it is a version of UniFFI from before contract 30.
    pub open spec fn is_outdated(self) -> bool {
        &&& self.name@ == "uniffi"@ || self.name@ == "uniffi_core"@
        &&& self.major == 0
        &&& self.minor < 30
    }

    fn check_outdated(&self) -> (r: bool)
        ensures
            r == self.is_outdated(),
    {
        (same_text(self.name.as_str(), "uniffi") || same_text(self.name.as_str(), "uniffi_core"))
            && self.major == 0 && self.minor < 30
    }
}

/// Whether `id` is an outdated version of UniFFI.
pub open spec fn is_outdated_id(packages: Seq<Package>, id: Seq<char>) -> bool {
    package_index(packages, id) matches Some(i) && packages[i].is_outdated()
}

/// Whether `root` depends on an outdated version of UniFFI.
pub open spec fn needs_old_contract(
    packages: Seq<Package>,
    nodes: Seq<Node>,
    root: Seq<char>,
) -> bool {
    exists|id: Seq<char>| #[trigger] depends(nodes, root, id) && is_outdated_id(packages, id)
}

fn find_package(packages: &Vec<Package>, id: &str) -> (r: Option<usize>)
    ensures
        match r {
            Some(i) => i < packages@.len() && package_index(packages@, id@) == Some(i as int),
            None => package_index(packages@, id@) is None,
        },
{
    let mut i: usize = packages.len();
    assert(packages@.take(i as int) =~= packages@);
    while i > 0
        invariant
            i <= packages@.len(),
            package_index(packages@, id@) == package_index(packages@.take(i as int), id@),
        decreases i,
    {
        i -= 1;
        assert(packages@.take(i + 1).drop_last() =~= packages@.take(i as int));
        if same_text(packages[i].id.as_str(), id) {
            return Some(i);
        }
    }
    None
}

fn find_node(nodes: &Vec<Node>, id: &str) -> (r: Option<usize>)
    ensures
        match r {
            Some(i) => i < nodes@.len() && node_index(nodes@, id@) == Some(i as int),
            None => node_index(nodes@, id@) is None,
        },
{
    let mut i: usize = nodes.len();
    assert(nodes@.take(i as int) =~= nodes@);
    while i > 0
        invariant
            i <= nodes@.len(),
            node_index(nodes@, id@) == node_index(nodes@.take(i as int), id@),
        decreases i,
    {
        i -= 1;
        assert(nodes@.take(i + 1).drop_last() =~= nodes@.take(i as int));
        if same_text(nodes[i].id.as_str(), id) {
            return Some(i);
        }
    }
    None
}

/// Every package that occurs in the graph as a dependency, and the root.
spec fn universe(nodes: Seq<Node>, root: Seq<char>) -> Set<Seq<char>>
    decreases nodes.len(),
{
    if nodes.len() == 0 {
        set![root]
    } else {
        universe(nodes.drop_last(), root).union(texts(nodes.last().deps@).to_set())
    }
}

proof fn lemma_universe(nodes: Seq<Node>, root: Seq<char>)
    ensures
        universe(nodes, root).finite(),
        universe(nodes, root).contains(root),
        forall|i: int, d: Seq<char>|
            0 <= i < nodes.len() && #[trigger] texts(nodes[i].deps@).contains(d) ==> universe(
                nodes,
                root,
            ).contains(d),
    decreases nodes.len(),
{
    if nodes.len() > 0 {
        let fewer = nodes.drop_last();
        lemma_universe(fewer, root);
        vstd::seq_lib::seq_to_set_is_finite(texts(nodes.last().deps@));
        assert forall|i: int, d: Seq<char>|
            0 <= i < nodes.len() && #[trigger] texts(nodes[i].deps@).contains(d) implies universe(
            nodes,
            root,
        ).contains(d) by {
            if i < fewer.len() {
                assert(texts(fewer[i].deps@).contains(d));
            }
        }
    }
}

proof fn lemma_extend_path(nodes: Seq<Node>, root: Seq<char>, id: Seq<char>, next: Seq<char>)
    requires
        depends(nodes, root, id),
        dependencies(nodes, id).contains(next),
    ensures
        depends(nodes, root, next),
{
    let path = choose|path: Seq<Seq<char>>| is_path(nodes, path, root, id);
    let longer = path.push(next);
    assert forall|i: int| 0 < i < longer.len() implies dependencies(
        nodes,
        longer[i - 1],
    ).contains(#[trigger] longer[i]) by {
        if i < path.len() {
            assert(dependencies(nodes, path[i - 1]).contains(path[i]));
        }
    }
    assert(is_path(nodes, longer, root, next));
}

/// A set that holds `root` and what its elements depend on holds all that `root` depends on.
proof fn lemma_closed(
    nodes: Seq<Node>,
    seen: Set<Seq<char>>,
    root: Seq<char>,
    path: Seq<Seq<char>>,
    to: Seq<char>,
)
    requires
        seen.contains(root),
        forall|id: Seq<char>, next: Seq<char>|
            seen.contains(id) && #[trigger] dependencies(nodes, id).contains(next)
                ==> seen.contains(next),
        is_path(nodes, path, root, to),
    ensures
        seen.contains(to),
    decreases path.len(),
{
    if path.len() > 1 {
        let shorter = path.drop_last();
        let from = shorter.last();
        assert forall|i: int| 0 < i < shorter.len() implies dependencies(
            nodes,
            shorter[i - 1],
        ).contains(#[trigger] shorter[i]) by {
            assert(path[i] == shorter[i]);
        }
        lemma_closed(nodes, seen, root, shorter, from);
        assert(dependencies(nodes, path[path.len() - 2]).contains(path[path.len() - 1]));
    }
}

/// Whether `root` depends on an outdated version of UniFFI, found breadth first.
pub fn finds_outdated(packages: &Vec<Package>, nodes: &Vec<Node>, root: &str) -> (r: bool)
    ensures
        r == needs_old_contract(packages@, nodes@, root@),
{
    let mut queue: Vec<String> = Vec::new();
    queue.push(root.to_owned());
    let mut head: usize = 0;
    let mut seen = NameSet::new();
    let ghost all = universe(nodes@, root@);
    proof {
        lemma_universe(nodes@, root@);
        let path = seq![root@];
        assert(is_path(nodes@, path, root@, root@));
        assert(queue@[0]@ == root@);
    }
    while head < queue.len()
        invariant
            head <= queue@.len(),
            all == universe(nodes@, root@),
            all.finite(),
            seen@.subset_of(all),
            seen@.finite(),
            forall|i: int, d: Seq<char>|
                0 <= i < nodes@.len() && #[trigger] texts(nodes@[i].deps@).contains(d)
                    ==> all.contains(d),
            forall|k: int| 0 <= k < queue@.len() ==> all.contains((#[trigger] queue@[k])@),
            forall|k: int|
                0 <= k < queue@.len() ==> depends(nodes@, root@, (#[trigger] queue@[k])@),
            seen@.contains(root@) || waiting(queue@, head as int, root@),
            forall|id: Seq<char>| #[trigger]
                seen@.contains(id) ==> !is_outdated_id(packages@, id),
            forall|id: Seq<char>, next: Seq<char>|
                seen@.contains(id) && #[trigger] dependencies(nodes@, id).contains(next)
                    ==> seen@.contains(next) || waiting(queue@, head as int, next),
        decreases all.len() - seen@.len(), queue@.len() - head,
    {
        let id = queue[head].clone();
        let ghost before = queue@;
        let ghost seen_before = seen@;
        head += 1;
        if !seen.insert(id.clone()) {
            proof {
                assert(seen@ =~= seen_before);
                assert forall|x: Seq<char>| waiting(before, head - 1, x) implies seen@.contains(x)
                    || waiting(queue@, head as int, x) by {
                    let k = choose|k: int| head - 1 <= k < before.len() && before[k]@ == x;
                    if k >= head {
                        assert(queue@[k]@ == x);
                    }
                }
            }
            continue ;
        }
        proof {
            vstd::set_lib::lemma_len_subset(seen@, all);
        }
        if let Some(p) = find_package(packages, id.as_str()) {
            if packages[p].check_outdated() {
                assert(depends(nodes@, root@, id@) && is_outdated_id(packages@, id@));
                return true;
            }
        }
        if let Some(n) = find_node(nodes, id.as_str()) {
            let deps = &nodes[n].deps;
            let mut d: usize = 0;
            while d < deps.len()
                invariant
                    d <= deps@.len(),
                    n < nodes@.len(),
                    *deps == nodes@[n as int].deps,
                    node_index(nodes@, id@) == Some(n as int),
                    depends(nodes@, root@, id@),
                    head <= before.len() <= queue@.len(),
                    forall|k: int| 0 <= k < before.len() ==> queue@[k] == before[k],
                    forall|i: int, d: Seq<char>|
                        0 <= i < nodes@.len() && #[trigger] texts(nodes@[i].deps@).contains(d)
                            ==> all.contains(d),
                    forall|k: int| 0 <= k < queue@.len() ==> all.contains((#[trigger] queue@[k])@),
                    forall|k: int|
                        0 <= k < queue@.len() ==> depends(nodes@, root@, (#[trigger] queue@[k])@),
                    forall|k: int| 0 <= k < d ==> waiting(queue@, head as int, #[trigger] deps@[k]@),
                decreases deps@.len() - d,
            {
                let ghost held = queue@;
                let dep = deps[d].clone();
                proof {
                    assert(texts(deps@)[d as int] == dep@);
                    assert(texts(nodes@[n as int].deps@).contains(dep@));
                    lemma_extend_path(nodes@, root@, id@, dep@);
                }
                queue.push(dep);
                proof {
                    assert(queue@[held.len() as int]@ == dep@);
                    assert(waiting(queue@, head as int, deps@[d as int]@));
                    assert forall|k: int| 0 <= k < d implies waiting(
                        queue@,
                        head as int,
                        #[trigger] deps@[k]@,
                    ) by {
                        let q = choose|q: int|
                            head <= q < held.len() && held[q]@ == deps@[k]@;
                        assert(queue@[q]@ == deps@[k]@);
                    }
                }
                d += 1;
            }
            proof {
                assert forall|next: Seq<char>| dependencies(nodes@, id@).contains(next) implies
                    waiting(queue@, head as int, next) by {
                    let k = choose|k: int|
                        0 <= k < texts(deps@).len() && texts(deps@)[k] == next;
                    assert(deps@[k]@ == next);
                }
            }
        }
        proof {
            assert forall|x: Seq<char>| waiting(before, head - 1, x) implies seen@.contains(x)
                || waiting(queue@, head as int, x) by {
                let k = choose|k: int| head - 1 <= k < before.len() && before[k]@ == x;
                if k >= head {
                    assert(queue@[k]@ == x);
                }
            }
        }
    }
    proof {
        if needs_old_contract(packages@, nodes@, root@) {
            let id = choose|id: Seq<char>| #[trigger]
                depends(nodes@, root@, id) && is_outdated_id(packages@, id);
            let path = choose|path: Seq<Seq<char>>| is_path(nodes@, path, root@, id);
            lemma_closed(nodes@, seen@, root@, path, id);
        }
    }
    false
}

/// Whether `id` stands in `queue` at or after `head`.
spec fn waiting(queue: Seq<String>, head: int, id: Seq<char>) -> bool {
    exists|k: int| head <= k < queue.len() && (#[trigger] queue[k])@ == id
}

/// Whether `same` says of each of `packages` whether its manifest is at `manifest_path`.
pub open spec fn are_path_equalities(
    packages: Seq<Package>,
    manifest_path: Seq<char>,
    same: Seq<bool>,
) -> bool {
    &&& same.len() == packages.len()
    &&& forall|i: int|
        0 <= i < packages.len() ==> {
            &&& is_path_equality(packages[i].manifest_path@, manifest_path, #[trigger] same[i])
            &&& packages[i].manifest_path@ == manifest_path ==> same[i]
        }
}

/// Whether `r` is the version of the UniFFI contract that the crate with the manifest at
/// `manifest_path` speaks, when `same` says whose manifest that is: 29 where the first of these
/// packages depends on an outdated version of UniFFI, else 30.
pub open spec fn speaks(
    metadata: Metadata,
    manifest_path: Seq<char>,
    same: Seq<bool>,
    r: Result<u32, MetadataError>,
) -> bool {
    if !same.contains(true) {
        r matches Err(MetadataError::RootNotFound { manifest_path: path }) && path@ == manifest_path
    } else {
        let root = metadata.packages@[same.index_of_first(true)->0];
        match metadata.resolve {
            None => r matches Err(MetadataError::NoResolve),
            Some(nodes) => r matches Ok(version) && version == if needs_old_contract(
                metadata.packages@,
                nodes@,
                root.id@,
            ) {
                29u32
            } else {
                30u32
            },
        }
    }
}

/// The version that [`speaks`] gives, when `same` says of each package whether its manifest is at
/// `manifest_path`.
pub fn version_spoken(metadata: &Metadata, manifest_path: &str, same: &Vec<bool>) -> (r: Result<
    u32,
    MetadataError,
>)
    requires
        same@.len() == metadata.packages@.len(),
    ensures
        speaks(*metadata, manifest_path@, same@, r),
{
    let mut i: usize = 0;
    while i < same.len()
        invariant
            i <= same@.len() == metadata.packages@.len(),
            forall|j: int| 0 <= j < i ==> !same@[j],
        decreases same@.len() - i,
    {
        if same[i] {
            proof {
                same@.index_of_first_ensures(true);
                assert(same@[i as int]);
                assert(same@.index_of_first(true) == Some(i as int));
            }
            return match &metadata.resolve {
                None => Err(MetadataError::NoResolve),
                Some(nodes) => if finds_outdated(
                    &metadata.packages,
                    nodes,
                    metadata.packages[i].id.as_str(),
                ) {
                    Ok(29)
                } else {
                    Ok(30)
                },
            };
        }
        i += 1;
    }
    Err(MetadataError::RootNotFound { manifest_path: manifest_path.to_owned() })
}

/// The version of the UniFFI contract that the crate with the manifest at `manifest_path` speaks:
/// 29 where it depends on an outdated version of UniFFI, else 30.
pub fn detect_scaffolding_contract_version(metadata: &Metadata, manifest_path: &str) -> (r: Result<
    u32,
    MetadataError,
>)
    ensures
        exists|same: Seq<bool>| #[trigger]
            are_path_equalities(metadata.packages@, manifest_path@, same) && speaks(
                *metadata,
                manifest_path@,
                same,
                r,
            ),
{
    let mut same: Vec<bool> = Vec::new();
    let mut i: usize = 0;
    while i < metadata.packages.len()
        invariant
            i <= metadata.packages@.len(),
            same@.len() == i,
            forall|j: int|
                0 <= j < i ==> {
                    &&& is_path_equality(
                        metadata.packages@[j].manifest_path@,
                        manifest_path@,
                        #[trigger] same@[j],
                    )
                    &&& metadata.packages@[j].manifest_path@ == manifest_path@ ==> same@[j]
                },
        decreases metadata.packages@.len() - i,
    {
        same.push(same_path(metadata.packages[i].manifest_path.as_str(), manifest_path));
        i += 1;
    }
    assert(are_path_equalities(metadata.packages@, manifest_path@, same@));
    version_spoken(metadata, manifest_path, &same)
}

/// The contract version to force on the generator, unless one is forced already. `detected` is the
/// version that was detected, if one could be.
pub fn forced_contract(already_forced: bool, detected: Option<u32>) -> (r: Option<&'static str>)
    ensures
        r is Some <==> !already_forced && (detected matches Some(version) && version < 30),
        r matches Some(version) ==> version@ == "29"@,
{
    if already_forced {
        return None;
    }
    match detected {
        Some(version) => if version < 30 {
            Some("29")
        } else {
            None
        },
        None => None,
    }
}

/// What needs the old contract makes everything that depends on it need the old contract.
pub proof fn law_the_old_contract_spreads_to_dependents(
    packages: Seq<Package>,
    nodes: Seq<Node>,
    dependent: Seq<char>,
    dependency: Seq<char>,
)
    requires
        depends(nodes, dependent, dependency),
        needs_old_contract(packages, nodes, dependency),
    ensures
        needs_old_contract(packages, nodes, dependent),
{
    let old = choose|id: Seq<char>| #[trigger]
        depends(nodes, dependency, id) && is_outdated_id(packages, id);
    let first = choose|path: Seq<Seq<char>>| is_path(nodes, path, dependent, dependency);
    let second = choose|path: Seq<Seq<char>>| is_path(nodes, path, dependency, old);
    let whole = first + second.skip(1);
    assert forall|i: int| 0 < i < whole.len() implies dependencies(nodes, whole[i - 1]).contains(
        #[trigger] whole[i],
    ) by {
        if i < first.len() {
            assert(whole[i] == first[i] && whole[i - 1] == first[i - 1]);
        } else {
            let j = i - first.len() + 1;
            assert(whole[i] == second[j]);
            assert(whole[i - 1] == second[j - 1]) by {
                if i == first.len() {
                    assert(first.last() == second[0]);
                }
            }
        }
    }
    if second.len() > 1 {
        assert(whole.last() == second.last());
    } else {
        assert(whole.last() == first.last());
    }
    assert(is_path(nodes, whole, dependent, old));
    assert(depends(nodes, dependent, old));
}

} // verus!
