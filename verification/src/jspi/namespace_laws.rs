//! What holds of every selection in a namespace.

use vstd::prelude::*;

use crate::jspi::exports::{async_exports_of, yields};
use crate::jspi::laws::{
    law_selected_symbols_are_exports_that_can_suspend, lemma_all_exports, lemma_polled,
    lemma_sole_is_sole, lemma_without_callbacks, offers, suspendable_export,
};
use crate::jspi::namespace::{
    function_targets, type_targets, Callable, Namespace, TypeDefinition,
};
use crate::jspi::select::{selected, taken};
use crate::jspi::selection::JspiSelection;
use crate::jspi::selector::{
    callable_hits, member_choice, name_hits, owner_choice, parsed, resolved, resolved_all,
    top_level,
};
use crate::jspi::target::{
    all_callables, all_exports, without_callbacks, CallableView, ExportView, TargetView,
};
use crate::jspi::wasm2::{
    all_eligible, eligible_symbols, restricted_callables, restricted_targets,
};

verus! {

impl TypeDefinition {
    /// The constructors, methods and methods of built-in traits that the type declares.
    pub open spec fn declared(self) -> Seq<Callable> {
        match self {
            TypeDefinition::Interface(i) => i.constructors@ + i.methods@
                + i.uniffi_trait_methods.callables(),
            TypeDefinition::Record(r) => r.constructors@ + r.methods@
                + r.uniffi_trait_methods.callables(),
            TypeDefinition::Enum(e) => e.constructors@ + e.methods@
                + e.uniffi_trait_methods.callables(),
            _ => Seq::empty(),
        }
    }
}

impl Namespace {
    /// Whether `callable` is a function of the namespace or declared by one of its types.
    pub open spec fn declares(self, callable: Callable) -> bool {
        ||| self.functions@.contains(callable)
        ||| exists|i: int|
            0 <= i < self.type_definitions@.len()
                && (#[trigger] self.type_definitions@[i]).declared().contains(callable)
    }
}

proof fn lemma_type_target(
    definition: TypeDefinition,
    target: TargetView,
    e: ExportView,
)
    requires
        definition.target() == Some(target),
        target.exports.contains(e) || exists|m: CallableView| #[trigger]
            target.members.contains(m) && m.exports.contains(e),
    ensures
        exists|c: Callable| #[trigger] definition.declared().contains(c) && c.export() == e,
{
    let declared = definition.declared();
    if target.exports.contains(e) {
        let k = choose|k: int| 0 <= k < target.exports.len() && target.exports[k] == e;
        assert(declared[k].export() == e);
        assert(declared.contains(declared[k]));
    } else {
        let m = choose|m: CallableView| #[trigger]
            target.members.contains(m) && m.exports.contains(e);
        let k = choose|k: int| 0 <= k < target.members.len() && target.members[k] == m;
        assert(target.members[k].exports =~= seq![declared[k].export()]);
        assert(declared.contains(declared[k]));
    }
}

proof fn lemma_type_targets(definitions: Seq<TypeDefinition>, i: int)
    requires
        0 <= i < type_targets(definitions).len(),
    ensures
        exists|k: int|
            0 <= k < definitions.len() && (#[trigger] definitions[k]).target() == Some(
                type_targets(definitions)[i],
            ),
    decreases definitions.len(),
{
    reveal_with_fuel(Seq::filter_map, 2);
    if definitions.len() > 0 {
        let fewer = definitions.drop_last();
        if i < type_targets(fewer).len() {
            lemma_type_targets(fewer, i);
            let k = choose|k: int|
                0 <= k < fewer.len() && (#[trigger] fewer[k]).target() == Some(
                    type_targets(fewer)[i],
                );
            assert(definitions[k].target() == Some(type_targets(definitions)[i]));
        } else {
            assert(definitions[definitions.len() - 1].target() == Some(
                type_targets(definitions)[i],
            ));
        }
    }
}

/// What the targets of a namespace export is what a callable that it declares exports.
proof fn lemma_namespace_exports(namespace: Namespace, callable: CallableView, e: ExportView)
    requires
        offers(namespace.targets(), callable),
        callable.exports.contains(e),
    ensures
        exists|c: Callable| #[trigger] namespace.declares(c) && c.export() == e,
{
    let targets = namespace.targets();
    let functions = function_targets(namespace.functions@);
    let i = if exists|i: int|
        0 <= i < targets.len() && (#[trigger] targets[i]).callable() == callable {
        choose|i: int| 0 <= i < targets.len() && (#[trigger] targets[i]).callable() == callable
    } else {
        choose|i: int| 0 <= i < targets.len() && (#[trigger] targets[i]).members.contains(callable)
    };
    if i < functions.len() {
        let f = namespace.functions@[i];
        assert(targets[i] == functions[i]);
        assert(callable.exports =~= seq![f.export()]);
        assert(namespace.functions@.contains(f));
        assert(namespace.declares(f));
    } else {
        let definitions = namespace.type_definitions@;
        let j = i - functions.len();
        assert(targets[i] == type_targets(definitions)[j]);
        lemma_type_targets(definitions, j);
        let k = choose|k: int|
            0 <= k < definitions.len() && (#[trigger] definitions[k]).target() == Some(
                type_targets(definitions)[j],
            );
        lemma_type_target(definitions[k], targets[i], e);
        let c = choose|c: Callable| #[trigger]
            definitions[k].declared().contains(c) && c.export() == e;
        assert(namespace.declares(c));
    }
}

/// A selection only ever selects what a function, constructor or method of the namespace exports,
/// and the adapters that poll it: never the functions that clone, free, allocate, register or
/// check.
pub proof fn law_only_declared_callables_are_selected(
    selection: JspiSelection,
    namespace: Namespace,
    s: Seq<char>,
)
    ensures
        selected(selection, namespace.targets()) matches Ok(set) ==> set.contains(s) ==> exists|
            c: Callable,
        | #[trigger]
            namespace.declares(c) && yields(c.export(), s),
{
    let targets = namespace.targets();
    law_selected_symbols_are_exports_that_can_suspend(selection, targets, s);
    if selected(selection, targets) is Ok && selected(selection, targets)->Ok_0.contains(s) {
        let e = choose|e: ExportView| suspendable_export(targets, e) && #[trigger] yields(e, s);
        let callable = choose|c: CallableView| #[trigger]
            offers(targets, c) && !c.has_callbacks && c.exports.contains(e);
        lemma_namespace_exports(namespace, callable, e);
    }
}

/// What restricted targets offer comes from something that the targets offer.
proof fn lemma_restricted_offer(
    targets: Seq<TargetView>,
    eligible: Set<Seq<char>>,
    callable: CallableView,
)
    requires
        offers(restricted_targets(targets, eligible), callable),
    ensures
        exists|c: CallableView| #[trigger]
            offers(targets, c) && callable == c.restricted(eligible),
{
    let fewer = restricted_targets(targets, eligible);
    if exists|i: int| 0 <= i < fewer.len() && (#[trigger] fewer[i]).callable() == callable {
        let i = choose|i: int|
            0 <= i < fewer.len() && (#[trigger] fewer[i]).callable() == callable;
        assert(targets[i].callable().restricted(eligible) == callable);
        assert(offers(targets, targets[i].callable()));
    } else {
        let i = choose|i: int|
            0 <= i < fewer.len() && (#[trigger] fewer[i]).members.contains(callable);
        let j = choose|j: int| 0 <= j < fewer[i].members.len() && fewer[i].members[j] == callable;
        let c = targets[i].members[j];
        assert(targets[i].members.contains(c));
        assert(offers(targets, c));
    }
}

/// For a wasm2 build, what is selected is exported by a callable of the namespace whose arguments
/// and result all have a supported ABI.
pub proof fn law_wasm2_selects_eligible_functions_only(
    selection: JspiSelection,
    namespace: Namespace,
    s: Seq<char>,
)
    ensures
        selected(selection, namespace.wasm2_targets()) matches Ok(set) ==> set.contains(s)
            ==> exists|c: Callable| #[trigger]
            namespace.declares(c) && yields(c.export(), s) && eligible_symbols(
                namespace.ffi_definitions@,
            ).contains(c.ffi_func@),
{
    let targets = namespace.wasm2_targets();
    let eligible = eligible_symbols(namespace.ffi_definitions@);
    law_selected_symbols_are_exports_that_can_suspend(selection, targets, s);
    if selected(selection, targets) is Ok && selected(selection, targets)->Ok_0.contains(s) {
        let e = choose|e: ExportView| suspendable_export(targets, e) && #[trigger] yields(e, s);
        let callable = choose|c: CallableView| #[trigger]
            offers(targets, c) && !c.has_callbacks && c.exports.contains(e);
        lemma_restricted_offer(namespace.targets(), eligible, callable);
        let open = choose|c: CallableView| #[trigger]
            offers(namespace.targets(), c) && callable == c.restricted(eligible);
        assert(all_eligible(open.exports, eligible));
        let k = choose|k: int| 0 <= k < open.exports.len() && open.exports[k] == e;
        assert(eligible.contains(open.exports[k].symbol));
        lemma_namespace_exports(namespace, open, e);
        let c = choose|c: Callable| #[trigger] namespace.declares(c) && c.export() == e;
        assert(eligible.contains(c.ffi_func@));
    }
}

proof fn lemma_restricted_hits(
    callables: Seq<CallableView>,
    eligible: Set<Seq<char>>,
    name: Seq<char>,
)
    ensures
        name_hits(restricted_callables(callables, eligible), name) == name_hits(callables, name),
{
    assert(name_hits(restricted_callables(callables, eligible), name) =~= name_hits(
        callables,
        name,
    ));
}

/// A selector that can be resolved among restricted targets means the same among all.
proof fn lemma_restricted_resolved(
    selector: Seq<char>,
    targets: Seq<TargetView>,
    eligible: Set<Seq<char>>,
)
    ensures
        resolved(selector, restricted_targets(targets, eligible)) matches Ok(c) ==> (resolved(
            selector,
            targets,
        ) matches Ok(d) && c == d.restricted(eligible)),
{
    let fewer = restricted_targets(targets, eligible);
    if resolved(selector, fewer) is Ok {
        let parts = parsed(selector)->0;
        assert(top_level(fewer) =~= restricted_callables(top_level(targets), eligible));
        lemma_restricted_hits(top_level(targets), eligible, parts.owner);
        let hits = name_hits(top_level(targets), parts.owner);
        assert(callable_hits(fewer, hits) =~= callable_hits(targets, hits));
        lemma_sole_is_sole(hits);
        lemma_sole_is_sole(callable_hits(targets, hits));
        let i = owner_choice(selector, parts.owner, targets, hits)->Ok_0;
        assert(fewer[i] == targets[i].restricted(eligible));
        if let Some(member) = parts.member {
            lemma_restricted_hits(targets[i].members, eligible, member);
            let among = name_hits(targets[i].members, member);
            lemma_sole_is_sole(among);
            let j = member_choice(selector, parts.owner, member, among)->Ok_0;
            assert(fewer[i].members[j] == targets[i].members[j].restricted(eligible));
        }
    }
}

proof fn lemma_restricted_resolved_all(
    selectors: Seq<Seq<char>>,
    targets: Seq<TargetView>,
    eligible: Set<Seq<char>>,
)
    requires
        resolved_all(selectors, restricted_targets(targets, eligible)).error is None,
    ensures
        resolved_all(selectors, targets).error is None,
        resolved_all(selectors, restricted_targets(targets, eligible)).chosen
            == restricted_callables(resolved_all(selectors, targets).chosen, eligible),
    decreases selectors.len(),
{
    let fewer = restricted_targets(targets, eligible);
    if selectors.len() == 0 {
        assert(restricted_callables(Seq::empty(), eligible) =~= Seq::<CallableView>::empty());
    } else {
        lemma_restricted_resolved_all(selectors.drop_last(), targets, eligible);
        lemma_restricted_resolved(selectors.last(), targets, eligible);
        let before = resolved_all(selectors.drop_last(), targets).chosen;
        let d = resolved(selectors.last(), targets)->Ok_0;
        assert(restricted_callables(before.push(d), eligible) =~= restricted_callables(
            before,
            eligible,
        ).push(d.restricted(eligible)));
    }
}

proof fn lemma_restricted_exports(callables: Seq<CallableView>, eligible: Set<Seq<char>>)
    ensures
        all_exports(restricted_callables(callables, eligible)) == all_exports(callables),
    decreases callables.len(),
{
    if callables.len() > 0 {
        lemma_restricted_exports(callables.drop_last(), eligible);
        assert(restricted_callables(callables, eligible).drop_last() =~= restricted_callables(
            callables.drop_last(),
            eligible,
        ));
    }
}

proof fn lemma_restricted_suspendable(
    callables: Seq<CallableView>,
    eligible: Set<Seq<char>>,
    e: ExportView,
)
    requires
        all_exports(without_callbacks(restricted_callables(callables, eligible))).contains(e),
    ensures
        all_exports(without_callbacks(callables)).contains(e),
{
    let fewer = restricted_callables(callables, eligible);
    let kept = without_callbacks(fewer);
    lemma_all_exports(kept, e);
    let k = choose|k: int| 0 <= k < kept.len() && (#[trigger] kept[k]).exports.contains(e);
    lemma_without_callbacks(fewer, kept[k]);
    assert(kept.contains(kept[k]));
    let i = choose|i: int| 0 <= i < fewer.len() && fewer[i] == kept[k];
    lemma_without_callbacks(callables, callables[i]);
    assert(callables.contains(callables[i]));
    let all = without_callbacks(callables);
    let j = choose|j: int| 0 <= j < all.len() && all[j] == callables[i];
    assert(all[j].exports.contains(e));
    lemma_all_exports(all, e);
}

proof fn lemma_restricted_callables(targets: Seq<TargetView>, eligible: Set<Seq<char>>)
    ensures
        all_callables(restricted_targets(targets, eligible)) == restricted_callables(
            all_callables(targets),
            eligible,
        ),
    decreases targets.len(),
{
    let fewer = restricted_targets(targets, eligible);
    if targets.len() == 0 {
        assert(restricted_callables(all_callables(targets), eligible) =~= Seq::<
            CallableView,
        >::empty());
    } else {
        lemma_restricted_callables(targets.drop_last(), eligible);
        assert(fewer.drop_last() =~= restricted_targets(targets.drop_last(), eligible));
        assert(fewer.last().callables() =~= restricted_callables(
            targets.last().callables(),
            eligible,
        ));
        assert(all_callables(fewer) =~= restricted_callables(all_callables(targets), eligible));
    }
}

/// A selection that a wasm2 build accepts is accepted by any web build, which selects at least as
/// much.
pub proof fn law_wasm2_selects_no_more_than_web(selection: JspiSelection, namespace: Namespace)
    ensures
        selected(selection, namespace.wasm2_targets()) matches Ok(narrow) ==> (selected(
            selection,
            namespace.targets(),
        ) matches Ok(wide) && narrow.subset_of(wide)),
{
    let targets = namespace.targets();
    let eligible = eligible_symbols(namespace.ffi_definitions@);
    let fewer = namespace.wasm2_targets();
    if selected(selection, fewer) is Ok {
        lemma_restricted_resolved_all(selection.included_selectors(), targets, eligible);
        lemma_restricted_resolved_all(selection.excluded_selectors(), targets, eligible);
        let included = resolved_all(selection.included_selectors(), targets).chosen;
        let included_fewer = resolved_all(selection.included_selectors(), fewer).chosen;
        let excluded = resolved_all(selection.excluded_selectors(), targets).chosen;
        lemma_restricted_exports(excluded, eligible);
        let without = all_exports(excluded);
        let narrow = selected(selection, fewer)->Ok_0;
        let wide = selected(selection, targets)->Ok_0;
        assert forall|s: Seq<char>| narrow.contains(s) implies wide.contains(s) by {
            let few = taken(selection, fewer, included_fewer);
            let e = choose|e: ExportView|
                few.contains(e) && !without.contains(e) && #[trigger] yields(e, s);
            lemma_restricted_taken(selection, targets, eligible, e);
            assert(taken(selection, targets, included).contains(e));
        }
    }
}

proof fn lemma_restricted_taken(
    selection: JspiSelection,
    targets: Seq<TargetView>,
    eligible: Set<Seq<char>>,
    e: ExportView,
)
    requires
        resolved_all(
            selection.included_selectors(),
            restricted_targets(targets, eligible),
        ).error is None,
        taken(
            selection,
            restricted_targets(targets, eligible),
            resolved_all(
                selection.included_selectors(),
                restricted_targets(targets, eligible),
            ).chosen,
        ).contains(e),
    ensures
        taken(
            selection,
            targets,
            resolved_all(selection.included_selectors(), targets).chosen,
        ).contains(e),
{
    let fewer = restricted_targets(targets, eligible);
    let included = resolved_all(selection.included_selectors(), targets).chosen;
    let included_fewer = resolved_all(selection.included_selectors(), fewer).chosen;
    lemma_restricted_resolved_all(selection.included_selectors(), targets, eligible);
    let few = taken(selection, fewer, included_fewer);
    let many = taken(selection, targets, included);
    let base = if selection.starts_from_all() {
        without_callbacks(top_level(targets))
    } else {
        Seq::empty()
    };
    let base_fewer = if selection.starts_from_all() {
        without_callbacks(top_level(fewer))
    } else {
        Seq::empty()
    };
    let named = all_exports(base + included);
    let named_fewer = all_exports(base_fewer + included_fewer);
    let k = choose|k: int| 0 <= k < few.len() && few[k] == e;
    if k < named_fewer.len() {
        assert(named_fewer[k] == e);
        lemma_all_exports(base_fewer + included_fewer, e);
        let i = choose|i: int|
            0 <= i < (base_fewer + included_fewer).len() && (#[trigger] (base_fewer
                + included_fewer)[i]).exports.contains(e);
        if i < base_fewer.len() {
            assert(base_fewer[i].exports.contains(e));
            lemma_all_exports(base_fewer, e);
            assert(top_level(fewer) =~= restricted_callables(top_level(targets), eligible));
            lemma_restricted_suspendable(top_level(targets), eligible, e);
            lemma_all_exports(base, e);
            let j = choose|j: int| 0 <= j < base.len() && (#[trigger] base[j]).exports.contains(e);
            assert((base + included)[j].exports.contains(e));
        } else {
            let j = i - base_fewer.len();
            assert(included_fewer[j].exports.contains(e));
            assert(included[j].exports.contains(e));
            assert((base + included)[base.len() + j].exports.contains(e));
        }
        lemma_all_exports(base + included, e);
        let j = choose|j: int| 0 <= j < named.len() && named[j] == e;
        assert(many[j] == e);
    } else {
        let automatic = async_exports_of(all_callables(targets));
        let automatic_fewer = async_exports_of(all_callables(fewer));
        assert(automatic_fewer[k - named_fewer.len()] == e);
        lemma_restricted_callables(targets, eligible);
        lemma_polled(
            all_exports(without_callbacks(restricted_callables(all_callables(targets), eligible))),
            e,
        );
        lemma_restricted_suspendable(all_callables(targets), eligible, e);
        lemma_polled(all_exports(without_callbacks(all_callables(targets))), e);
        let j = choose|j: int| 0 <= j < automatic.len() && automatic[j] == e;
        assert(many[named.len() + j] == e);
    }
}

/// What a wasm2 build makes of selectors alone, with neither a start from everything nor the
/// callables that are `async` in Rust, any web build makes of them too.
pub proof fn law_wasm2_agrees_on_selectors(selection: JspiSelection, namespace: Namespace)
    requires
        !selection.starts_from_all(),
        !selection.adds_rust_async(),
        selected(selection, namespace.wasm2_targets()) is Ok,
    ensures
        selected(selection, namespace.targets()) == selected(selection, namespace.wasm2_targets()),
{
    let targets = namespace.targets();
    let eligible = eligible_symbols(namespace.ffi_definitions@);
    lemma_restricted_resolved_all(selection.included_selectors(), targets, eligible);
    lemma_restricted_resolved_all(selection.excluded_selectors(), targets, eligible);
    let none = Seq::<CallableView>::empty();
    let included = resolved_all(selection.included_selectors(), targets).chosen;
    let restricted = restricted_callables(included, eligible);
    lemma_restricted_exports(included, eligible);
    lemma_restricted_exports(
        resolved_all(selection.excluded_selectors(), targets).chosen,
        eligible,
    );
    assert(none + included =~= included && none + restricted =~= restricted);
}

/// Where wasm2 can pass the signature of every callable, it selects what any web build selects.
pub proof fn law_wasm2_agrees_where_all_is_eligible(selection: JspiSelection, namespace: Namespace)
    requires
        forall|c: Callable| #[trigger]
            namespace.declares(c) ==> eligible_symbols(namespace.ffi_definitions@).contains(
                c.ffi_func@,
            ),
    ensures
        selected(selection, namespace.wasm2_targets()) == selected(selection, namespace.targets()),
{
    let targets = namespace.targets();
    let eligible = eligible_symbols(namespace.ffi_definitions@);
    assert forall|c: CallableView| offers(targets, c) implies #[trigger] c.restricted(eligible)
        == c by {
        assert forall|k: int| 0 <= k < c.exports.len() implies eligible.contains(
            (#[trigger] c.exports[k]).symbol,
        ) by {
            let e = c.exports[k];
            assert(c.exports.contains(e));
            lemma_namespace_exports(namespace, c, e);
            let d = choose|d: Callable| #[trigger] namespace.declares(d) && d.export() == e;
            assert(eligible.contains(d.ffi_func@));
        }
    }
    assert forall|i: int| 0 <= i < targets.len() implies #[trigger] targets[i].restricted(eligible)
        == targets[i] by {
        let t = targets[i];
        assert(offers(targets, t.callable()));
        assert(t.callable().restricted(eligible) == t.callable());
        assert forall|j: int| 0 <= j < t.members.len() implies #[trigger] t.members[j].restricted(
            eligible,
        ) == t.members[j] by {
            assert(t.members.contains(t.members[j]));
            assert(offers(targets, t.members[j]));
        }
        assert(restricted_callables(t.members, eligible) =~= t.members);
    }
    assert(namespace.wasm2_targets() =~= targets);
}

} // verus!
