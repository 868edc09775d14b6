//! What a selection in a namespace means, in terms of what the namespace declares.

use vstd::prelude::*;

use crate::jspi::laws::lemma_sole_is_sole;
use crate::jspi::meaning_laws::{
    exclusions_of, is_exported_by, law_exports_are_selected_with_their_poll_adapters,
    law_names_fail_before_exclusions, law_selectors_are_taken_from_first_to_last, names_of,
    starts_with_export,
};
use crate::jspi::namespace::{
    callable_exports, function_target, function_targets, if_any, type_target, type_targets,
    Callable, CallableKind, FfiDefinition, FfiFunction, FfiType, Namespace, ObjectImpl,
    TypeDefinition, UniffiTraitMethods,
};
use crate::jspi::namespace_laws::law_wasm2_agrees_where_all_is_eligible;
use crate::jspi::select::selected;
use crate::jspi::selection::JspiSelection;
use crate::jspi::selector::{
    callable_hits, member_choice, name_hits, owner_choice, parsed, resolved, resolved_all, top_level,
};
use crate::jspi::target::{CallableView, ExportView, TargetView};
use crate::jspi::wasm2::{all_eligible, defines_eligible, eligible_symbols};
use crate::text::texts;

verus! {

/// Whether `s` is the symbol that `callable` exports, or the adapter of the symbol that polls it.
pub open spec fn is_symbol_of(callable: Callable, s: Seq<char>) -> bool {
    ||| s == callable.ffi_func@
    ||| callable.async_data matches Some(data) && s == data.ffi_rust_future_poll@ + "_jspi"@
}

/// Whether `callable` is one of the methods that stand for built-in traits.
pub open spec fn is_trait_method(traits: UniffiTraitMethods, callable: Callable) -> bool {
    ||| traits.display_fmt == Some(callable)
    ||| traits.debug_fmt == Some(callable)
    ||| traits.eq_eq == Some(callable)
    ||| traits.eq_ne == Some(callable)
    ||| traits.hash_hash == Some(callable)
    ||| traits.ord_cmp == Some(callable)
}

/// Whether `callable` is a constructor or method of the type, which foreign code cannot implement.
pub open spec fn is_open_member(definition: TypeDefinition, callable: Callable) -> bool {
    match definition {
        TypeDefinition::Interface(i) => i.imp != ObjectImpl::CallbackTrait && (
        i.constructors@.contains(callable) || i.methods@.contains(callable)),
        TypeDefinition::Record(r) => r.constructors@.contains(callable) || r.methods@.contains(
            callable,
        ),
        TypeDefinition::Enum(e) => e.constructors@.contains(callable) || e.methods@.contains(
            callable,
        ),
        _ => false,
    }
}

/// Whether `callable` stands for a built-in trait of the type, which foreign code cannot implement.
pub open spec fn is_open_trait_method(definition: TypeDefinition, callable: Callable) -> bool {
    match definition {
        TypeDefinition::Interface(i) => i.imp != ObjectImpl::CallbackTrait && is_trait_method(
            i.uniffi_trait_methods,
            callable,
        ),
        TypeDefinition::Record(r) => is_trait_method(r.uniffi_trait_methods, callable),
        TypeDefinition::Enum(e) => is_trait_method(e.uniffi_trait_methods, callable),
        _ => false,
    }
}

/// Whether the type has neither constructors nor methods.
pub open spec fn has_no_members(definition: TypeDefinition) -> bool {
    match definition {
        TypeDefinition::Interface(i) => i.constructors@.len() == 0 && i.methods@.len() == 0,
        TypeDefinition::Record(r) => r.constructors@.len() == 0 && r.methods@.len() == 0,
        TypeDefinition::Enum(e) => e.constructors@.len() == 0 && e.methods@.len() == 0,
        _ => true,
    }
}

/// A callable exports its symbol, with the symbol that polls it if it is `async`, whatever kind of
/// callable it is.
pub proof fn law_callables_export_symbol_and_poll(callable: Callable)
    ensures
        callable.export().symbol == callable.ffi_func@,
        callable.async_data is None ==> callable.export().poll is None,
        callable.async_data matches Some(data) ==> callable.export().poll == Some(
            data.ffi_rust_future_poll@,
        ),
{
}

/// A callable is offered under the name that it is asked for, and exports nothing but its own.
pub proof fn law_callables_are_offered_by_name(
    callable: Callable,
    name: Seq<char>,
    has_callbacks: bool,
)
    ensures
        callable.member(name, has_callbacks).name == name,
        callable.member(name, has_callbacks).has_callbacks == has_callbacks,
        callable.member(name, has_callbacks).exports.len() == 1,
        callable.member(name, has_callbacks).exports[0].symbol == callable.ffi_func@,
        callable.async_data is None ==> callable.member(name, has_callbacks).exports[0].poll is None,
        callable.async_data matches Some(data) ==> callable.member(
            name,
            has_callbacks,
        ).exports[0].poll == Some(data.ffi_rust_future_poll@),
{
}

/// Every function is a target of its own name that can suspend, in order and before the types. Then
/// come the types that offer anything to select, in order.
pub proof fn law_functions_come_before_types(namespace: Namespace, i: int)
    ensures
        namespace.targets().len() >= namespace.functions@.len(),
        0 <= i < namespace.functions@.len() ==> {
            let target = namespace.targets()[i];
            let function = namespace.functions@[i];
            &&& target.name == function.name@
            &&& !target.has_callbacks
            &&& target.members.len() == 0
            &&& target.exports == seq![function.export()]
        },
        namespace.targets().skip(namespace.functions@.len() as int) == type_targets(
            namespace.type_definitions@,
        ),
{
    let functions = function_targets(namespace.functions@);
    assert(namespace.targets().skip(functions.len() as int) =~= type_targets(
        namespace.type_definitions@,
    ));
}

/// Each type with callables of its own adds one target. Others add none.
pub proof fn law_each_type_adds_its_target(
    definitions: Seq<TypeDefinition>,
    definition: TypeDefinition,
)
    ensures
        type_targets(Seq::empty()).len() == 0,
        definition is Other ==> type_targets(definitions.push(definition)) == type_targets(
            definitions,
        ),
        !(definition is Other) ==> definition.target() is Some && type_targets(
            definitions.push(definition),
        ) == type_targets(definitions).push(definition.target()->0),
{
    reveal(Seq::filter_map);
    assert(definitions.push(definition).drop_last() =~= definitions);
}

/// A callback interface is a target that may call back and exports nothing.
pub proof fn law_callback_interfaces_export_nothing(definition: TypeDefinition)
    ensures
        definition matches TypeDefinition::CallbackInterface(c) ==> (
        definition.target() matches Some(target) && target.name == c.name@ && target.has_callbacks
            && target.members.len() == 0 && target.exports.len() == 0),
        definition is Other ==> definition.target() is None,
{
}

/// The name of a type, its constructors, methods and built-in traits, and whether foreign code can
/// implement it, make its target.
pub proof fn law_types_are_targets_of_their_callables(definition: TypeDefinition)
    ensures
        definition matches TypeDefinition::Interface(i) ==> definition.target() == Some(
            type_target(
                i.name@,
                i.constructors@,
                i.methods@,
                i.uniffi_trait_methods,
                i.imp == ObjectImpl::CallbackTrait,
            ),
        ),
        definition matches TypeDefinition::Record(r) ==> definition.target() == Some(
            type_target(
                r.name@,
                r.constructors@,
                r.methods@,
                r.uniffi_trait_methods,
                false,
            ),
        ),
        definition matches TypeDefinition::Enum(e) ==> definition.target() == Some(
            type_target(
                e.name@,
                e.constructors@,
                e.methods@,
                e.uniffi_trait_methods,
                false,
            ),
        ),
{
}

/// One if `there`, else nothing.
pub open spec fn one_if(there: bool) -> int {
    if there {
        1
    } else {
        0
    }
}

/// The constructors and then the methods of a type are its members, and they export first. The
/// primary constructor is called `constructor`, and every other callable by its name. The methods of
/// built-in traits are exported, but are no members.
pub proof fn law_types_offer_constructors_and_methods(
    name: Seq<char>,
    constructors: Seq<Callable>,
    methods: Seq<Callable>,
    traits: UniffiTraitMethods,
    has_callbacks: bool,
    k: int,
)
    ensures
        ({
            let target = type_target(name, constructors, methods, traits, has_callbacks);
            let n = 0int + constructors.len();
            let own = constructors + methods;
            &&& target.name == name
            &&& target.has_callbacks == has_callbacks
            &&& target.members.len() == own.len()
            &&& target.exports.len() >= own.len()
            &&& 0 <= k < own.len() ==> {
                &&& target.members[k].exports == seq![own[k].export()]
                &&& target.members[k].has_callbacks == has_callbacks
                &&& target.exports[k] == own[k].export()
            }
            &&& 0 <= k < n && own[k].kind == (CallableKind::Constructor { primary: true })
                ==> target.members[k].name == "constructor"@
            &&& 0 <= k < n && own[k].kind != (CallableKind::Constructor { primary: true })
                ==> target.members[k].name == own[k].name@
            &&& n <= k < own.len() ==> target.members[k].name == own[k].name@
            &&& own.len() <= k < target.exports.len() ==> exists|c: Callable| #[trigger]
                is_trait_method(traits, c) && target.exports[k] == c.export()
            &&& forall|c: Callable| #[trigger]
                is_trait_method(traits, c) ==> target.exports.contains(c.export())
            &&& target.exports.len() == own.len() + one_if(traits.display_fmt is Some) + one_if(
                traits.debug_fmt is Some,
            ) + one_if(traits.eq_eq is Some) + one_if(traits.eq_ne is Some) + one_if(
                traits.hash_hash is Some,
            ) + one_if(traits.ord_cmp is Some)
        }),
{
    let target = type_target(name, constructors, methods, traits, has_callbacks);
    let own = constructors + methods;
    let all = own + traits.callables();
    assert forall|i: int| 0 <= i < all.len() implies #[trigger] target.exports[i]
        == all[i].export() by {}
    assert forall|c: Callable| traits.callables().contains(c) <==> is_trait_method(traits, c) by {
        lemma_trait_methods(traits, c);
    }
    if own.len() <= k < target.exports.len() {
        let c = traits.callables()[k - own.len()];
        assert(traits.callables().contains(c));
        assert(all[k] == c);
        assert(is_trait_method(traits, c) && target.exports[k] == c.export());
    }
    assert forall|c: Callable| #[trigger] is_trait_method(traits, c) implies target.exports.contains(
        c.export(),
    ) by {
        assert(traits.callables().contains(c));
        let i = choose|i: int| 0 <= i < traits.callables().len() && traits.callables()[i] == c;
        assert(all[own.len() + i] == c);
        assert(target.exports[own.len() + i] == c.export());
    }
    if 0 <= k < own.len() {
        assert(all[k] == own[k]);
    }
}

proof fn lemma_trait_methods(traits: UniffiTraitMethods, c: Callable)
    ensures
        traits.callables().contains(c) <==> is_trait_method(traits, c),
{
    let a = if_any(traits.display_fmt);
    let b = if_any(traits.debug_fmt);
    let d = if_any(traits.eq_eq);
    let e = if_any(traits.eq_ne);
    let f = if_any(traits.hash_hash);
    let g = if_any(traits.ord_cmp);
    let all = traits.callables();
    if is_trait_method(traits, c) {
        if traits.display_fmt == Some(c) {
            assert(all[0] == c);
        } else if traits.debug_fmt == Some(c) {
            assert(all[0int + a.len()] == c);
        } else if traits.eq_eq == Some(c) {
            assert(all[0int + a.len() + b.len()] == c);
        } else if traits.eq_ne == Some(c) {
            assert(all[0int + a.len() + b.len() + d.len()] == c);
        } else if traits.hash_hash == Some(c) {
            assert(all[0int + a.len() + b.len() + d.len() + e.len()] == c);
        } else {
            assert(all[0int + a.len() + b.len() + d.len() + e.len() + f.len()] == c);
        }
    }
    if all.contains(c) {
        let k = choose|k: int| 0 <= k < all.len() && all[k] == c;
        let ab = a.len() + b.len();
        let abd = ab + d.len();
        let abde = abd + e.len();
        let abdef = abde + f.len();
        if k < a.len() {
            assert(a[k] == c);
        } else if k < ab {
            assert(b[k - a.len()] == c);
        } else if k < abd {
            assert(d[k - ab] == c);
        } else if k < abde {
            assert(e[k - abd] == c);
        } else if k < abdef {
            assert(f[k - abde] == c);
        } else {
            assert(g[k - abdef] == c);
        }
    }
}

/// Every target of the types is that of one definition, and every definition with one has it there.
proof fn lemma_type_targets(definitions: Seq<TypeDefinition>)
    ensures
        forall|t: TargetView| #[trigger]
            type_targets(definitions).contains(t) <==> exists|d: int|
                0 <= d < definitions.len() && (#[trigger] definitions[d]).target() == Some(t),
    decreases definitions.len(),
{
    reveal(Seq::filter_map);
    if definitions.len() > 0 {
        let fewer = definitions.drop_last();
        let before = type_targets(fewer);
        let all = type_targets(definitions);
        let last = definitions.last();
        lemma_type_targets(fewer);
        assert forall|t: TargetView| #[trigger] all.contains(t) <==> exists|d: int|
            0 <= d < definitions.len() && (#[trigger] definitions[d]).target() == Some(t) by {
            if all.contains(t) {
                let k = choose|k: int| 0 <= k < all.len() && all[k] == t;
                if k < before.len() {
                    assert(before[k] == t);
                    assert(before.contains(t));
                    let d = choose|d: int|
                        0 <= d < fewer.len() && (#[trigger] fewer[d]).target() == Some(t);
                    assert(definitions[d].target() == Some(t));
                } else {
                    assert(definitions[definitions.len() - 1].target() == Some(t));
                }
            }
            if exists|d: int|
                0 <= d < definitions.len() && (#[trigger] definitions[d]).target() == Some(t) {
                let d = choose|d: int|
                    0 <= d < definitions.len() && (#[trigger] definitions[d]).target() == Some(t);
                if d < fewer.len() {
                    assert(fewer[d].target() == Some(t));
                    assert(before.contains(t));
                    let k = choose|k: int| 0 <= k < before.len() && before[k] == t;
                    assert(all[k] == t);
                } else {
                    assert(all[before.len() as int] == t);
                }
            }
        }
    }
}

/// The targets of a namespace are those of its functions and of its types.
proof fn lemma_targets(namespace: Namespace, t: TargetView)
    ensures
        namespace.targets().contains(t) <==> {
            ||| exists|f: int|
                0 <= f < namespace.functions@.len() && t == function_target(
                    #[trigger] namespace.functions@[f],
                )
            ||| exists|d: int|
                0 <= d < namespace.type_definitions@.len() && (
                #[trigger] namespace.type_definitions@[d]).target() == Some(t)
        },
{
    let functions = function_targets(namespace.functions@);
    let types = type_targets(namespace.type_definitions@);
    let all = namespace.targets();
    lemma_type_targets(namespace.type_definitions@);
    assert(types.contains(t) <==> exists|d: int|
        0 <= d < namespace.type_definitions@.len() && (
        #[trigger] namespace.type_definitions@[d]).target() == Some(t));
    if all.contains(t) {
        let k = choose|k: int| 0 <= k < all.len() && all[k] == t;
        if k < functions.len() {
            assert(t == function_target(namespace.functions@[k]));
        } else {
            assert(types[k - functions.len()] == t);
        }
    }
    if exists|f: int|
        0 <= f < namespace.functions@.len() && t == function_target(
            #[trigger] namespace.functions@[f],
        ) {
        let f = choose|f: int|
            0 <= f < namespace.functions@.len() && t == function_target(
                #[trigger] namespace.functions@[f],
            );
        assert(all[f] == t);
    }
    if types.contains(t) {
        let k = choose|k: int| 0 <= k < types.len() && types[k] == t;
        assert(all[functions.len() + k] == t);
    }
}

/// The exports of a type are those of its constructors, methods and built-in traits.
proof fn lemma_type_exports_of(
    constructors: Seq<Callable>,
    methods: Seq<Callable>,
    traits: UniffiTraitMethods,
    e: ExportView,
)
    ensures
        callable_exports(constructors + methods + traits.callables()).contains(e) <==> exists|
            c: Callable,
        |
            (constructors.contains(c) || methods.contains(c) || is_trait_method(traits, c))
                && #[trigger] c.export() == e,
{
    let all = constructors + methods + traits.callables();
    let exports = callable_exports(all);
    if exports.contains(e) {
        let k = choose|k: int| 0 <= k < exports.len() && exports[k] == e;
        let c = all[k];
        assert(c.export() == e);
        lemma_trait_methods(traits, c);
        if k < constructors.len() {
            assert(constructors[k] == c);
        } else if k < constructors.len() + methods.len() {
            assert(methods[k - constructors.len()] == c);
        } else {
            assert(traits.callables()[k - constructors.len() - methods.len()] == c);
        }
    }
    if exists|c: Callable|
        (constructors.contains(c) || methods.contains(c) || is_trait_method(traits, c))
            && #[trigger] c.export() == e {
        let c = choose|c: Callable|
            (constructors.contains(c) || methods.contains(c) || is_trait_method(traits, c))
                && #[trigger] c.export() == e;
        lemma_trait_methods(traits, c);
        let k = if constructors.contains(c) {
            choose|k: int| 0 <= k < constructors.len() && constructors[k] == c
        } else if methods.contains(c) {
            constructors.len() + choose|k: int| 0 <= k < methods.len() && methods[k] == c
        } else {
            constructors.len() + methods.len() + choose|k: int|
                0 <= k < traits.callables().len() && traits.callables()[k] == c
        };
        assert(all[k] == c);
        assert(exports[k] == e);
    }
}

/// Whether the namespace declares `callable` so that it can be selected: a function, or a callable of
/// a type that foreign code cannot implement.
pub open spec fn is_open(namespace: Namespace, callable: Callable) -> bool {
    ||| namespace.functions@.contains(callable)
    ||| exists|d: int|
        0 <= d < namespace.type_definitions@.len() && (is_open_member(
            #[trigger] namespace.type_definitions@[d],
            callable,
        ) || is_open_trait_method(namespace.type_definitions@[d], callable))
}

/// Whether the namespace declares `callable` as a function, a constructor or a method of a type that
/// foreign code cannot implement. Where a type has neither constructors nor methods, those of its
/// built-in traits count.
pub open spec fn is_open_callable(namespace: Namespace, callable: Callable) -> bool {
    ||| namespace.functions@.contains(callable)
    ||| exists|d: int|
        0 <= d < namespace.type_definitions@.len() && {
            ||| is_open_member(#[trigger] namespace.type_definitions@[d], callable)
            ||| has_no_members(namespace.type_definitions@[d]) && is_open_trait_method(
                namespace.type_definitions@[d],
                callable,
            )
        }
}

/// Selecting everything selects the symbol of every callable that is declared and cannot be
/// implemented by foreign code, with the adapter that polls it if it is `async`, and nothing else.
pub proof fn law_all_selects_all_symbols_and_adapters(namespace: Namespace, s: Seq<char>)
    ensures
        selected(JspiSelection::All(true), namespace.targets()) matches Ok(set) && (set.contains(s)
            <==> exists|c: Callable| #[trigger] is_open(namespace, c) && is_symbol_of(c, s)),
{
    let targets = namespace.targets();
    let selection = JspiSelection::All(true);
    law_names_fail_before_exclusions(selection, targets);
    law_selectors_are_taken_from_first_to_last(Seq::empty(), Seq::empty(), targets);
    law_exports_are_selected_with_their_poll_adapters(selection, targets, s);
    assert forall|e: ExportView| #[trigger]
        starts_with_export(selection, targets, e) <==> exists|c: Callable|
            is_open(namespace, c) && #[trigger] c.export() == e by {
        lemma_all_means(namespace, e);
    }
    let set = selected(selection, targets)->Ok_0;
    if set.contains(s) {
        let e = choose|e: ExportView|
            {
                &&& #[trigger] starts_with_export(selection, targets, e) || is_exported_by(
                    resolved_all(names_of(selection), targets).chosen,
                    e,
                )
                &&& !is_exported_by(resolved_all(exclusions_of(selection), targets).chosen, e)
                &&& s == e.symbol || (e.poll matches Some(poll) && s == poll + "_jspi"@)
            };
        let c = choose|c: Callable| is_open(namespace, c) && #[trigger] c.export() == e;
        assert(is_open(namespace, c) && is_symbol_of(c, s));
    }
    if exists|c: Callable| #[trigger] is_open(namespace, c) && is_symbol_of(c, s) {
        let c = choose|c: Callable| #[trigger] is_open(namespace, c) && is_symbol_of(c, s);
        let e = c.export();
        assert(starts_with_export(selection, targets, e));
        assert(!is_exported_by(resolved_all(exclusions_of(selection), targets).chosen, e));
    }
}

proof fn lemma_all_means(namespace: Namespace, e: ExportView)
    ensures
        starts_with_export(JspiSelection::All(true), namespace.targets(), e) <==> exists|
            c: Callable,
        |
            is_open(namespace, c) && #[trigger] c.export() == e,
{
    let targets = namespace.targets();
    if starts_with_export(JspiSelection::All(true), targets, e) {
        let i = choose|i: int|
            0 <= i < targets.len() && !(#[trigger] targets[i]).has_callbacks
                && targets[i].exports.contains(e);
        let t = targets[i];
        assert(targets.contains(t));
        lemma_targets(namespace, t);
        lemma_open_target(namespace, t, e);
    }
    if exists|c: Callable| is_open(namespace, c) && #[trigger] c.export() == e {
        let c = choose|c: Callable| is_open(namespace, c) && #[trigger] c.export() == e;
        let t = lemma_open_has_target(namespace, c);
        let i = choose|i: int| 0 <= i < targets.len() && targets[i] == t;
        assert(!targets[i].has_callbacks && targets[i].exports.contains(e));
    }
}

/// What a target exports that can suspend, a callable that is declared exports.
proof fn lemma_open_target(namespace: Namespace, t: TargetView, e: ExportView)
    requires
        namespace.targets().contains(t),
        !t.has_callbacks,
        t.exports.contains(e),
    ensures
        exists|c: Callable| is_open(namespace, c) && #[trigger] c.export() == e,
{
    lemma_targets(namespace, t);
    if exists|f: int|
        0 <= f < namespace.functions@.len() && t == function_target(
            #[trigger] namespace.functions@[f],
        ) {
        let f = choose|f: int|
            0 <= f < namespace.functions@.len() && t == function_target(
                #[trigger] namespace.functions@[f],
            );
        let c = namespace.functions@[f];
        assert(t.exports[0] == c.export());
        assert(e == c.export());
        assert(namespace.functions@.contains(c));
        assert(is_open(namespace, c));
    } else {
        let d = choose|d: int|
            0 <= d < namespace.type_definitions@.len() && (
            #[trigger] namespace.type_definitions@[d]).target() == Some(t);
        let definition = namespace.type_definitions@[d];
        let (constructors, methods, traits) = parts_of(definition);
        assert(t.exports == callable_exports(constructors + methods + traits.callables()));
        lemma_type_exports_of(constructors, methods, traits, e);
        let c = choose|c: Callable|
            (constructors.contains(c) || methods.contains(c) || is_trait_method(traits, c))
                && #[trigger] c.export() == e;
        assert(is_open_member(definition, c) || is_open_trait_method(definition, c));
        assert(is_open(namespace, c));
    }
}

/// The constructors, methods and built-in traits of a type that has any.
spec fn parts_of(definition: TypeDefinition) -> (Seq<Callable>, Seq<Callable>, UniffiTraitMethods) {
    match definition {
        TypeDefinition::Interface(i) => (i.constructors@, i.methods@, i.uniffi_trait_methods),
        TypeDefinition::Record(r) => (r.constructors@, r.methods@, r.uniffi_trait_methods),
        TypeDefinition::Enum(e) => (e.constructors@, e.methods@, e.uniffi_trait_methods),
        _ => arbitrary(),
    }
}

proof fn lemma_open_has_target(namespace: Namespace, c: Callable) -> (t: TargetView)
    requires
        is_open(namespace, c),
    ensures
        namespace.targets().contains(t),
        !t.has_callbacks,
        t.exports.contains(c.export()),
{
    if namespace.functions@.contains(c) {
        let f = choose|f: int|
            0 <= f < namespace.functions@.len() && namespace.functions@[f] == c;
        let t = function_target(namespace.functions@[f]);
        lemma_targets(namespace, t);
        assert(t.exports[0] == c.export());
        t
    } else {
        let d = choose|d: int|
            0 <= d < namespace.type_definitions@.len() && (is_open_member(
                #[trigger] namespace.type_definitions@[d],
                c,
            ) || is_open_trait_method(namespace.type_definitions@[d], c));
        let definition = namespace.type_definitions@[d];
        let t = definition.target()->0;
        let (constructors, methods, traits) = parts_of(definition);
        lemma_targets(namespace, t);
        assert(t.exports == callable_exports(constructors + methods + traits.callables()));
        lemma_type_exports_of(constructors, methods, traits, c.export());
        t
    }
}

/// Asking for what is `async` in Rust, and nothing else, selects both symbols of every `async`
/// function, constructor and method that foreign code cannot implement, whatever its kind, and
/// nothing else.
pub proof fn law_rust_async_selects_symbols_and_adapters(
    selection: JspiSelection,
    namespace: Namespace,
    s: Seq<char>,
)
    requires
        selection matches JspiSelection::Options(options) && options.rust_async
            && options.included@.len() == 0 && options.excluded@.len() == 0,
    ensures
        selected(selection, namespace.targets()) matches Ok(set) && (set.contains(s) <==> exists|
            c: Callable,
        | #[trigger]
            is_open_callable(namespace, c) && c.async_data is Some && is_symbol_of(c, s)),
{
    let targets = namespace.targets();
    assert(names_of(selection) =~= Seq::<Seq<char>>::empty());
    assert(exclusions_of(selection) =~= Seq::<Seq<char>>::empty());
    law_names_fail_before_exclusions(selection, targets);
    law_selectors_are_taken_from_first_to_last(Seq::empty(), Seq::empty(), targets);
    law_exports_are_selected_with_their_poll_adapters(selection, targets, s);
    assert forall|e: ExportView| #[trigger]
        starts_with_export(selection, targets, e) <==> exists|c: Callable|
            is_open_callable(namespace, c) && c.async_data is Some && #[trigger] c.export() == e by {
        lemma_rust_async_means(selection, namespace, e);
    }
    let set = selected(selection, targets)->Ok_0;
    if set.contains(s) {
        let e = choose|e: ExportView|
            {
                &&& #[trigger] starts_with_export(selection, targets, e) || is_exported_by(
                    resolved_all(names_of(selection), targets).chosen,
                    e,
                )
                &&& !is_exported_by(resolved_all(exclusions_of(selection), targets).chosen, e)
                &&& s == e.symbol || (e.poll matches Some(poll) && s == poll + "_jspi"@)
            };
        let c = choose|c: Callable|
            is_open_callable(namespace, c) && c.async_data is Some && #[trigger] c.export() == e;
        assert(is_open_callable(namespace, c) && is_symbol_of(c, s));
    }
    if exists|c: Callable| #[trigger]
        is_open_callable(namespace, c) && c.async_data is Some && is_symbol_of(c, s) {
        let c = choose|c: Callable| #[trigger]
            is_open_callable(namespace, c) && c.async_data is Some && is_symbol_of(c, s);
        let e = c.export();
        assert(starts_with_export(selection, targets, e));
        assert(!is_exported_by(resolved_all(exclusions_of(selection), targets).chosen, e));
    }
}

proof fn lemma_rust_async_means(selection: JspiSelection, namespace: Namespace, e: ExportView)
    requires
        selection matches JspiSelection::Options(options) && options.rust_async,
    ensures
        starts_with_export(selection, namespace.targets(), e) <==> exists|c: Callable|
            is_open_callable(namespace, c) && c.async_data is Some && #[trigger] c.export() == e,
{
    let targets = namespace.targets();
    if starts_with_export(selection, targets, e) {
        let i = choose|i: int|
            0 <= i < targets.len() && {
                ||| (#[trigger] targets[i]).members.len() == 0 && !targets[i].has_callbacks
                    && targets[i].exports.contains(e)
                ||| exists|j: int|
                    0 <= j < targets[i].members.len() && !(
                    #[trigger] targets[i].members[j]).has_callbacks
                        && targets[i].members[j].exports.contains(e)
            };
        let t = targets[i];
        assert(targets.contains(t));
        lemma_targets(namespace, t);
        if exists|f: int|
            0 <= f < namespace.functions@.len() && t == function_target(
                #[trigger] namespace.functions@[f],
            ) {
            let f = choose|f: int|
                0 <= f < namespace.functions@.len() && t == function_target(
                    #[trigger] namespace.functions@[f],
                );
            let c = namespace.functions@[f];
            assert(t.exports[0] == c.export());
            assert(e == c.export());
            assert(namespace.functions@.contains(c));
            assert(is_open_callable(namespace, c));
        } else {
            let d = choose|d: int|
                0 <= d < namespace.type_definitions@.len() && (
                #[trigger] namespace.type_definitions@[d]).target() == Some(t);
            let definition = namespace.type_definitions@[d];
            if t.members.len() == 0 {
                let (constructors, methods, traits) = parts_of(definition);
                assert(!(definition is CallbackInterface));
                assert(t.exports == callable_exports(constructors + methods + traits.callables()));
                lemma_type_exports_of(constructors, methods, traits, e);
                let c = choose|c: Callable|
                    (constructors.contains(c) || methods.contains(c) || is_trait_method(traits, c))
                        && #[trigger] c.export() == e;
                assert(has_no_members(definition));
                assert(is_open_member(definition, c) || is_open_trait_method(definition, c));
                assert(is_open_callable(namespace, c));
            } else {
                let j = choose|j: int|
                    0 <= j < t.members.len() && !(#[trigger] t.members[j]).has_callbacks
                        && t.members[j].exports.contains(e);
                let (constructors, methods, traits) = parts_of(definition);
                let own = constructors + methods;
                let c = own[j];
                assert(t.members[j].exports == seq![c.export()]);
                assert(e == c.export());
                if j < constructors.len() {
                    assert(constructors[j] == c);
                } else {
                    assert(methods[j - constructors.len()] == c);
                }
                assert(is_open_member(definition, c));
                assert(is_open_callable(namespace, c));
            }
        }
    }
    if exists|c: Callable|
        is_open_callable(namespace, c) && c.async_data is Some && #[trigger] c.export() == e {
        let c = choose|c: Callable|
            is_open_callable(namespace, c) && c.async_data is Some && #[trigger] c.export() == e;
        if namespace.functions@.contains(c) {
            let f = choose|f: int|
                0 <= f < namespace.functions@.len() && namespace.functions@[f] == c;
            let t = function_target(namespace.functions@[f]);
            lemma_targets(namespace, t);
            let i = choose|i: int| 0 <= i < targets.len() && targets[i] == t;
            assert(targets[i].exports[0] == e);
            assert(targets[i].members.len() == 0);
            assert(targets[i].exports.contains(e));
        } else {
            let d = choose|d: int|
                0 <= d < namespace.type_definitions@.len() && {
                    ||| is_open_member(#[trigger] namespace.type_definitions@[d], c)
                    ||| has_no_members(namespace.type_definitions@[d]) && is_open_trait_method(
                        namespace.type_definitions@[d],
                        c,
                    )
                };
            let definition = namespace.type_definitions@[d];
            let t = definition.target()->0;
            let (constructors, methods, traits) = parts_of(definition);
            lemma_targets(namespace, t);
            let i = choose|i: int| 0 <= i < targets.len() && targets[i] == t;
            if is_open_member(definition, c) {
                let own = constructors + methods;
                let j = if constructors.contains(c) {
                    choose|j: int| 0 <= j < constructors.len() && constructors[j] == c
                } else {
                    constructors.len() + choose|j: int| 0 <= j < methods.len() && methods[j] == c
                };
                assert(own[j] == c);
                assert(targets[i].members[j].exports == seq![c.export()]);
                assert(targets[i].members[j].exports[0] == e);
                assert(targets[i].members[j].exports.contains(e));
                assert(!targets[i].members[j].has_callbacks);
            } else {
                assert(t.exports == callable_exports(constructors + methods + traits.callables()));
                lemma_type_exports_of(constructors, methods, traits, e);
                assert(targets[i].members.len() == 0);
                assert(targets[i].exports.contains(e));
            }
        }
    }
}

/// Whether `callable` is selected by `name`: a constructor by `constructor` if it is the primary one,
/// and any other callable by its own name.
pub open spec fn is_called(callable: Callable, name: Seq<char>) -> bool {
    ||| name == callable.name@
    ||| callable.kind == (CallableKind::Constructor { primary: true }) && name == "constructor"@
}

/// The name of a type, if there is anything to select of it.
pub open spec fn name_of_type(definition: TypeDefinition) -> Option<Seq<char>> {
    match definition {
        TypeDefinition::Interface(i) => Some(i.name@),
        TypeDefinition::Record(r) => Some(r.name@),
        TypeDefinition::Enum(e) => Some(e.name@),
        TypeDefinition::CallbackInterface(c) => Some(c.name@),
        TypeDefinition::Other => None,
    }
}

/// A selector that names one callable, a function or a member, selects its symbol, with the adapter
/// that polls it if it is `async`, and nothing else, whatever kind of callable it is.
pub proof fn law_naming_a_callable_selects_symbol_and_adapter(
    selector: String,
    selection: JspiSelection,
    namespace: Namespace,
    name: Seq<char>,
)
    requires
        selection matches JspiSelection::Named(names) && names@ == seq![selector],
        resolved(selector@, namespace.targets()) matches Ok(chosen) && chosen.name == name,
        parsed(selector@) matches Some(parts) && (parts.member is Some || forall|d: int|
            0 <= d < namespace.type_definitions@.len() ==> name_of_type(
                #[trigger] namespace.type_definitions@[d],
            ) != Some(name)),
    ensures
        exists|c: Callable| #[trigger]
            is_open_callable(namespace, c) && is_called(c, name) && selected(
                selection,
                namespace.targets(),
            ) is Ok && forall|s: Seq<char>| #[trigger]
                selected(selection, namespace.targets())->Ok_0.contains(s) <==> is_symbol_of(c, s),
{
    let targets = namespace.targets();
    let names = selection->Named_0@;
    let chosen = resolved(selector@, targets)->Ok_0;
    assert(texts(names) =~= seq![selector@] + Seq::<Seq<char>>::empty());
    law_selectors_are_taken_from_first_to_last(selector@, Seq::empty(), targets);
    law_names_fail_before_exclusions(selection, targets);
    let picks = resolved_all(names_of(selection), targets).chosen;
    assert(picks =~= seq![chosen]);
    let c = lemma_resolved_callable(selector@, namespace);
    let e = c.export();
    assert(chosen.exports == seq![e]);
    assert forall|x: ExportView| #[trigger] is_exported_by(picks, x) <==> x == e by {
        if is_exported_by(picks, x) {
            let k = choose|k: CallableView| #[trigger] picks.contains(k) && k.exports.contains(x);
            assert(k == chosen);
            assert(chosen.exports.contains(x));
        }
        if x == e {
            assert(picks[0] == chosen);
            assert(picks.contains(chosen));
            assert(chosen.exports[0] == e);
            assert(chosen.exports.contains(x));
        }
    }
    assert forall|s: Seq<char>| #[trigger]
        selected(selection, targets)->Ok_0.contains(s) <==> is_symbol_of(c, s) by {
        law_exports_are_selected_with_their_poll_adapters(selection, targets, s);
        if selected(selection, targets)->Ok_0.contains(s) {
            let x = choose|x: ExportView|
                {
                    &&& #[trigger] starts_with_export(selection, targets, x) || is_exported_by(
                        resolved_all(names_of(selection), targets).chosen,
                        x,
                    )
                    &&& !is_exported_by(resolved_all(exclusions_of(selection), targets).chosen, x)
                    &&& s == x.symbol || (x.poll matches Some(poll) && s == poll + "_jspi"@)
                };
            assert(x == e);
        }
        if is_symbol_of(c, s) {
            assert(!starts_with_export(selection, targets, e));
            assert(is_exported_by(picks, e));
            assert(!is_exported_by(resolved_all(exclusions_of(selection), targets).chosen, e));
        }
    }
    assert(is_open_callable(namespace, c) && is_called(c, name));
}

/// A selector that resolves to a function or a member resolves to a callable that is declared.
proof fn lemma_resolved_callable(selector: Seq<char>, namespace: Namespace) -> (c: Callable)
    requires
        resolved(selector, namespace.targets()) is Ok,
        parsed(selector) matches Some(parts) && (parts.member is Some || forall|d: int|
            0 <= d < namespace.type_definitions@.len() ==> name_of_type(
                #[trigger] namespace.type_definitions@[d],
            ) != Some(resolved(selector, namespace.targets())->Ok_0.name)),
    ensures
        is_open_callable(namespace, c),
        is_called(c, resolved(selector, namespace.targets())->Ok_0.name),
        resolved(selector, namespace.targets())->Ok_0.exports == seq![c.export()],
{
    let targets = namespace.targets();
    let chosen = resolved(selector, targets)->Ok_0;
    let parts = parsed(selector)->0;
    let hits = name_hits(top_level(targets), parts.owner);
    lemma_sole_is_sole(hits);
    lemma_sole_is_sole(callable_hits(targets, hits));
    let i = owner_choice(selector, parts.owner, targets, hits)->Ok_0;
    let t = targets[i];
    assert(targets.contains(t));
    lemma_targets(namespace, t);
    if let Some(member) = parts.member {
        let among = name_hits(t.members, member);
        lemma_sole_is_sole(among);
        let j = member_choice(selector, parts.owner, member, among)->Ok_0;
        assert(chosen == t.members[j]);
        let d = choose|d: int|
            0 <= d < namespace.type_definitions@.len() && (
            #[trigger] namespace.type_definitions@[d]).target() == Some(t);
        let definition = namespace.type_definitions@[d];
        let (constructors, methods, traits) = parts_of(definition);
        let own = constructors + methods;
        let c = own[j];
        if j < constructors.len() {
            assert(constructors[j] == c);
        } else {
            assert(methods[j - constructors.len()] == c);
        }
        assert(is_open_member(definition, c));
        c
    } else {
        assert(chosen == t.callable());
        if exists|d: int|
            0 <= d < namespace.type_definitions@.len() && (
            #[trigger] namespace.type_definitions@[d]).target() == Some(t) {
            let d = choose|d: int|
                0 <= d < namespace.type_definitions@.len() && (
                #[trigger] namespace.type_definitions@[d]).target() == Some(t);
            assert(name_of_type(namespace.type_definitions@[d]) == Some(t.name));
        }
        let f = choose|f: int|
            0 <= f < namespace.functions@.len() && t == function_target(
                #[trigger] namespace.functions@[f],
            );
        let c = namespace.functions@[f];
        assert(namespace.functions@.contains(c));
        c
    }
}

/// Whether wasm2 passes values of the type: a number, a handle or a buffer.
pub open spec fn is_passed(ty: FfiType) -> bool {
    ||| ty == FfiType::UInt8
    ||| ty == FfiType::Int8
    ||| ty == FfiType::UInt16
    ||| ty == FfiType::Int16
    ||| ty == FfiType::UInt32
    ||| ty == FfiType::Int32
    ||| ty == FfiType::UInt64
    ||| ty == FfiType::Int64
    ||| ty == FfiType::Float32
    ||| ty == FfiType::Float64
    ||| ty == FfiType::Handle
    ||| ty == FfiType::RustBuffer
}

/// Whether wasm2 passes every argument of the function and what it returns.
pub open spec fn is_passed_whole(function: FfiFunction) -> bool {
    &&& forall|i: int|
        0 <= i < function.arguments@.len() ==> is_passed(#[trigger] function.arguments@[i])
    &&& function.return_type matches Some(ty) ==> is_passed(ty)
}

/// Arguments and results are held to one and the same test: a function is eligible exactly if each
/// of them is a number, a handle or a buffer.
pub proof fn law_arguments_and_results_pass_the_same_test(function: FfiFunction)
    ensures
        function.eligible() <==> is_passed_whole(function),
        forall|ty: FfiType| #[trigger] ty.crosses() <==> is_passed(ty),
{
    assert forall|ty: FfiType| #[trigger] ty.crosses() <==> is_passed(ty) by {}
    if function.eligible() {
        assert forall|i: int| 0 <= i < function.arguments@.len() implies is_passed(
            #[trigger] function.arguments@[i],
        ) by {
            assert(function.arguments@[i].crosses());
        }
    }
    if is_passed_whole(function) {
        assert forall|i: int| 0 <= i < function.arguments@.len() implies (
        #[trigger] function.arguments@[i]).crosses() by {
            assert(is_passed(function.arguments@[i]));
        }
    }
}

/// A symbol is eligible exactly if a Rust function of that name is defined that wasm2 passes whole.
pub proof fn law_eligible_symbols_are_those_of_functions(
    definitions: Seq<FfiDefinition>,
    s: Seq<char>,
)
    ensures
        eligible_symbols(definitions).contains(s) <==> exists|i: int|
            0 <= i < definitions.len() && (
            #[trigger] definitions[i] matches FfiDefinition::RustFunction(f) && f.name@ == s
                && is_passed_whole(f)),
{
    if eligible_symbols(definitions).contains(s) {
        let i = choose|i: int|
            0 <= i < definitions.len() && #[trigger] defines_eligible(
                definitions[i],
                s,
            );
        law_arguments_and_results_pass_the_same_test(definitions[i]->RustFunction_0);
        assert(definitions[i] matches FfiDefinition::RustFunction(f) && f.name@ == s
            && is_passed_whole(f));
    }
    if exists|i: int|
        0 <= i < definitions.len() && (
        #[trigger] definitions[i] matches FfiDefinition::RustFunction(f) && f.name@ == s
            && is_passed_whole(f)) {
        let i = choose|i: int|
            0 <= i < definitions.len() && (
            #[trigger] definitions[i] matches FfiDefinition::RustFunction(f) && f.name@ == s
                && is_passed_whole(f));
        law_arguments_and_results_pass_the_same_test(definitions[i]->RustFunction_0);
        assert(defines_eligible(definitions[i], s));
    }
}

/// For wasm2, a target and each of its members may suspend exactly if it may on the web and all that
/// it exports itself is eligible. Nothing else about them changes.
pub proof fn law_wasm2_bars_what_is_not_eligible(namespace: Namespace, i: int, j: int)
    requires
        0 <= i < namespace.targets().len(),
    ensures
        ({
            let eligible = eligible_symbols(namespace.ffi_definitions@);
            let web = namespace.targets()[i];
            let narrow = namespace.wasm2_targets()[i];
            &&& namespace.wasm2_targets().len() == namespace.targets().len()
            &&& narrow.name == web.name
            &&& narrow.exports == web.exports
            &&& narrow.members.len() == web.members.len()
            &&& narrow.has_callbacks <==> web.has_callbacks || exists|k: int|
                0 <= k < web.exports.len() && !eligible.contains((#[trigger] web.exports[k]).symbol)
            &&& 0 <= j < web.members.len() ==> {
                let member = web.members[j];
                &&& narrow.members[j].name == member.name
                &&& narrow.members[j].exports == member.exports
                &&& narrow.members[j].has_callbacks <==> member.has_callbacks || exists|k: int|
                    0 <= k < member.exports.len() && !eligible.contains(
                        (#[trigger] member.exports[k]).symbol,
                    )
            }
        }),
{
    let eligible = eligible_symbols(namespace.ffi_definitions@);
    let web = namespace.targets()[i];
    assert(namespace.wasm2_targets()[i] == web.restricted(eligible));
    if 0 <= j < web.members.len() {
        assert(web.restricted(eligible).members[j] == web.members[j].restricted(eligible));
        let exports = web.members[j].exports;
        assert(!all_eligible(exports, eligible) ==> exists|k: int|
            0 <= k < exports.len() && !eligible.contains((#[trigger] exports[k]).symbol));
    }
    assert(!all_eligible(web.exports, eligible) ==> exists|k: int|
        0 <= k < web.exports.len() && !eligible.contains((#[trigger] web.exports[k]).symbol));
}

/// Whether the namespace declares `callable`, as a function or in a type, whoever implements it.
pub open spec fn is_declared(namespace: Namespace, callable: Callable) -> bool {
    ||| namespace.functions@.contains(callable)
    ||| exists|d: int|
        0 <= d < namespace.type_definitions@.len()
            && match #[trigger] namespace.type_definitions@[d] {
            TypeDefinition::Interface(i) => i.constructors@.contains(callable)
                || i.methods@.contains(callable) || is_trait_method(
                i.uniffi_trait_methods,
                callable,
            ),
            TypeDefinition::Record(r) => r.constructors@.contains(callable) || r.methods@.contains(
                callable,
            ) || is_trait_method(r.uniffi_trait_methods, callable),
            TypeDefinition::Enum(e) => e.constructors@.contains(callable) || e.methods@.contains(
                callable,
            ) || is_trait_method(e.uniffi_trait_methods, callable),
            _ => false,
        }
}

/// Where every callable is exported by a function that takes and returns nothing but numbers, handles
/// and buffers, a wasm2 build selects exactly what any web build selects.
pub proof fn law_wasm2_equals_web_on_what_it_passes(selection: JspiSelection, namespace: Namespace)
    requires
        forall|c: Callable| #[trigger]
            is_declared(namespace, c) ==> exists|i: int|
                0 <= i < namespace.ffi_definitions@.len() && (
                #[trigger] namespace.ffi_definitions@[i] matches FfiDefinition::RustFunction(f)
                    && f.name@ == c.ffi_func@),
        forall|i: int|
            0 <= i < namespace.ffi_definitions@.len() ==> (
            #[trigger] namespace.ffi_definitions@[i] matches FfiDefinition::RustFunction(f)
                ==> is_passed_whole(f)),
    ensures
        selected(selection, namespace.wasm2_targets()) == selected(selection, namespace.targets()),
{
    let eligible = eligible_symbols(namespace.ffi_definitions@);
    assert forall|c: Callable| #[trigger] namespace.declares(c) implies eligible.contains(
        c.ffi_func@,
    ) by {
        lemma_declares(namespace, c);
        let i = choose|i: int|
            0 <= i < namespace.ffi_definitions@.len() && (
            #[trigger] namespace.ffi_definitions@[i] matches FfiDefinition::RustFunction(f)
                && f.name@ == c.ffi_func@);
        assert(namespace.ffi_definitions@[i] matches FfiDefinition::RustFunction(f) && f.name@
            == c.ffi_func@ && is_passed_whole(f));
        law_eligible_symbols_are_those_of_functions(namespace.ffi_definitions@, c.ffi_func@);
    }
    law_wasm2_agrees_where_all_is_eligible(selection, namespace);
}

proof fn lemma_declares(namespace: Namespace, c: Callable)
    requires
        namespace.declares(c),
    ensures
        is_declared(namespace, c),
{
    if !namespace.functions@.contains(c) {
        let d = choose|d: int|
            0 <= d < namespace.type_definitions@.len() && (
            #[trigger] namespace.type_definitions@[d]).declared().contains(c);
        let definition = namespace.type_definitions@[d];
        let (constructors, methods, traits) = parts_of(definition);
        let all = constructors + methods + traits.callables();
        assert(definition.declared() == all);
        let k = choose|k: int| 0 <= k < all.len() && all[k] == c;
        lemma_trait_methods(traits, c);
        if k < constructors.len() {
            assert(constructors[k] == c);
        } else if k < constructors.len() + methods.len() {
            assert(methods[k - constructors.len()] == c);
        } else {
            assert(traits.callables()[k - constructors.len() - methods.len()] == c);
        }
    }
}

} // verus!
