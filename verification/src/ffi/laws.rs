//! What holds of the definitions that the bindings declare for any component.

use vstd::prelude::*;

use crate::ffi::definitions::{
    callback_at, callback_definition, callback_fields, callback_index, callback_part, declared,
    declares_callback, declares_struct, field_callback, fields_are_complete, is_callback,
    method_module, methods, needs_callback, needs_struct, own_callbacks, struct_at,
    struct_definitions, struct_index, struct_part, DefinitionView, Traffic,
};
use crate::ffi::roles::{CallbackRole, FfiCallbackFunction, FfiDefinition, FfiField};

verus! {

/// The methods of a struct are exactly its fields that point to callbacks, so each name that its
/// list of methods gives has a module.
pub proof fn law_methods_are_the_callback_fields(
    fields: Seq<FfiField>,
    struct_module: Seq<char>,
    definitions: Seq<FfiDefinition>,
    modules: Seq<Seq<char>>,
    name: Seq<char>,
)
    requires
        fields_are_complete(fields, definitions),
    ensures
        methods(fields, struct_module, definitions, modules).dom().contains(name)
            <==> callback_fields(fields).contains(name),
    decreases fields.len(),
{
    reveal(Seq::filter);
    if fields.len() == 0 {
        assert(callback_fields(fields) =~= Seq::<Seq<char>>::empty());
    } else {
        let fewer = fields.drop_last();
        let last = fields.last();
        assert forall|f: int|
            0 <= f < fewer.len() && (#[trigger] fewer[f]).type_ is Callback implies field_callback(
            fewer[f],
            definitions,
        ) is Some by {
            assert(fields[f] == fewer[f]);
        }
        law_methods_are_the_callback_fields(fewer, struct_module, definitions, modules, name);
        let before = callback_fields(fewer);
        let after = callback_fields(fields);
        if last.type_ is Callback {
            assert(fields[fields.len() - 1].type_ is Callback);
            assert(after =~= before.push(last.name@));
            if before.contains(name) {
                let i = choose|i: int| 0 <= i < before.len() && before[i] == name;
                assert(after[i] == name);
            }
            if after.contains(name) {
                let i = choose|i: int| 0 <= i < after.len() && after[i] == name;
                if i < before.len() {
                    assert(before[i] == name);
                }
            }
            assert(after[before.len() as int] == last.name@);
        } else {
            assert(after =~= before);
        }
    }
}

proof fn lemma_own_callbacks(
    fields: Seq<FfiField>,
    struct_module: Seq<char>,
    definitions: Seq<FfiDefinition>,
    modules: Seq<Seq<char>>,
    k: int,
)
    requires
        0 <= k < own_callbacks(fields, struct_module, definitions, modules).len(),
    ensures
        own_callbacks(fields, struct_module, definitions, modules)[k] matches
            DefinitionView::CallbackFunction { module_ident, callback } && (callback.role()
            == CallbackRole::Free || callback.role() == CallbackRole::Clone),
    decreases fields.len(),
{
    if fields.len() > 0 {
        let fewer = own_callbacks(fields.drop_last(), struct_module, definitions, modules);
        if k < fewer.len() {
            lemma_own_callbacks(fields.drop_last(), struct_module, definitions, modules, k);
        }
    }
}

/// Whether a component with the given traffic has use for the definition.
pub open spec fn is_needed(definition: DefinitionView, traffic: Traffic) -> bool {
    match definition {
        DefinitionView::Struct { ffi_struct, methods } => needs_struct(ffi_struct, traffic),
        DefinitionView::FunctionLiteral { module_ident, callback } => needs_callback(
            callback,
            traffic,
        ),
        DefinitionView::CallbackFunction { module_ident, callback } => callback.role()
            == CallbackRole::Free || callback.role() == CallbackRole::Clone || needs_callback(
            callback,
            traffic,
        ),
    }
}

proof fn lemma_struct_part(
    n: nat,
    definitions: Seq<FfiDefinition>,
    modules: Seq<Seq<char>>,
    traffic: Traffic,
    k: int,
)
    requires
        n <= definitions.len(),
        0 <= k < struct_part(n, definitions, modules, traffic).len(),
    ensures
        is_needed(struct_part(n, definitions, modules, traffic)[k], traffic),
    decreases n,
{
    if n > 0 {
        let i = n - 1;
        let before = struct_part(i as nat, definitions, modules, traffic);
        if k < before.len() {
            lemma_struct_part(i as nat, definitions, modules, traffic, k);
        } else {
            let fields = struct_at(definitions, i).fields@;
            let own = own_callbacks(fields, modules[i], definitions, modules);
            if k - before.len() < own.len() {
                lemma_own_callbacks(fields, modules[i], definitions, modules, k - before.len());
            }
        }
    }
}

proof fn lemma_callback_part(
    n: nat,
    definitions: Seq<FfiDefinition>,
    modules: Seq<Seq<char>>,
    traffic: Traffic,
    k: int,
)
    requires
        n <= definitions.len(),
        0 <= k < callback_part(n, definitions, modules, traffic).len(),
    ensures
        is_needed(callback_part(n, definitions, modules, traffic)[k], traffic),
    decreases n,
{
    if n > 0 {
        let before = callback_part((n - 1) as nat, definitions, modules, traffic);
        if k < before.len() {
            lemma_callback_part((n - 1) as nat, definitions, modules, traffic, k);
        }
    }
}

/// Nothing is declared that the component has no use for: no table of methods without callbacks,
/// nothing about foreign futures without `async` callbacks, no continuation without `async` calls.
pub proof fn law_only_what_is_needed_is_declared(
    definitions: Seq<FfiDefinition>,
    modules: Seq<Seq<char>>,
    traffic: Traffic,
    k: int,
)
    requires
        0 <= k < declared(definitions, modules, traffic).len(),
    ensures
        is_needed(declared(definitions, modules, traffic)[k], traffic),
{
    let structs = struct_part(definitions.len(), definitions, modules, traffic);
    if k < structs.len() {
        lemma_struct_part(definitions.len(), definitions, modules, traffic, k);
    } else {
        lemma_callback_part(definitions.len(), definitions, modules, traffic, k - structs.len());
    }
}

proof fn lemma_struct_part_holds(
    n: nat,
    definitions: Seq<FfiDefinition>,
    modules: Seq<Seq<char>>,
    traffic: Traffic,
    i: int,
    d: int,
)
    requires
        0 <= i < n <= definitions.len(),
        declares_struct(definitions, traffic, i),
        0 <= d < struct_definitions(i, definitions, modules).len(),
    ensures
        struct_part(n, definitions, modules, traffic).contains(
            struct_definitions(i, definitions, modules)[d],
        ),
    decreases n,
{
    let before = struct_part((n - 1) as nat, definitions, modules, traffic);
    let after = struct_part(n, definitions, modules, traffic);
    let wanted = struct_definitions(i, definitions, modules)[d];
    if i == n - 1 {
        assert(after[before.len() + d] == wanted);
    } else {
        lemma_struct_part_holds((n - 1) as nat, definitions, modules, traffic, i, d);
        let k = choose|k: int| 0 <= k < before.len() && before[k] == wanted;
        assert(after[k] == wanted);
    }
}

/// Every struct that the component needs is declared, with the callbacks that free and clone it.
pub proof fn law_every_needed_struct_is_declared(
    definitions: Seq<FfiDefinition>,
    modules: Seq<Seq<char>>,
    traffic: Traffic,
    i: int,
    d: int,
)
    requires
        0 <= i < definitions.len(),
        declares_struct(definitions, traffic, i),
        0 <= d < struct_definitions(i, definitions, modules).len(),
    ensures
        declared(definitions, modules, traffic).contains(
            struct_definitions(i, definitions, modules)[d],
        ),
{
    let structs = struct_part(definitions.len(), definitions, modules, traffic);
    let all = declared(definitions, modules, traffic);
    let wanted = struct_definitions(i, definitions, modules)[d];
    lemma_struct_part_holds(definitions.len(), definitions, modules, traffic, i, d);
    let k = choose|k: int| 0 <= k < structs.len() && structs[k] == wanted;
    assert(all[k] == wanted);
}

proof fn lemma_callback_part_holds(
    n: nat,
    definitions: Seq<FfiDefinition>,
    modules: Seq<Seq<char>>,
    traffic: Traffic,
    i: int,
)
    requires
        0 <= i < n <= definitions.len(),
        declares_callback(definitions, traffic, i),
    ensures
        callback_part(n, definitions, modules, traffic).contains(
            callback_definition(i, definitions, modules),
        ),
    decreases n,
{
    let before = callback_part((n - 1) as nat, definitions, modules, traffic);
    let after = callback_part(n, definitions, modules, traffic);
    let wanted = callback_definition(i, definitions, modules);
    if i == n - 1 {
        assert(after[before.len() as int] == wanted);
    } else {
        lemma_callback_part_holds((n - 1) as nat, definitions, modules, traffic, i);
        let k = choose|k: int| 0 <= k < before.len() && before[k] == wanted;
        assert(after[k] == wanted);
    }
}

/// Every callback that the component needs is declared in its own module.
pub proof fn law_every_needed_callback_is_declared(
    definitions: Seq<FfiDefinition>,
    modules: Seq<Seq<char>>,
    traffic: Traffic,
    i: int,
)
    requires
        0 <= i < definitions.len(),
        declares_callback(definitions, traffic, i),
    ensures
        declared(definitions, modules, traffic).contains(
            callback_definition(i, definitions, modules),
        ),
{
    let structs = struct_part(definitions.len(), definitions, modules, traffic);
    let callbacks = callback_part(definitions.len(), definitions, modules, traffic);
    let all = declared(definitions, modules, traffic);
    let wanted = callback_definition(i, definitions, modules);
    lemma_callback_part_holds(definitions.len(), definitions, modules, traffic, i);
    let k = choose|k: int| 0 <= k < callbacks.len() && callbacks[k] == wanted;
    assert(all[structs.len() + k] == wanted);
}

proof fn lemma_struct_part_origin(
    n: nat,
    definitions: Seq<FfiDefinition>,
    modules: Seq<Seq<char>>,
    traffic: Traffic,
    k: int,
)
    requires
        n <= definitions.len(),
        0 <= k < struct_part(n, definitions, modules, traffic).len(),
    ensures
        struct_part(n, definitions, modules, traffic)[k] matches DefinitionView::Struct {
            ffi_struct,
            methods,
        } ==> (struct_index(definitions, ffi_struct.name@) matches Some(i) && 0 <= i < n),
    decreases n,
{
    if n > 0 {
        let i = n - 1;
        let before = struct_part(i as nat, definitions, modules, traffic);
        if k < before.len() {
            lemma_struct_part_origin(i as nat, definitions, modules, traffic, k);
        } else {
            let fields = struct_at(definitions, i).fields@;
            let own = own_callbacks(fields, modules[i], definitions, modules);
            if k - before.len() < own.len() {
                lemma_own_callbacks(fields, modules[i], definitions, modules, k - before.len());
            }
        }
    }
}

proof fn lemma_struct_part_distinct(
    n: nat,
    definitions: Seq<FfiDefinition>,
    modules: Seq<Seq<char>>,
    traffic: Traffic,
    j: int,
    k: int,
)
    requires
        n <= definitions.len(),
        0 <= j < k < struct_part(n, definitions, modules, traffic).len(),
    ensures
        differ(
            struct_part(n, definitions, modules, traffic)[j],
            struct_part(n, definitions, modules, traffic)[k],
        ),
    decreases n,
{
    if n > 0 {
        let i = n - 1;
        let before = struct_part(i as nat, definitions, modules, traffic);
        if k < before.len() {
            lemma_struct_part_distinct(i as nat, definitions, modules, traffic, j, k);
        } else {
            let fields = struct_at(definitions, i).fields@;
            let own = own_callbacks(fields, modules[i], definitions, modules);
            if k - before.len() < own.len() {
                lemma_own_callbacks(fields, modules[i], definitions, modules, k - before.len());
            }
            if j < before.len() {
                lemma_struct_part_origin(i as nat, definitions, modules, traffic, j);
            } else if j - before.len() < own.len() {
                lemma_own_callbacks(fields, modules[i], definitions, modules, j - before.len());
            }
        }
    }
}

proof fn lemma_callback_part_has_no_struct(
    n: nat,
    definitions: Seq<FfiDefinition>,
    modules: Seq<Seq<char>>,
    traffic: Traffic,
    k: int,
)
    requires
        0 <= k < callback_part(n, definitions, modules, traffic).len(),
    ensures
        !(callback_part(n, definitions, modules, traffic)[k] is Struct),
    decreases n,
{
    if n > 0 {
        let before = callback_part((n - 1) as nat, definitions, modules, traffic);
        if k < before.len() {
            lemma_callback_part_has_no_struct((n - 1) as nat, definitions, modules, traffic, k);
        }
    }
}

/// Whether two definitions are not both of one struct.
pub open spec fn differ(a: DefinitionView, b: DefinitionView) -> bool {
    match (a, b) {
        (
            DefinitionView::Struct { ffi_struct: x, methods: _ },
            DefinitionView::Struct { ffi_struct: y, methods: _ },
        ) => x.name@ != y.name@,
        _ => true,
    }
}

/// No struct is declared twice, however often it is defined.
pub proof fn law_no_struct_is_declared_twice(
    definitions: Seq<FfiDefinition>,
    modules: Seq<Seq<char>>,
    traffic: Traffic,
    j: int,
    k: int,
)
    requires
        0 <= j < k < declared(definitions, modules, traffic).len(),
    ensures
        differ(
            declared(definitions, modules, traffic)[j],
            declared(definitions, modules, traffic)[k],
        ),
{
    let structs = struct_part(definitions.len(), definitions, modules, traffic);
    if k < structs.len() {
        lemma_struct_part_distinct(definitions.len(), definitions, modules, traffic, j, k);
    } else {
        lemma_callback_part_has_no_struct(
            definitions.len(),
            definitions,
            modules,
            traffic,
            k - structs.len(),
        );
    }
}

pub(crate) proof fn lemma_callback_index(definitions: Seq<FfiDefinition>, name: Seq<char>)
    ensures
        callback_index(definitions, name) matches Some(i) ==> 0 <= i < definitions.len()
            && is_callback(definitions[i], name),
    decreases definitions.len(),
{
    if definitions.len() > 0 {
        lemma_callback_index(definitions.drop_last(), name);
    }
}

proof fn lemma_own_callbacks_hold(
    fields: Seq<FfiField>,
    struct_module: Seq<char>,
    definitions: Seq<FfiDefinition>,
    modules: Seq<Seq<char>>,
    f: int,
    k: int,
)
    requires
        0 <= f < fields.len(),
        field_callback(fields[f], definitions) == Some(k),
        callback_at(definitions, k).role() == CallbackRole::Free || callback_at(
            definitions,
            k,
        ).role() == CallbackRole::Clone,
    ensures
        own_callbacks(fields, struct_module, definitions, modules).contains(
            DefinitionView::CallbackFunction {
                module_ident: method_module(callback_at(definitions, k), modules[k], struct_module),
                callback: callback_at(definitions, k),
            },
        ),
    decreases fields.len(),
{
    let before = own_callbacks(fields.drop_last(), struct_module, definitions, modules);
    let after = own_callbacks(fields, struct_module, definitions, modules);
    let wanted = DefinitionView::CallbackFunction {
        module_ident: method_module(callback_at(definitions, k), modules[k], struct_module),
        callback: callback_at(definitions, k),
    };
    if f == fields.len() - 1 {
        assert(after[before.len() as int] == wanted);
    } else {
        lemma_own_callbacks_hold(fields.drop_last(), struct_module, definitions, modules, f, k);
        let j = choose|j: int| 0 <= j < before.len() && before[j] == wanted;
        assert(after[j] == wanted);
    }
}

/// Whether `definition` declares `callback` in the module `module_name`.
pub open spec fn declares_in(
    definition: DefinitionView,
    callback: FfiCallbackFunction,
    module_name: Seq<char>,
) -> bool {
    match definition {
        DefinitionView::CallbackFunction { module_ident, callback: cb } => cb == callback
            && module_ident == module_name,
        DefinitionView::FunctionLiteral { module_ident, callback: cb } => cb == callback
            && module_ident == module_name,
        DefinitionView::Struct { ffi_struct, methods } => false,
    }
}

/// The module that a declared struct gives for a method is one that declares the callback: always
/// for a callback that frees or clones, otherwise where the component needs the callback.
pub proof fn law_methods_lead_to_declared_modules(
    definitions: Seq<FfiDefinition>,
    modules: Seq<Seq<char>>,
    traffic: Traffic,
    i: int,
    f: int,
    k: int,
) -> (at: int)
    requires
        0 <= i < definitions.len(),
        declares_struct(definitions, traffic, i),
        0 <= f < struct_at(definitions, i).fields@.len(),
        field_callback(struct_at(definitions, i).fields@[f], definitions) == Some(k),
        callback_at(definitions, k).role() == CallbackRole::Free || callback_at(
            definitions,
            k,
        ).role() == CallbackRole::Clone || needs_callback(callback_at(definitions, k), traffic),
    ensures
        0 <= at < declared(definitions, modules, traffic).len(),
        declares_in(
            declared(definitions, modules, traffic)[at],
            callback_at(definitions, k),
            method_module(callback_at(definitions, k), modules[k], modules[i]),
        ),
{
    let all = declared(definitions, modules, traffic);
    let fields = struct_at(definitions, i).fields@;
    let callback = callback_at(definitions, k);
    let name = fields[f].type_->Callback_0@;
    lemma_callback_index(definitions, name);
    if callback.role() == CallbackRole::Free || callback.role() == CallbackRole::Clone {
        let wanted = DefinitionView::CallbackFunction {
            module_ident: method_module(callback, modules[k], modules[i]),
            callback,
        };
        let own = own_callbacks(fields, modules[i], definitions, modules);
        lemma_own_callbacks_hold(fields, modules[i], definitions, modules, f, k);
        let d = choose|d: int| 0 <= d < own.len() && own[d] == wanted;
        assert(struct_definitions(i, definitions, modules)[d] == wanted);
        law_every_needed_struct_is_declared(definitions, modules, traffic, i, d);
        choose|at: int| 0 <= at < all.len() && all[at] == wanted
    } else {
        let wanted = callback_definition(k, definitions, modules);
        law_every_needed_callback_is_declared(definitions, modules, traffic, k);
        choose|at: int| 0 <= at < all.len() && all[at] == wanted
    }
}

} // verus!
