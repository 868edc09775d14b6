//! What is declared for a component, in terms of its definitions.

use vstd::prelude::*;

use crate::case::snake_case;
use crate::ffi::component::ComponentInterface;
use crate::ffi::definitions::{
    callback_at, callback_definition, callback_fields, callback_index, callback_part, declared,
    declares_callback, declares_struct, definition_views, field_callback, fields_are_complete,
    is_complete, methods, module_names, own_callbacks, struct_at, struct_definitions, struct_index, struct_part,
    DefinitionView, FfiDefinition2, Traffic,
};
use crate::ffi::laws::{
    law_every_needed_callback_is_declared, law_every_needed_struct_is_declared,
    law_methods_lead_to_declared_modules, lemma_callback_index,
};
use crate::ffi::roles::{
    CallbackRole, FfiCallbackFunction, FfiDefinition, FfiField, FfiStruct, FfiType,
};
use crate::jspi::namespace::ObjectImpl;

verus! {

/// Whether the struct at `i` is the last of its name.
pub open spec fn is_last_struct(definitions: Seq<FfiDefinition>, i: int) -> bool {
    &&& 0 <= i < definitions.len()
    &&& definitions[i] matches FfiDefinition::Struct(st) && forall|j: int|
        i < j < definitions.len() ==> !(#[trigger] definitions[j] matches FfiDefinition::Struct(
            other,
        ) && other.name@ == st.name@)
}

/// Whether the callback at `i` is the last of its name.
pub open spec fn is_last_callback(definitions: Seq<FfiDefinition>, i: int) -> bool {
    &&& 0 <= i < definitions.len()
    &&& definitions[i] matches FfiDefinition::CallbackFunction(cb) && forall|j: int|
        i < j < definitions.len() ==> !(
        #[trigger] definitions[j] matches FfiDefinition::CallbackFunction(other) && other.name@
            == cb.name@)
}

/// Whether a component needs the struct: not where it is about foreign futures and no callback is
/// `async`, nor where it is a table of methods and nothing calls back.
pub open spec fn struct_is_wanted(ffi_struct: FfiStruct, traffic: Traffic) -> bool {
    &&& !(ffi_struct.is_foreign_future && !traffic.has_async_callbacks)
    &&& !(ffi_struct.is_vtable && !traffic.has_callbacks)
}

/// Whether a component needs the callback on its own. Methods need something that calls back,
/// continuations an `async` call, and all others an `async` callback.
pub open spec fn callback_is_wanted(callback: FfiCallbackFunction, traffic: Traffic) -> bool {
    &&& !callback.is_free_callback
    &&& callback.name@ != "CallbackInterfaceClone"@
    &&& callback.is_user_callback ==> traffic.has_callbacks
    &&& !callback.is_user_callback && (callback.is_function_literal
        || !callback.is_continuation_callback) ==> traffic.has_async_callbacks
    &&& !callback.is_user_callback && !callback.is_function_literal
        && callback.is_continuation_callback ==> traffic.has_async_calls
}

/// What a declared struct gives as the module of a method with `callback`.
pub open spec fn module_of_method(ffi_struct: FfiStruct, callback: FfiCallbackFunction) -> Seq<
    char,
> {
    if callback.is_free_callback {
        snake_case(ffi_struct.name@) + "__free"@
    } else if callback.name@ == "CallbackInterfaceClone"@ {
        snake_case(ffi_struct.name@) + "__clone"@
    } else {
        snake_case(callback.name@)
    }
}

/// Whether the struct that holds a callback declares it: it frees or clones.
pub open spec fn belongs_to_struct(callback: FfiCallbackFunction) -> bool {
    callback.is_free_callback || callback.name@ == "CallbackInterfaceClone"@
}

proof fn lemma_struct_index_is_last(definitions: Seq<FfiDefinition>, name: Seq<char>)
    ensures
        struct_index(definitions, name) matches Some(i) ==> is_last_struct(definitions, i)
            && definitions[i]->Struct_0.name@ == name,
        struct_index(definitions, name) is None ==> forall|j: int|
            0 <= j < definitions.len() ==> !(#[trigger] definitions[j] matches FfiDefinition::Struct(
                other,
            ) && other.name@ == name),
    decreases definitions.len(),
{
    if definitions.len() > 0 {
        let fewer = definitions.drop_last();
        lemma_struct_index_is_last(fewer, name);
        assert(forall|j: int| 0 <= j < fewer.len() ==> definitions[j] == fewer[j]);
    }
}

proof fn lemma_last_struct_is_index(definitions: Seq<FfiDefinition>, i: int)
    requires
        is_last_struct(definitions, i),
    ensures
        struct_index(definitions, definitions[i]->Struct_0.name@) == Some(i),
{
    let name = definitions[i]->Struct_0.name@;
    lemma_struct_index_is_last(definitions, name);
    if let Some(j) = struct_index(definitions, name) {
        if j < i {
            assert(definitions[i] matches FfiDefinition::Struct(other) && other.name@ == name);
        } else if j > i {
            assert(definitions[j] matches FfiDefinition::Struct(other) && other.name@ == name);
        }
    } else {
        assert(definitions[i] matches FfiDefinition::Struct(other) && other.name@ == name);
    }
}

proof fn lemma_callback_index_is_last(definitions: Seq<FfiDefinition>, name: Seq<char>)
    ensures
        callback_index(definitions, name) matches Some(i) ==> is_last_callback(definitions, i)
            && definitions[i]->CallbackFunction_0.name@ == name,
        callback_index(definitions, name) is None ==> forall|j: int|
            0 <= j < definitions.len() ==> !(
            #[trigger] definitions[j] matches FfiDefinition::CallbackFunction(other) && other.name@
                == name),
    decreases definitions.len(),
{
    if definitions.len() > 0 {
        let fewer = definitions.drop_last();
        lemma_callback_index_is_last(fewer, name);
        assert(forall|j: int| 0 <= j < fewer.len() ==> definitions[j] == fewer[j]);
    }
}

proof fn lemma_last_callback_is_index(definitions: Seq<FfiDefinition>, i: int)
    requires
        is_last_callback(definitions, i),
    ensures
        callback_index(definitions, definitions[i]->CallbackFunction_0.name@) == Some(i),
{
    let name = definitions[i]->CallbackFunction_0.name@;
    lemma_callback_index_is_last(definitions, name);
    if let Some(j) = callback_index(definitions, name) {
        if j < i {
            assert(definitions[i] matches FfiDefinition::CallbackFunction(other) && other.name@
                == name);
        } else if j > i {
            assert(definitions[j] matches FfiDefinition::CallbackFunction(other) && other.name@
                == name);
        }
    } else {
        assert(definitions[i] matches FfiDefinition::CallbackFunction(other) && other.name@
            == name);
    }
}

proof fn lemma_declares_struct(definitions: Seq<FfiDefinition>, traffic: Traffic, i: int)
    requires
        0 <= i < definitions.len(),
    ensures
        declares_struct(definitions, traffic, i) <==> is_last_struct(definitions, i)
            && struct_is_wanted(struct_at(definitions, i), traffic),
{
    if let FfiDefinition::Struct(st) = definitions[i] {
        lemma_struct_index_is_last(definitions, st.name@);
        if is_last_struct(definitions, i) {
            lemma_last_struct_is_index(definitions, i);
        }
    }
}

proof fn lemma_declares_callback(definitions: Seq<FfiDefinition>, traffic: Traffic, i: int)
    requires
        0 <= i < definitions.len(),
    ensures
        declares_callback(definitions, traffic, i) <==> is_last_callback(definitions, i)
            && callback_is_wanted(callback_at(definitions, i), traffic),
{
    if let FfiDefinition::CallbackFunction(cb) = definitions[i] {
        lemma_callback_index_is_last(definitions, cb.name@);
        if is_last_callback(definitions, i) {
            lemma_last_callback_is_index(definitions, i);
        }
    }
}

/// Every item that is declared for the structs is declared for one of them.
proof fn lemma_struct_part_comes_from(
    n: nat,
    definitions: Seq<FfiDefinition>,
    modules: Seq<Seq<char>>,
    traffic: Traffic,
    k: int,
) -> (at: (int, int))
    requires
        n <= definitions.len(),
        0 <= k < struct_part(n, definitions, modules, traffic).len(),
    ensures
        0 <= at.0 < n,
        declares_struct(definitions, traffic, at.0),
        0 <= at.1 < struct_definitions(at.0, definitions, modules).len(),
        struct_part(n, definitions, modules, traffic)[k] == struct_definitions(
            at.0,
            definitions,
            modules,
        )[at.1],
    decreases n,
{
    let before = struct_part((n - 1) as nat, definitions, modules, traffic);
    if k < before.len() {
        lemma_struct_part_comes_from((n - 1) as nat, definitions, modules, traffic, k)
    } else {
        (n - 1, k - before.len())
    }
}

proof fn lemma_callback_part_comes_from(
    n: nat,
    definitions: Seq<FfiDefinition>,
    modules: Seq<Seq<char>>,
    traffic: Traffic,
    k: int,
) -> (i: int)
    requires
        n <= definitions.len(),
        0 <= k < callback_part(n, definitions, modules, traffic).len(),
    ensures
        0 <= i < n,
        declares_callback(definitions, traffic, i),
        callback_part(n, definitions, modules, traffic)[k] == callback_definition(
            i,
            definitions,
            modules,
        ),
    decreases n,
{
    let before = callback_part((n - 1) as nat, definitions, modules, traffic);
    if k < before.len() {
        lemma_callback_part_comes_from((n - 1) as nat, definitions, modules, traffic, k)
    } else {
        n - 1
    }
}

proof fn lemma_own_comes_from(
    fields: Seq<FfiField>,
    struct_module: Seq<char>,
    definitions: Seq<FfiDefinition>,
    modules: Seq<Seq<char>>,
    k: int,
) -> (f: int)
    requires
        0 <= k < own_callbacks(fields, struct_module, definitions, modules).len(),
    ensures
        0 <= f < fields.len(),
        field_callback(fields[f], definitions) matches Some(c) && belongs_to_struct(
            callback_at(definitions, c),
        ) && own_callbacks(fields, struct_module, definitions, modules)[k] == (
        DefinitionView::CallbackFunction {
            module_ident: if callback_at(definitions, c).is_free_callback {
                struct_module + "__free"@
            } else {
                struct_module + "__clone"@
            },
            callback: callback_at(definitions, c),
        }),
    decreases fields.len(),
{
    let fewer = own_callbacks(fields.drop_last(), struct_module, definitions, modules);
    if k < fewer.len() {
        lemma_own_comes_from(fields.drop_last(), struct_module, definitions, modules, k)
    } else {
        fields.len() - 1
    }
}

/// What a component does across the FFI is read off its own parts: an `async` callable, a callback
/// interface or an object that foreign code can implement, and an `async` callback interface.
pub proof fn law_traffic_is_read_off_the_component(component: ComponentInterface)
    ensures
        component.traffic().has_async_callbacks
            == component.has_async_callback_interface_definition,
        component.traffic().has_async_calls <==> exists|i: int|
            0 <= i < component.callables@.len() && (#[trigger] component.callables@[i]).is_async,
        component.traffic().has_callbacks <==> component.callback_interface_definitions@.len() > 0
            || exists|i: int|
            0 <= i < component.object_definitions@.len() && (
            #[trigger] component.object_definitions@[i]).imp == ObjectImpl::CallbackTrait,
{
}

/// A struct is declared exactly if it is the last of its name and the component needs it.
pub proof fn law_structs_are_declared_where_wanted(
    definitions: Seq<FfiDefinition>,
    traffic: Traffic,
    ffi_struct: FfiStruct,
)
    ensures
        (exists|k: int|
            0 <= k < declared(definitions, module_names(definitions), traffic).len() && (
            #[trigger] declared(
                definitions,
                module_names(definitions),
                traffic,
            )[k] matches DefinitionView::Struct { ffi_struct: st, methods: _ } && st == ffi_struct))
            <==> exists|i: int| #[trigger]
            is_last_struct(definitions, i) && definitions[i] == FfiDefinition::Struct(ffi_struct)
                && struct_is_wanted(ffi_struct, traffic),
{
    let modules = module_names(definitions);
    let all = declared(definitions, modules, traffic);
    let structs = struct_part(definitions.len(), definitions, modules, traffic);
    if exists|i: int| #[trigger]
        is_last_struct(definitions, i) && definitions[i] == FfiDefinition::Struct(ffi_struct)
            && struct_is_wanted(ffi_struct, traffic) {
        let i = choose|i: int| #[trigger]
            is_last_struct(definitions, i) && definitions[i] == FfiDefinition::Struct(ffi_struct)
                && struct_is_wanted(ffi_struct, traffic);
        lemma_declares_struct(definitions, traffic, i);
        let group = struct_definitions(i, definitions, modules);
        law_every_needed_struct_is_declared(
            definitions,
            modules,
            traffic,
            i,
            group.len() - 1,
        );
        let k = choose|k: int| 0 <= k < all.len() && all[k] == group[group.len() - 1];
        assert(all[k] matches DefinitionView::Struct { ffi_struct: st, methods: _ } && st
            == ffi_struct);
    }
    if exists|k: int|
        0 <= k < all.len() && (#[trigger] all[k] matches DefinitionView::Struct {
            ffi_struct: st,
            methods: _,
        } && st == ffi_struct) {
        let k = choose|k: int|
            0 <= k < all.len() && (#[trigger] all[k] matches DefinitionView::Struct {
                ffi_struct: st,
                methods: _,
            } && st == ffi_struct);
        if k < structs.len() {
            let at = lemma_struct_part_comes_from(
                definitions.len(),
                definitions,
                modules,
                traffic,
                k,
            );
            lemma_declares_struct(definitions, traffic, at.0);
            let fields = struct_at(definitions, at.0).fields@;
            let own = own_callbacks(fields, modules[at.0], definitions, modules);
            if at.1 < own.len() {
                let f = lemma_own_comes_from(fields, modules[at.0], definitions, modules, at.1);
            }
            assert(is_last_struct(definitions, at.0));
        } else {
            let i = lemma_callback_part_comes_from(
                definitions.len(),
                definitions,
                modules,
                traffic,
                k - structs.len(),
            );
        }
    }
}

/// A callback that neither frees nor clones is declared exactly if it is the last of its name and
/// the component needs it: in the module of its own name, and as a function literal if it is one.
pub proof fn law_callbacks_are_declared_where_wanted(
    definitions: Seq<FfiDefinition>,
    traffic: Traffic,
    callback: FfiCallbackFunction,
)
    requires
        !belongs_to_struct(callback),
    ensures
        ({
            let all = declared(definitions, module_names(definitions), traffic);
            let wanted = exists|i: int| #[trigger]
                is_last_callback(definitions, i) && definitions[i]
                    == FfiDefinition::CallbackFunction(callback) && callback_is_wanted(
                    callback,
                    traffic,
                );
            let module_ident = snake_case(callback.name@);
            &&& all.contains(DefinitionView::FunctionLiteral { module_ident, callback }) <==> wanted
                && callback.is_function_literal
            &&& all.contains(DefinitionView::CallbackFunction { module_ident, callback }) <==> wanted
                && !callback.is_function_literal
            &&& forall|k: int|
                0 <= k < all.len() ==> match #[trigger] all[k] {
                    DefinitionView::CallbackFunction { module_ident: m, callback: cb } => cb
                        == callback ==> m == module_ident,
                    DefinitionView::FunctionLiteral { module_ident: m, callback: cb } => cb
                        == callback ==> m == module_ident,
                    DefinitionView::Struct { ffi_struct: _, methods: _ } => true,
                }
        }),
{
    let modules = module_names(definitions);
    let all = declared(definitions, modules, traffic);
    let module_ident = snake_case(callback.name@);
    let structs = struct_part(definitions.len(), definitions, modules, traffic);
    if exists|i: int| #[trigger]
        is_last_callback(definitions, i) && definitions[i] == FfiDefinition::CallbackFunction(
            callback,
        ) && callback_is_wanted(callback, traffic) {
        let i = choose|i: int| #[trigger]
            is_last_callback(definitions, i) && definitions[i] == FfiDefinition::CallbackFunction(
                callback,
            ) && callback_is_wanted(callback, traffic);
        lemma_declares_callback(definitions, traffic, i);
        law_every_needed_callback_is_declared(definitions, modules, traffic, i);
        assert(modules[i] == module_ident);
    }
    assert forall|k: int| 0 <= k < all.len() implies match #[trigger] all[k] {
        DefinitionView::CallbackFunction { module_ident: m, callback: cb } => cb == callback ==> m
            == module_ident && !callback.is_function_literal && exists|i: int| #[trigger]
            is_last_callback(definitions, i) && definitions[i] == FfiDefinition::CallbackFunction(
                callback,
            ) && callback_is_wanted(callback, traffic),
        DefinitionView::FunctionLiteral { module_ident: m, callback: cb } => cb == callback ==> m
            == module_ident && callback.is_function_literal && exists|i: int| #[trigger]
            is_last_callback(definitions, i) && definitions[i] == FfiDefinition::CallbackFunction(
                callback,
            ) && callback_is_wanted(callback, traffic),
        DefinitionView::Struct { ffi_struct: _, methods: _ } => true,
    } by {
        if k < structs.len() {
            let at = lemma_struct_part_comes_from(
                definitions.len(),
                definitions,
                modules,
                traffic,
                k,
            );
            let fields = struct_at(definitions, at.0).fields@;
            let own = own_callbacks(fields, modules[at.0], definitions, modules);
            if at.1 < own.len() {
                let f = lemma_own_comes_from(fields, modules[at.0], definitions, modules, at.1);
            }
        } else {
            let i = lemma_callback_part_comes_from(
                definitions.len(),
                definitions,
                modules,
                traffic,
                k - structs.len(),
            );
            lemma_declares_callback(definitions, traffic, i);
            assert(modules[i] == snake_case(callback_at(definitions, i).name@));
            assert(is_last_callback(definitions, i));
        }
    }
}

/// A callback that frees or clones is declared for each declared struct with a field that points to
/// it, in a module named after the struct, and nowhere else. What frees comes first: a callback that
/// does both counts as one that frees.
pub proof fn law_structs_declare_what_frees_and_clones_them(
    definitions: Seq<FfiDefinition>,
    traffic: Traffic,
    callback: FfiCallbackFunction,
    module_ident: Seq<char>,
)
    requires
        belongs_to_struct(callback),
    ensures
        ({
            let all = declared(definitions, module_names(definitions), traffic);
            &&& !all.contains(DefinitionView::FunctionLiteral { module_ident, callback })
            &&& all.contains(DefinitionView::CallbackFunction { module_ident, callback })
                <==> exists|i: int, c: int, f: int|
                {
                    &&& #[trigger] is_last_struct(definitions, i)
                    &&& #[trigger] is_last_callback(definitions, c)
                    &&& struct_is_wanted(definitions[i]->Struct_0, traffic)
                    &&& definitions[c] == FfiDefinition::CallbackFunction(callback)
                    &&& 0 <= f < definitions[i]->Struct_0.fields@.len()
                    &&& (
                    #[trigger] definitions[i]->Struct_0.fields@[f]).type_ matches FfiType::Callback(
                        name,
                    ) && name@ == callback.name@
                    &&& module_ident == module_of_method(definitions[i]->Struct_0, callback)
                }
        }),
{
    let modules = module_names(definitions);
    let all = declared(definitions, modules, traffic);
    let wanted = DefinitionView::CallbackFunction { module_ident, callback };
    let structs = struct_part(definitions.len(), definitions, modules, traffic);
    assert forall|k: int| 0 <= k < all.len() implies #[trigger] all[k]
        != (DefinitionView::FunctionLiteral { module_ident, callback }) by {
        if k < structs.len() {
            let at = lemma_struct_part_comes_from(
                definitions.len(),
                definitions,
                modules,
                traffic,
                k,
            );
            let fields = struct_at(definitions, at.0).fields@;
            let own = own_callbacks(fields, modules[at.0], definitions, modules);
            if at.1 < own.len() {
                let f = lemma_own_comes_from(fields, modules[at.0], definitions, modules, at.1);
            }
        } else {
            let i = lemma_callback_part_comes_from(
                definitions.len(),
                definitions,
                modules,
                traffic,
                k - structs.len(),
            );
            lemma_declares_callback(definitions, traffic, i);
        }
    }
    if all.contains(wanted) {
        let k = choose|k: int| 0 <= k < all.len() && all[k] == wanted;
        if k < structs.len() {
            let at = lemma_struct_part_comes_from(
                definitions.len(),
                definitions,
                modules,
                traffic,
                k,
            );
            let i = at.0;
            lemma_declares_struct(definitions, traffic, i);
            let fields = struct_at(definitions, i).fields@;
            let own = own_callbacks(fields, modules[i], definitions, modules);
            assert(at.1 < own.len());
            let f = lemma_own_comes_from(fields, modules[i], definitions, modules, at.1);
            let name = fields[f].type_->Callback_0@;
            lemma_callback_index_is_last(definitions, name);
            let c = callback_index(definitions, name)->0;
            assert(modules[i] == snake_case(struct_at(definitions, i).name@));
            assert(is_last_struct(definitions, i) && is_last_callback(definitions, c));
            assert(definitions[i]->Struct_0.fields@[f] == fields[f]);
        } else {
            let i = lemma_callback_part_comes_from(
                definitions.len(),
                definitions,
                modules,
                traffic,
                k - structs.len(),
            );
            lemma_declares_callback(definitions, traffic, i);
        }
    }
    if exists|i: int, c: int, f: int|
        {
            &&& #[trigger] is_last_struct(definitions, i)
            &&& #[trigger] is_last_callback(definitions, c)
            &&& struct_is_wanted(definitions[i]->Struct_0, traffic)
            &&& definitions[c] == FfiDefinition::CallbackFunction(callback)
            &&& 0 <= f < definitions[i]->Struct_0.fields@.len()
            &&& (#[trigger] definitions[i]->Struct_0.fields@[f]).type_ matches FfiType::Callback(
                name,
            ) && name@ == callback.name@
            &&& module_ident == module_of_method(definitions[i]->Struct_0, callback)
        } {
        let (i, c, f) = choose|i: int, c: int, f: int|
            {
                &&& #[trigger] is_last_struct(definitions, i)
                &&& #[trigger] is_last_callback(definitions, c)
                &&& struct_is_wanted(definitions[i]->Struct_0, traffic)
                &&& definitions[c] == FfiDefinition::CallbackFunction(callback)
                &&& 0 <= f < definitions[i]->Struct_0.fields@.len()
                &&& (
                #[trigger] definitions[i]->Struct_0.fields@[f]).type_ matches FfiType::Callback(
                    name,
                ) && name@ == callback.name@
                &&& module_ident == module_of_method(definitions[i]->Struct_0, callback)
            };
        lemma_declares_struct(definitions, traffic, i);
        lemma_last_callback_is_index(definitions, c);
        let at = law_methods_lead_to_declared_modules(
            definitions,
            modules,
            traffic,
            i,
            f,
            c,
        );
        assert(modules[i] == snake_case(struct_at(definitions, i).name@));
        assert(all[at] == wanted) by {
            if all[at] is FunctionLiteral {
                assert(all[at] == (DefinitionView::FunctionLiteral { module_ident, callback }));
            }
        }
    }
}

proof fn lemma_last_method(
    fields: Seq<FfiField>,
    struct_module: Seq<char>,
    definitions: Seq<FfiDefinition>,
    modules: Seq<Seq<char>>,
    f: int,
)
    requires
        fields_are_complete(fields, definitions),
        0 <= f < fields.len(),
        fields[f].type_ is Callback,
        forall|g: int|
            f < g < fields.len() && (#[trigger] fields[g]).type_ is Callback ==> fields[g].name@
                != fields[f].name@,
    ensures
        field_callback(fields[f], definitions) matches Some(c) && {
            let map = methods(fields, struct_module, definitions, modules);
            &&& map.dom().contains(fields[f].name@)
            &&& map[fields[f].name@] == if callback_at(definitions, c).is_free_callback {
                struct_module + "__free"@
            } else if callback_at(definitions, c).name@ == "CallbackInterfaceClone"@ {
                struct_module + "__clone"@
            } else {
                modules[c]
            }
        },
    decreases fields.len(),
{
    assert(field_callback(fields[f], definitions) is Some);
    if f < fields.len() - 1 {
        let fewer = fields.drop_last();
        assert forall|g: int|
            0 <= g < fewer.len() && (#[trigger] fewer[g]).type_ is Callback implies field_callback(
            fewer[g],
            definitions,
        ) is Some by {
            assert(fields[g] == fewer[g]);
        }
        assert forall|g: int| f < g < fewer.len() && (#[trigger] fewer[g]).type_ is Callback implies
            fewer[g].name@ != fewer[f].name@ by {
            assert(fields[g] == fewer[g]);
        }
        lemma_last_method(fewer, struct_module, definitions, modules, f);
        assert(fields[fields.len() - 1] == fields.last());
    }
}

/// A declared struct gives each of its fields that point to a callback a module: that of the
/// callback, or one of its own for what frees or clones. Of several fields of one name the last
/// counts, as of several callbacks.
pub proof fn law_methods_have_the_modules_of_their_callbacks(
    definitions: Seq<FfiDefinition>,
    traffic: Traffic,
    k: int,
    f: int,
    c: int,
)
    requires
        is_complete(definitions, traffic),
        0 <= k < declared(definitions, module_names(definitions), traffic).len(),
        declared(definitions, module_names(definitions), traffic)[k] is Struct,
        is_last_callback(definitions, c),
        ({
            let fields = declared(
                definitions,
                module_names(definitions),
                traffic,
            )[k]->ffi_struct.fields@;
            &&& 0 <= f < fields.len()
            &&& fields[f].type_ matches FfiType::Callback(name) && name@
                == definitions[c]->CallbackFunction_0.name@
            &&& forall|g: int|
                f < g < fields.len() && (#[trigger] fields[g]).type_ is Callback ==> fields[g].name@
                    != fields[f].name@
        }),
    ensures
        ({
            let item = declared(definitions, module_names(definitions), traffic)[k];
            let name = item->ffi_struct.fields@[f].name@;
            &&& item->methods.dom().contains(name)
            &&& item->methods[name] == module_of_method(
                item->ffi_struct,
                definitions[c]->CallbackFunction_0,
            )
        }),
{
    let modules = module_names(definitions);
    let structs = struct_part(definitions.len(), definitions, modules, traffic);
    if k < structs.len() {
        let at = lemma_struct_part_comes_from(definitions.len(), definitions, modules, traffic, k);
        let i = at.0;
        let fields = struct_at(definitions, i).fields@;
        let own = own_callbacks(fields, modules[i], definitions, modules);
        if at.1 < own.len() {
            let x = lemma_own_comes_from(fields, modules[i], definitions, modules, at.1);
        }
        lemma_last_callback_is_index(definitions, c);
        lemma_last_method(fields, modules[i], definitions, modules, f);
        assert(modules[i] == snake_case(struct_at(definitions, i).name@));
        assert(modules[c] == snake_case(callback_at(definitions, c).name@));
    } else {
        let i = lemma_callback_part_comes_from(
            definitions.len(),
            definitions,
            modules,
            traffic,
            k - structs.len(),
        );
    }
}

/// The methods of a declared struct are those of its fields that point to callbacks, and no others.
pub proof fn law_methods_are_fields_that_point_to_callbacks(
    definitions: Seq<FfiDefinition>,
    traffic: Traffic,
    k: int,
    name: Seq<char>,
)
    requires
        is_complete(definitions, traffic),
        0 <= k < declared(definitions, module_names(definitions), traffic).len(),
        declared(definitions, module_names(definitions), traffic)[k] is Struct,
    ensures
        ({
            let item = declared(definitions, module_names(definitions), traffic)[k];
            let fields = item->ffi_struct.fields@;
            item->methods.dom().contains(name) <==> exists|f: int|
                0 <= f < fields.len() && (#[trigger] fields[f]).type_ is Callback && fields[f].name@
                    == name
        }),
{
    let modules = module_names(definitions);
    let structs = struct_part(definitions.len(), definitions, modules, traffic);
    if k < structs.len() {
        let at = lemma_struct_part_comes_from(definitions.len(), definitions, modules, traffic, k);
        let i = at.0;
        let fields = struct_at(definitions, i).fields@;
        let own = own_callbacks(fields, modules[i], definitions, modules);
        if at.1 < own.len() {
            let x = lemma_own_comes_from(fields, modules[i], definitions, modules, at.1);
        }
        lemma_method_names(fields, modules[i], definitions, modules, name);
    } else {
        let i = lemma_callback_part_comes_from(
            definitions.len(),
            definitions,
            modules,
            traffic,
            k - structs.len(),
        );
    }
}

proof fn lemma_method_names(
    fields: Seq<FfiField>,
    struct_module: Seq<char>,
    definitions: Seq<FfiDefinition>,
    modules: Seq<Seq<char>>,
    name: Seq<char>,
)
    requires
        fields_are_complete(fields, definitions),
    ensures
        methods(fields, struct_module, definitions, modules).dom().contains(name) <==> exists|f: int|
            0 <= f < fields.len() && (#[trigger] fields[f]).type_ is Callback && fields[f].name@
                == name,
    decreases fields.len(),
{
    if fields.len() > 0 {
        let fewer = fields.drop_last();
        assert forall|g: int|
            0 <= g < fewer.len() && (#[trigger] fewer[g]).type_ is Callback implies field_callback(
            fewer[g],
            definitions,
        ) is Some by {
            assert(fields[g] == fewer[g]);
        }
        lemma_method_names(fewer, struct_module, definitions, modules, name);
        let last = fields[fields.len() - 1];
        assert(last.type_ is Callback ==> field_callback(last, definitions) is Some);
        if methods(fewer, struct_module, definitions, modules).dom().contains(name) {
            let f = choose|f: int|
                0 <= f < fewer.len() && (#[trigger] fewer[f]).type_ is Callback && fewer[f].name@
                    == name;
            assert(fields[f] == fewer[f]);
        }
        if exists|f: int|
            0 <= f < fields.len() && (#[trigger] fields[f]).type_ is Callback && fields[f].name@
                == name {
            let f = choose|f: int|
                0 <= f < fields.len() && (#[trigger] fields[f]).type_ is Callback && fields[f].name@
                    == name;
            if f < fewer.len() {
                assert(fewer[f] == fields[f]);
            }
        }
    }
}

/// Definitions are complete exactly if every callback that a declared struct points to is among
/// them.
pub proof fn law_complete_definitions_lack_no_callback(
    definitions: Seq<FfiDefinition>,
    traffic: Traffic,
)
    ensures
        is_complete(definitions, traffic) <==> forall|i: int, f: int|
            {
                &&& #[trigger] is_last_struct(definitions, i)
                &&& struct_is_wanted(definitions[i]->Struct_0, traffic)
                &&& 0 <= f < definitions[i]->Struct_0.fields@.len()
                &&& (#[trigger] definitions[i]->Struct_0.fields@[f]).type_ is Callback
            } ==> exists|c: int|
                0 <= c < definitions.len() && (
                #[trigger] definitions[c] matches FfiDefinition::CallbackFunction(cb) && cb.name@
                    == definitions[i]->Struct_0.fields@[f].type_->Callback_0@),
{
    assert forall|i: int, f: int|
        is_complete(definitions, traffic) && #[trigger] is_last_struct(definitions, i)
            && struct_is_wanted(definitions[i]->Struct_0, traffic) && 0 <= f
            < definitions[i]->Struct_0.fields@.len() && (
        #[trigger] definitions[i]->Struct_0.fields@[f]).type_ is Callback implies exists|c: int|
        0 <= c < definitions.len() && (
        #[trigger] definitions[c] matches FfiDefinition::CallbackFunction(cb) && cb.name@
            == definitions[i]->Struct_0.fields@[f].type_->Callback_0@) by {
        lemma_declares_struct(definitions, traffic, i);
        let field = struct_at(definitions, i).fields@[f];
        assert(fields_are_complete(struct_at(definitions, i).fields@, definitions));
        assert(field_callback(field, definitions) is Some);
        lemma_callback_index(definitions, field.type_->Callback_0@);
        let c = callback_index(definitions, field.type_->Callback_0@)->0;
        assert(definitions[c] matches FfiDefinition::CallbackFunction(cb) && cb.name@
            == field.type_->Callback_0@);
    }
    if forall|i: int, f: int|
        {
            &&& #[trigger] is_last_struct(definitions, i)
            &&& struct_is_wanted(definitions[i]->Struct_0, traffic)
            &&& 0 <= f < definitions[i]->Struct_0.fields@.len()
            &&& (#[trigger] definitions[i]->Struct_0.fields@[f]).type_ is Callback
        } ==> exists|c: int|
            0 <= c < definitions.len() && (
            #[trigger] definitions[c] matches FfiDefinition::CallbackFunction(cb) && cb.name@
                == definitions[i]->Struct_0.fields@[f].type_->Callback_0@) {
        assert forall|i: int|
            0 <= i < definitions.len() && #[trigger] declares_struct(
                definitions,
                traffic,
                i,
            ) implies fields_are_complete(struct_at(definitions, i).fields@, definitions) by {
            lemma_declares_struct(definitions, traffic, i);
            let fields = struct_at(definitions, i).fields@;
            assert forall|f: int|
                0 <= f < fields.len() && (#[trigger] fields[f]).type_ is Callback implies
                field_callback(fields[f], definitions) is Some by {
                assert(is_last_struct(definitions, i));
                assert(definitions[i]->Struct_0.fields@[f].type_ is Callback);
                lemma_callback_index_is_last(definitions, fields[f].type_->Callback_0@);
            }
        }
    }
}

/// No callback is declared twice on its own, however often it is defined.
pub proof fn law_no_callback_is_declared_twice(
    definitions: Seq<FfiDefinition>,
    traffic: Traffic,
    j: int,
    k: int,
)
    requires
        0 <= j < k < declared(definitions, module_names(definitions), traffic).len(),
    ensures
        ({
            let all = declared(definitions, module_names(definitions), traffic);
            match (all[j], all[k]) {
                (
                    DefinitionView::CallbackFunction { module_ident: _, callback: x },
                    DefinitionView::CallbackFunction { module_ident: _, callback: y },
                ) => !belongs_to_struct(x) ==> x.name@ != y.name@,
                (
                    DefinitionView::FunctionLiteral { module_ident: _, callback: x },
                    DefinitionView::FunctionLiteral { module_ident: _, callback: y },
                ) => x.name@ != y.name@,
                _ => true,
            }
        }),
{
    let modules = module_names(definitions);
    let all = declared(definitions, modules, traffic);
    let structs = struct_part(definitions.len(), definitions, modules, traffic);
    if j < structs.len() {
        let at = lemma_struct_part_comes_from(definitions.len(), definitions, modules, traffic, j);
        let fields = struct_at(definitions, at.0).fields@;
        let own = own_callbacks(fields, modules[at.0], definitions, modules);
        if at.1 < own.len() {
            let x = lemma_own_comes_from(fields, modules[at.0], definitions, modules, at.1);
        }
    } else {
        lemma_callback_part_distinct(
            definitions.len(),
            definitions,
            modules,
            traffic,
            j - structs.len(),
            k - structs.len(),
        );
    }
}

proof fn lemma_callback_part_distinct(
    n: nat,
    definitions: Seq<FfiDefinition>,
    modules: Seq<Seq<char>>,
    traffic: Traffic,
    j: int,
    k: int,
)
    requires
        n <= definitions.len(),
        0 <= j < k < callback_part(n, definitions, modules, traffic).len(),
    ensures
        match (
            callback_part(n, definitions, modules, traffic)[j],
            callback_part(n, definitions, modules, traffic)[k],
        ) {
            (
                DefinitionView::CallbackFunction { module_ident: _, callback: x },
                DefinitionView::CallbackFunction { module_ident: _, callback: y },
            ) => x.name@ != y.name@,
            (
                DefinitionView::FunctionLiteral { module_ident: _, callback: x },
                DefinitionView::FunctionLiteral { module_ident: _, callback: y },
            ) => x.name@ != y.name@,
            _ => true,
        },
    decreases n,
{
    let before = callback_part((n - 1) as nat, definitions, modules, traffic);
    if k < before.len() {
        lemma_callback_part_distinct((n - 1) as nat, definitions, modules, traffic, j, k);
    } else {
        let i = lemma_callback_part_comes_from(
            (n - 1) as nat,
            definitions,
            modules,
            traffic,
            j,
        );
    }
}

/// The role of a callback is the first that fits: freeing, cloning, a method, a function literal, a
/// continuation, and otherwise a part of how futures work.
pub proof fn law_roles_are_tried_in_order(callback: FfiCallbackFunction)
    ensures
        callback.role() == CallbackRole::Free <==> callback.is_free_callback,
        callback.role() == CallbackRole::Clone <==> callback.name@ == "CallbackInterfaceClone"@
            && !callback.is_free_callback,
        callback.role() == CallbackRole::UserMethod <==> callback.is_user_callback
            && !belongs_to_struct(callback),
        callback.role() == CallbackRole::FunctionLiteral <==> callback.is_function_literal
            && !callback.is_user_callback && !belongs_to_struct(callback),
        callback.role() == CallbackRole::Continuation <==> callback.is_continuation_callback
            && !callback.is_function_literal && !callback.is_user_callback && !belongs_to_struct(
            callback,
        ),
        callback.clones() <==> callback.name@ == "CallbackInterfaceClone"@,
{
}

/// The names of methods are those of the fields that point to callbacks, in order.
pub proof fn law_method_names_come_in_the_order_of_fields(fields: Seq<FfiField>, field: FfiField)
    ensures
        callback_fields(Seq::empty()).len() == 0,
        field.type_ is Callback ==> callback_fields(fields.push(field)) == callback_fields(
            fields,
        ).push(field.name@),
        !(field.type_ is Callback) ==> callback_fields(fields.push(field)) == callback_fields(
            fields,
        ),
{
    reveal(Seq::filter);
    let all = fields.push(field);
    assert(all.drop_last() =~= fields);
    if field.type_ is Callback {
        assert(callback_fields(all) =~= callback_fields(fields).push(field.name@));
    }
}

/// What is seen of a declared item is what it holds.
pub proof fn law_items_are_seen_as_they_are(item: FfiDefinition2<'_>)
    ensures
        item matches FfiDefinition2::CallbackFunction(cb) ==> item@ == (
        DefinitionView::CallbackFunction {
            module_ident: cb.module_ident@,
            callback: *cb.callback,
        }),
        item matches FfiDefinition2::FunctionLiteral(cb) ==> item@ == (
        DefinitionView::FunctionLiteral { module_ident: cb.module_ident@, callback: *cb.callback }),
        item matches FfiDefinition2::Struct(st) ==> item@ == (DefinitionView::Struct {
            ffi_struct: *st.ffi_struct,
            methods: st.methods@,
        }),
{
}

/// A component with an `async` callback interface has everything about foreign futures declared:
/// the structs that are no tables of methods, the function literals, and the callbacks that only
/// serve futures. A component without one has no struct about foreign futures declared.
pub proof fn law_async_callbacks_bring_foreign_futures(component: ComponentInterface, i: int)
    requires
        0 <= i < component.ffi_definitions@.len(),
    ensures
        ({
            let definitions = component.ffi_definitions@;
            let all = declared(definitions, module_names(definitions), component.traffic());
            &&& component.has_async_callback_interface_definition && is_last_struct(definitions, i)
                && definitions[i]->Struct_0.is_foreign_future && !definitions[i]->Struct_0.is_vtable
                ==> exists|k: int|
                0 <= k < all.len() && (#[trigger] all[k] matches DefinitionView::Struct {
                    ffi_struct: st,
                    methods: _,
                } && st == definitions[i]->Struct_0)
            &&& component.has_async_callback_interface_definition && is_last_callback(
                definitions,
                i,
            ) && !belongs_to_struct(definitions[i]->CallbackFunction_0)
                && !definitions[i]->CallbackFunction_0.is_user_callback && (
            definitions[i]->CallbackFunction_0.is_function_literal
                || !definitions[i]->CallbackFunction_0.is_continuation_callback) ==> {
                let callback = definitions[i]->CallbackFunction_0;
                let module_ident = snake_case(callback.name@);
                if callback.is_function_literal {
                    all.contains(DefinitionView::FunctionLiteral { module_ident, callback })
                } else {
                    all.contains(DefinitionView::CallbackFunction { module_ident, callback })
                }
            }
            &&& !component.has_async_callback_interface_definition ==> forall|k: int|
                0 <= k < all.len() ==> (#[trigger] all[k] matches DefinitionView::Struct {
                    ffi_struct: st,
                    methods: _,
                } ==> !st.is_foreign_future)
        }),
{
    let definitions = component.ffi_definitions@;
    let traffic = component.traffic();
    let all = declared(definitions, module_names(definitions), traffic);
    law_traffic_is_read_off_the_component(component);
    if let FfiDefinition::Struct(st) = definitions[i] {
        law_structs_are_declared_where_wanted(definitions, traffic, st);
    }
    if let FfiDefinition::CallbackFunction(cb) = definitions[i] {
        if !belongs_to_struct(cb) {
            law_callbacks_are_declared_where_wanted(definitions, traffic, cb);
        }
    }
    assert forall|k: int| 0 <= k < all.len() implies (#[trigger] all[k] matches DefinitionView::Struct {
        ffi_struct: st,
        methods: _,
    } ==> struct_is_wanted(st, traffic)) by {
        if let DefinitionView::Struct { ffi_struct: st, methods: _ } = all[k] {
            law_structs_are_declared_where_wanted(definitions, traffic, st);
        }
    }
}

/// Whether the field points to a callback that the struct itself declares.
pub open spec fn points_to_own(field: FfiField, definitions: Seq<FfiDefinition>) -> bool {
    exists|c: int| #[trigger]
        is_last_callback(definitions, c) && belongs_to_struct(
            definitions[c]->CallbackFunction_0,
        ) && (field.type_ matches FfiType::Callback(name) && name@
            == definitions[c]->CallbackFunction_0.name@)
}

/// How many items the definition at `i` brings: a struct itself and one for each field that points
/// to what frees or clones it, a callback itself, each where it is wanted.
pub open spec fn items_of(definitions: Seq<FfiDefinition>, traffic: Traffic, i: int) -> nat {
    if is_last_struct(definitions, i) && struct_is_wanted(definitions[i]->Struct_0, traffic) {
        1 + definitions[i]->Struct_0.fields@.filter(
            |f: FfiField| points_to_own(f, definitions),
        ).len()
    } else if is_last_callback(definitions, i) && callback_is_wanted(
        definitions[i]->CallbackFunction_0,
        traffic,
    ) {
        1
    } else {
        0
    }
}

/// How many items the first `n` definitions bring.
pub open spec fn items_of_first(definitions: Seq<FfiDefinition>, traffic: Traffic, n: nat) -> nat
    decreases n,
{
    if n == 0 {
        0
    } else {
        items_of_first(definitions, traffic, (n - 1) as nat) + items_of(
            definitions,
            traffic,
            n - 1,
        )
    }
}

proof fn lemma_own_count(
    fields: Seq<FfiField>,
    struct_module: Seq<char>,
    definitions: Seq<FfiDefinition>,
    modules: Seq<Seq<char>>,
)
    ensures
        own_callbacks(fields, struct_module, definitions, modules).len() == fields.filter(
            |f: FfiField| points_to_own(f, definitions),
        ).len(),
    decreases fields.len(),
{
    reveal(Seq::filter);
    if fields.len() > 0 {
        let last = fields.last();
        lemma_own_count(fields.drop_last(), struct_module, definitions, modules);
        if let FfiType::Callback(name) = last.type_ {
            lemma_callback_index_is_last(definitions, name@);
            if points_to_own(last, definitions) {
                let c = choose|c: int| #[trigger]
                    is_last_callback(definitions, c) && belongs_to_struct(
                        definitions[c]->CallbackFunction_0,
                    ) && (last.type_ matches FfiType::Callback(name) && name@
                        == definitions[c]->CallbackFunction_0.name@);
                lemma_last_callback_is_index(definitions, c);
            }
            if let Some(c) = callback_index(definitions, name@) {
                assert(is_last_callback(definitions, c));
            }
        }
    }
}

proof fn lemma_parts_count(n: nat, definitions: Seq<FfiDefinition>, traffic: Traffic)
    requires
        n <= definitions.len(),
    ensures
        struct_part(n, definitions, module_names(definitions), traffic).len() + callback_part(
            n,
            definitions,
            module_names(definitions),
            traffic,
        ).len() == items_of_first(definitions, traffic, n),
    decreases n,
{
    if n > 0 {
        let i = n - 1;
        let modules = module_names(definitions);
        lemma_parts_count(i as nat, definitions, traffic);
        lemma_declares_struct(definitions, traffic, i);
        lemma_declares_callback(definitions, traffic, i);
        if definitions[i] is Struct {
            lemma_own_count(
                struct_at(definitions, i).fields@,
                modules[i],
                definitions,
                modules,
            );
        }
    }
}

/// Each definition brings its own items and no more.
pub proof fn law_each_definition_brings_its_items_once(
    definitions: Seq<FfiDefinition>,
    traffic: Traffic,
)
    ensures
        declared(definitions, module_names(definitions), traffic).len() == items_of_first(
            definitions,
            traffic,
            definitions.len(),
        ),
{
    lemma_parts_count(definitions.len(), definitions, traffic);
}

/// A list of declared items is seen item by item.
pub proof fn law_declared_items_are_seen_one_by_one(items: Seq<FfiDefinition2<'_>>)
    ensures
        definition_views(items).len() == items.len(),
        forall|i: int| 0 <= i < items.len() ==> #[trigger] definition_views(items)[i] == items[i]@,
{
}

/// Callbacks and structs are declared in modules named after them.
pub proof fn law_definitions_have_modules_of_their_names(definitions: Seq<FfiDefinition>, i: int)
    requires
        0 <= i < definitions.len(),
    ensures
        module_names(definitions).len() == definitions.len(),
        definitions[i] matches FfiDefinition::CallbackFunction(cb) ==> module_names(definitions)[i]
            == snake_case(cb.name@),
        definitions[i] matches FfiDefinition::Struct(st) ==> module_names(definitions)[i]
            == snake_case(st.name@),
{
}

} // verus!
