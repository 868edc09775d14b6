//! Which definitions the bindings declare, and in which modules.

use vstd::prelude::*;

use crate::case::snake_case;
use crate::ffi::name_map::NameMap;
use crate::ffi::roles::{
    classify_callback, CallbackRole, FfiCallbackFunction, FfiDefinition, FfiField, FfiStruct,
    FfiType,
};
use crate::text::{concat, same_text, texts};

verus! {

/// What the component does across the FFI.
#[derive(Clone, Copy, Debug)]
pub struct Traffic {
    pub has_async_calls: bool,
    pub has_callbacks: bool,
    pub has_async_callbacks: bool,
}

/// A callback with the module that declares it.
#[derive(Debug)]
pub struct FfiCallbackFunction2<'a> {
    pub module_ident: String,
    pub callback: &'a FfiCallbackFunction,
}

/// A struct with the module of each of its methods.
#[derive(Debug)]
pub struct FfiStruct2<'a> {
    pub ffi_struct: &'a FfiStruct,
    pub methods: NameMap,
}

#[derive(Debug)]
pub enum FfiDefinition2<'a> {
    CallbackFunction(FfiCallbackFunction2<'a>),
    FunctionLiteral(FfiCallbackFunction2<'a>),
    Struct(FfiStruct2<'a>),
}

pub enum DefinitionView {
    CallbackFunction { module_ident: Seq<char>, callback: FfiCallbackFunction },
    FunctionLiteral { module_ident: Seq<char>, callback: FfiCallbackFunction },
    Struct { ffi_struct: FfiStruct, methods: Map<Seq<char>, Seq<char>> },
}

impl<'a> View for FfiDefinition2<'a> {
    type V = DefinitionView;

    open spec fn view(&self) -> DefinitionView {
        match *self {
            FfiDefinition2::CallbackFunction(cb) => DefinitionView::CallbackFunction {
                module_ident: cb.module_ident@,
                callback: *cb.callback,
            },
            FfiDefinition2::FunctionLiteral(cb) => DefinitionView::FunctionLiteral {
                module_ident: cb.module_ident@,
                callback: *cb.callback,
            },
            FfiDefinition2::Struct(st) => DefinitionView::Struct {
                ffi_struct: *st.ffi_struct,
                methods: st.methods@,
            },
        }
    }
}

pub open spec fn definition_views(definitions: Seq<FfiDefinition2<'_>>) -> Seq<DefinitionView> {
    definitions.map_values(|d: FfiDefinition2<'_>| d@)
}

/// Whether `definition` is the callback `name`.
pub open spec fn is_callback(definition: FfiDefinition, name: Seq<char>) -> bool {
    definition matches FfiDefinition::CallbackFunction(cb) && cb.name@ == name
}

/// Whether `definition` is the struct `name`.
pub open spec fn is_struct(definition: FfiDefinition, name: Seq<char>) -> bool {
    definition matches FfiDefinition::Struct(st) && st.name@ == name
}

/// Where the callback `name` is defined: the last definition of the name counts.
pub open spec fn callback_index(definitions: Seq<FfiDefinition>, name: Seq<char>) -> Option<int>
    decreases definitions.len(),
{
    if definitions.len() == 0 {
        None
    } else if is_callback(definitions.last(), name) {
        Some(definitions.len() - 1)
    } else {
        callback_index(definitions.drop_last(), name)
    }
}

/// Where the struct `name` is defined: the last definition of the name counts.
pub open spec fn struct_index(definitions: Seq<FfiDefinition>, name: Seq<char>) -> Option<int>
    decreases definitions.len(),
{
    if definitions.len() == 0 {
        None
    } else if is_struct(definitions.last(), name) {
        Some(definitions.len() - 1)
    } else {
        struct_index(definitions.drop_last(), name)
    }
}

pub fn find_callback(definitions: &Vec<FfiDefinition>, name: &str) -> (r: Option<usize>)
    ensures
        match r {
            Some(i) => i < definitions@.len() && callback_index(definitions@, name@) == Some(
                i as int,
            ) && is_callback(definitions@[i as int], name@),
            None => callback_index(definitions@, name@) is None,
        },
{
    let mut i: usize = definitions.len();
    assert(definitions@.take(i as int) =~= definitions@);
    while i > 0
        invariant
            i <= definitions@.len(),
            callback_index(definitions@, name@) == callback_index(
                definitions@.take(i as int),
                name@,
            ),
        decreases i,
    {
        i -= 1;
        assert(definitions@.take(i + 1).drop_last() =~= definitions@.take(i as int));
        if let FfiDefinition::CallbackFunction(cb) = &definitions[i] {
            if same_text(cb.name.as_str(), name) {
                return Some(i);
            }
        }
    }
    None
}

pub fn find_struct(definitions: &Vec<FfiDefinition>, name: &str) -> (r: Option<usize>)
    ensures
        match r {
            Some(i) => i < definitions@.len() && struct_index(definitions@, name@) == Some(
                i as int,
            ),
            None => struct_index(definitions@, name@) is None,
        },
{
    let mut i: usize = definitions.len();
    assert(definitions@.take(i as int) =~= definitions@);
    while i > 0
        invariant
            i <= definitions@.len(),
            struct_index(definitions@, name@) == struct_index(definitions@.take(i as int), name@),
        decreases i,
    {
        i -= 1;
        assert(definitions@.take(i + 1).drop_last() =~= definitions@.take(i as int));
        if let FfiDefinition::Struct(st) = &definitions[i] {
            if same_text(st.name.as_str(), name) {
                return Some(i);
            }
        }
    }
    None
}

/// Whether the component needs the struct.
pub open spec fn needs_struct(ffi_struct: FfiStruct, traffic: Traffic) -> bool {
    &&& ffi_struct.is_foreign_future ==> traffic.has_async_callbacks
    &&& ffi_struct.is_vtable ==> traffic.has_callbacks
}

/// Whether the component needs the callback outside of the structs that hold it. One that frees or
/// clones is declared with each struct instead.
pub open spec fn needs_callback(callback: FfiCallbackFunction, traffic: Traffic) -> bool {
    match callback.role() {
        CallbackRole::Free | CallbackRole::Clone => false,
        CallbackRole::FutureInfra => traffic.has_async_callbacks,
        CallbackRole::Continuation => traffic.has_async_calls,
        CallbackRole::UserMethod => traffic.has_callbacks,
        CallbackRole::FunctionLiteral => traffic.has_async_callbacks,
    }
}

/// Whether `i` is the definition that counts of a struct that the component needs.
pub open spec fn declares_struct(
    definitions: Seq<FfiDefinition>,
    traffic: Traffic,
    i: int,
) -> bool {
    definitions[i] matches FfiDefinition::Struct(st) && struct_index(definitions, st.name@) == Some(
        i,
    ) && needs_struct(st, traffic)
}

/// Whether `i` is the definition that counts of a callback that the component needs.
pub open spec fn declares_callback(
    definitions: Seq<FfiDefinition>,
    traffic: Traffic,
    i: int,
) -> bool {
    definitions[i] matches FfiDefinition::CallbackFunction(cb) && callback_index(
        definitions,
        cb.name@,
    ) == Some(i) && needs_callback(cb, traffic)
}

/// Where the callback that `field` points to is defined.
pub open spec fn field_callback(field: FfiField, definitions: Seq<FfiDefinition>) -> Option<int> {
    match field.type_ {
        FfiType::Callback(name) => callback_index(definitions, name@),
        _ => None,
    }
}

/// The module of `callback` as a method of a struct, when the two have modules of their own.
pub open spec fn method_module(
    callback: FfiCallbackFunction,
    callback_module: Seq<char>,
    struct_module: Seq<char>,
) -> Seq<char> {
    match callback.role() {
        CallbackRole::Free => struct_module + "__free"@,
        CallbackRole::Clone => struct_module + "__clone"@,
        _ => callback_module,
    }
}

pub open spec fn callback_at(definitions: Seq<FfiDefinition>, i: int) -> FfiCallbackFunction {
    definitions[i]->CallbackFunction_0
}

pub open spec fn struct_at(definitions: Seq<FfiDefinition>, i: int) -> FfiStruct {
    definitions[i]->Struct_0
}

/// The module of each method among `fields`. `modules` holds the module of each definition.
pub open spec fn methods(
    fields: Seq<FfiField>,
    struct_module: Seq<char>,
    definitions: Seq<FfiDefinition>,
    modules: Seq<Seq<char>>,
) -> Map<Seq<char>, Seq<char>>
    decreases fields.len(),
{
    if fields.len() == 0 {
        Map::empty()
    } else {
        let before = methods(fields.drop_last(), struct_module, definitions, modules);
        match field_callback(fields.last(), definitions) {
            Some(k) => before.insert(
                fields.last().name@,
                method_module(callback_at(definitions, k), modules[k], struct_module),
            ),
            None => before,
        }
    }
}

/// The callbacks among `fields` that the struct declares itself: those that free and clone.
pub open spec fn own_callbacks(
    fields: Seq<FfiField>,
    struct_module: Seq<char>,
    definitions: Seq<FfiDefinition>,
    modules: Seq<Seq<char>>,
) -> Seq<DefinitionView>
    decreases fields.len(),
{
    if fields.len() == 0 {
        Seq::empty()
    } else {
        let before = own_callbacks(fields.drop_last(), struct_module, definitions, modules);
        match field_callback(fields.last(), definitions) {
            Some(k) => {
                let callback = callback_at(definitions, k);
                if callback.role() == CallbackRole::Free || callback.role() == CallbackRole::Clone {
                    before.push(
                        DefinitionView::CallbackFunction {
                            module_ident: method_module(callback, modules[k], struct_module),
                            callback,
                        },
                    )
                } else {
                    before
                }
            },
            None => before,
        }
    }
}

/// What is declared for the struct at `i`: its own callbacks, then the struct.
pub open spec fn struct_definitions(
    i: int,
    definitions: Seq<FfiDefinition>,
    modules: Seq<Seq<char>>,
) -> Seq<DefinitionView> {
    let ffi_struct = struct_at(definitions, i);
    own_callbacks(ffi_struct.fields@, modules[i], definitions, modules).push(
        DefinitionView::Struct {
            ffi_struct,
            methods: methods(ffi_struct.fields@, modules[i], definitions, modules),
        },
    )
}

/// What is declared for the structs among the first `n` definitions.
pub open spec fn struct_part(
    n: nat,
    definitions: Seq<FfiDefinition>,
    modules: Seq<Seq<char>>,
    traffic: Traffic,
) -> Seq<DefinitionView>
    decreases n,
{
    if n == 0 {
        Seq::empty()
    } else {
        let before = struct_part((n - 1) as nat, definitions, modules, traffic);
        if declares_struct(definitions, traffic, n - 1) {
            before + struct_definitions(n - 1, definitions, modules)
        } else {
            before
        }
    }
}

/// What is declared for the callback at `i`.
pub open spec fn callback_definition(
    i: int,
    definitions: Seq<FfiDefinition>,
    modules: Seq<Seq<char>>,
) -> DefinitionView {
    let callback = callback_at(definitions, i);
    if callback.is_function_literal {
        DefinitionView::FunctionLiteral { module_ident: modules[i], callback }
    } else {
        DefinitionView::CallbackFunction { module_ident: modules[i], callback }
    }
}

/// What is declared for the callbacks among the first `n` definitions.
pub open spec fn callback_part(
    n: nat,
    definitions: Seq<FfiDefinition>,
    modules: Seq<Seq<char>>,
    traffic: Traffic,
) -> Seq<DefinitionView>
    decreases n,
{
    if n == 0 {
        Seq::empty()
    } else {
        let before = callback_part((n - 1) as nat, definitions, modules, traffic);
        if declares_callback(definitions, traffic, n - 1) {
            before.push(callback_definition(n - 1, definitions, modules))
        } else {
            before
        }
    }
}

/// What the bindings declare: for the structs, then for the callbacks.
pub open spec fn declared(
    definitions: Seq<FfiDefinition>,
    modules: Seq<Seq<char>>,
    traffic: Traffic,
) -> Seq<DefinitionView> {
    struct_part(definitions.len(), definitions, modules, traffic) + callback_part(
        definitions.len(),
        definitions,
        modules,
        traffic,
    )
}

/// Whether each of `fields` that points to a callback points to one that is defined.
pub open spec fn fields_are_complete(
    fields: Seq<FfiField>,
    definitions: Seq<FfiDefinition>,
) -> bool {
    forall|f: int|
        0 <= f < fields.len() && (#[trigger] fields[f]).type_ is Callback ==> field_callback(
            fields[f],
            definitions,
        ) is Some
}

/// Whether every callback that a declared struct points to is defined.
pub open spec fn is_complete(definitions: Seq<FfiDefinition>, traffic: Traffic) -> bool {
    forall|i: int|
        0 <= i < definitions.len() && #[trigger] declares_struct(definitions, traffic, i)
            ==> fields_are_complete(struct_at(definitions, i).fields@, definitions)
}

fn declares_struct_at(definitions: &Vec<FfiDefinition>, traffic: Traffic, i: usize) -> (r: bool)
    requires
        i < definitions@.len(),
    ensures
        r == declares_struct(definitions@, traffic, i as int),
{
    match &definitions[i] {
        FfiDefinition::Struct(st) => {
            let counts = match find_struct(definitions, st.name.as_str()) {
                Some(k) => k == i,
                None => false,
            };
            counts && !(st.is_foreign_future && !traffic.has_async_callbacks) && !(st.is_vtable
                && !traffic.has_callbacks)
        },
        _ => false,
    }
}

fn declares_callback_at(definitions: &Vec<FfiDefinition>, traffic: Traffic, i: usize) -> (r: bool)
    requires
        i < definitions@.len(),
    ensures
        r == declares_callback(definitions@, traffic, i as int),
{
    match &definitions[i] {
        FfiDefinition::CallbackFunction(cb) => {
            let counts = match find_callback(definitions, cb.name.as_str()) {
                Some(k) => k == i,
                None => false,
            };
            counts && match classify_callback(cb) {
                CallbackRole::Free | CallbackRole::Clone => false,
                CallbackRole::FutureInfra => traffic.has_async_callbacks,
                CallbackRole::Continuation => traffic.has_async_calls,
                CallbackRole::UserMethod => traffic.has_callbacks,
                CallbackRole::FunctionLiteral => traffic.has_async_callbacks,
            }
        },
        _ => false,
    }
}

/// Whether every callback that a declared struct points to is defined.
pub fn check_complete(definitions: &Vec<FfiDefinition>, traffic: Traffic) -> (r: bool)
    ensures
        r == is_complete(definitions@, traffic),
{
    let mut i: usize = 0;
    while i < definitions.len()
        invariant
            i <= definitions@.len(),
            forall|k: int|
                0 <= k < i && #[trigger] declares_struct(definitions@, traffic, k)
                    ==> fields_are_complete(struct_at(definitions@, k).fields@, definitions@),
        decreases definitions@.len() - i,
    {
        if declares_struct_at(definitions, traffic, i) {
            if let FfiDefinition::Struct(st) = &definitions[i] {
                let mut f: usize = 0;
                while f < st.fields.len()
                    invariant
                        f <= st.fields@.len(),
                        i < definitions@.len(),
                        definitions@[i as int] == FfiDefinition::Struct(*st),
                        declares_struct(definitions@, traffic, i as int),
                        forall|k: int|
                            0 <= k < f && (#[trigger] st.fields@[k]).type_ is Callback
                                ==> field_callback(st.fields@[k], definitions@) is Some,
                    decreases st.fields@.len() - f,
                {
                    if let FfiType::Callback(name) = &st.fields[f].type_ {
                        if find_callback(definitions, name.as_str()).is_none() {
                            assert(st.fields@[f as int].type_ is Callback);
                            return false;
                        }
                    }
                    f += 1;
                }
            }
        }
        i += 1;
    }
    true
}

fn method_module_of(callback: &FfiCallbackFunction, callback_module: &str, struct_module: &str) -> (r:
    String)
    ensures
        r@ == method_module(*callback, callback_module@, struct_module@),
{
    match classify_callback(callback) {
        CallbackRole::Free => concat(struct_module, "__free"),
        CallbackRole::Clone => concat(struct_module, "__clone"),
        _ => callback_module.to_owned(),
    }
}

/// Appends to `out` what is declared for the struct at `i`.
fn push_struct<'a>(
    i: usize,
    definitions: &'a Vec<FfiDefinition>,
    modules: &Vec<String>,
    out: &mut Vec<FfiDefinition2<'a>>,
)
    requires
        i < definitions@.len() == modules@.len(),
        definitions@[i as int] is Struct,
        fields_are_complete(struct_at(definitions@, i as int).fields@, definitions@),
    ensures
        definition_views(final(out)@) == definition_views(old(out)@) + struct_definitions(
            i as int,
            definitions@,
            texts(modules@),
        ),
{
    let ghost before = definition_views(out@);
    let ghost names = texts(modules@);
    if let FfiDefinition::Struct(st) = &definitions[i] {
        let mut map = NameMap::new();
        let ghost fields = st.fields@;
        let struct_module = modules[i].as_str();
        let mut f: usize = 0;
        assert(fields.take(0) =~= Seq::<FfiField>::empty());
        assert(before + Seq::<DefinitionView>::empty() =~= before);
        while f < st.fields.len()
            invariant
                f <= st.fields@.len(),
                fields == st.fields@,
                names == texts(modules@),
                before == definition_views(old(out)@),
                i < definitions@.len() == modules@.len(),
                struct_module@ == names[i as int],
                fields_are_complete(fields, definitions@),
                map@ == methods(fields.take(f as int), names[i as int], definitions@, names),
                definition_views(out@) == before + own_callbacks(
                    fields.take(f as int),
                    names[i as int],
                    definitions@,
                    names,
                ),
            decreases st.fields@.len() - f,
        {
            assert(fields.take(f + 1).drop_last() =~= fields.take(f as int));
            let ghost own = own_callbacks(
                fields.take(f as int),
                names[i as int],
                definitions@,
                names,
            );
            let field = &st.fields[f];
            if let FfiType::Callback(name) = &field.type_ {
                assert(fields[f as int].type_ is Callback);
                if let Some(k) = find_callback(definitions, name.as_str()) {
                    if let FfiDefinition::CallbackFunction(callback) = &definitions[k] {
                        let module = method_module_of(
                            callback,
                            modules[k].as_str(),
                            struct_module,
                        );
                        let role = classify_callback(callback);
                        if role == CallbackRole::Free || role == CallbackRole::Clone {
                            let ghost held = out@;
                            out.push(
                                FfiDefinition2::CallbackFunction(
                                    FfiCallbackFunction2 {
                                        module_ident: module.clone(),
                                        callback,
                                    },
                                ),
                            );
                            assert(definition_views(out@) =~= definition_views(held).push(
                                out@.last()@,
                            ));
                            assert(definition_views(out@) =~= before + own.push(out@.last()@));
                        }
                        map.insert(field.name.clone(), module);
                    }
                }
            }
            f += 1;
        }
        assert(fields.take(f as int) =~= fields);
        let ghost held = out@;
        let ghost own = own_callbacks(fields, names[i as int], definitions@, names);
        out.push(FfiDefinition2::Struct(FfiStruct2 { ffi_struct: st, methods: map }));
        assert(definition_views(out@) =~= definition_views(held).push(out@.last()@));
        assert(definition_views(out@) =~= before + own.push(out@.last()@));
    }
}

/// What the bindings declare, when `modules` holds the module of each definition.
pub fn declare<'a>(
    definitions: &'a Vec<FfiDefinition>,
    modules: &Vec<String>,
    traffic: Traffic,
) -> (r: Vec<FfiDefinition2<'a>>)
    requires
        modules@.len() == definitions@.len(),
        is_complete(definitions@, traffic),
    ensures
        definition_views(r@) == declared(definitions@, texts(modules@), traffic),
{
    let mut out: Vec<FfiDefinition2<'a>> = Vec::new();
    let ghost names = texts(modules@);
    let mut i: usize = 0;
    assert(definition_views(out@) =~= Seq::<DefinitionView>::empty());
    while i < definitions.len()
        invariant
            i <= definitions@.len() == modules@.len(),
            names == texts(modules@),
            is_complete(definitions@, traffic),
            definition_views(out@) == struct_part(i as nat, definitions@, names, traffic),
        decreases definitions@.len() - i,
    {
        if declares_struct_at(definitions, traffic, i) {
            push_struct(i, definitions, modules, &mut out);
        }
        i += 1;
    }
    let ghost first = struct_part(definitions@.len(), definitions@, names, traffic);
    i = 0;
    assert(first + Seq::<DefinitionView>::empty() =~= first);
    while i < definitions.len()
        invariant
            i <= definitions@.len() == modules@.len(),
            names == texts(modules@),
            definition_views(out@) == first + callback_part(
                i as nat,
                definitions@,
                names,
                traffic,
            ),
        decreases definitions@.len() - i,
    {
        if declares_callback_at(definitions, traffic, i) {
            if let FfiDefinition::CallbackFunction(callback) = &definitions[i] {
                let ghost held = out@;
                let ghost part = callback_part(i as nat, definitions@, names, traffic);
                let cb = FfiCallbackFunction2 { module_ident: modules[i].clone(), callback };
                if callback.is_function_literal {
                    out.push(FfiDefinition2::FunctionLiteral(cb));
                } else {
                    out.push(FfiDefinition2::CallbackFunction(cb));
                }
                assert(definition_views(out@) =~= definition_views(held).push(out@.last()@));
                assert(definition_views(out@) =~= first + part.push(out@.last()@));
            }
        }
        i += 1;
    }
    out
}

impl FfiDefinition {
    /// The module that declares the definition: its name in snake case. A function has none.
    pub open spec fn module_name(self) -> Seq<char> {
        match self {
            FfiDefinition::CallbackFunction(cb) => snake_case(cb.name@),
            FfiDefinition::Struct(st) => snake_case(st.name@),
            FfiDefinition::Function => Seq::empty(),
        }
    }
}

/// The module of each of `definitions`.
pub open spec fn module_names(definitions: Seq<FfiDefinition>) -> Seq<Seq<char>> {
    definitions.map_values(|d: FfiDefinition| d.module_name())
}

fn name_modules(definitions: &Vec<FfiDefinition>) -> (r: Vec<String>)
    ensures
        r@.len() == definitions@.len(),
        texts(r@) == module_names(definitions@),
{
    let mut r: Vec<String> = Vec::new();
    let mut i: usize = 0;
    while i < definitions.len()
        invariant
            i <= definitions@.len(),
            r@.len() == i,
            forall|k: int|
                0 <= k < i ==> (#[trigger] r@[k])@ == definitions@[k].module_name(),
        decreases definitions@.len() - i,
    {
        let module = match &definitions[i] {
            FfiDefinition::CallbackFunction(cb) => cb.module_ident(),
            FfiDefinition::Struct(st) => st.module_ident(),
            FfiDefinition::Function => String::new(),
        };
        r.push(module);
        i += 1;
    }
    assert(texts(r@) =~= module_names(definitions@));
    r
}

/// What the bindings declare for a component. A definition takes its module from its name in snake
/// case; a callback that frees or clones takes it from the struct that holds it.
pub fn ffi_definitions2<'a>(
    definitions: &'a Vec<FfiDefinition>,
    has_async_calls: bool,
    has_callbacks: bool,
    has_async_callbacks: bool,
) -> (r: Vec<FfiDefinition2<'a>>)
    requires
        is_complete(
            definitions@,
            (Traffic { has_async_calls, has_callbacks, has_async_callbacks }),
        ),
    ensures
        definition_views(r@) == declared(
            definitions@,
            module_names(definitions@),
            (Traffic { has_async_calls, has_callbacks, has_async_callbacks }),
        ),
{
    let modules = name_modules(definitions);
    declare(
        definitions,
        &modules,
        Traffic { has_async_calls, has_callbacks, has_async_callbacks },
    )
}

impl<'a> FfiCallbackFunction2<'a> {
    pub fn module_ident(&self) -> (r: String)
        ensures
            r@ == self.module_ident@,
    {
        self.module_ident.clone()
    }

    pub fn return_type(&self) -> (r: Option<&'a FfiType>)
        ensures
            match r {
                Some(ty) => self.callback.arg_return_type == Some(*ty),
                None => self.callback.arg_return_type is None,
            },
    {
        match &self.callback.arg_return_type {
            Some(ty) => Some(ty),
            None => None,
        }
    }

    pub fn has_return_out_param(&self) -> (r: bool)
        ensures
            r == self.callback.has_return_out_param,
    {
        self.callback.has_return_out_param
    }

    pub fn callback(&self) -> (r: &'a FfiCallbackFunction)
        ensures
            *r == *self.callback,
    {
        self.callback
    }
}

/// The names of those of `fields` that point to callbacks.
pub open spec fn callback_fields(fields: Seq<FfiField>) -> Seq<Seq<char>> {
    fields.filter(|f: FfiField| f.type_ is Callback).map_values(|f: FfiField| f.name@)
}

impl<'a> FfiStruct2<'a> {
    pub fn module_ident(&self) -> (r: String)
        ensures
            r@ == snake_case(self.ffi_struct.name@),
    {
        self.ffi_struct.module_ident()
    }

    pub fn is_callback_method(&self, name: &str) -> (r: bool)
        ensures
            r == self.methods@.dom().contains(name@),
    {
        self.methods.contains_key(name)
    }

    /// The name under which a module refers to the type of the method `name`.
    pub fn method_alias_ident(&self, name: &str) -> (r: String)
        ensures
            r@ == "method_"@ + name@,
    {
        concat("method_", name)
    }

    /// The module of the method `name`.
    pub fn method_mod_ident(&self, name: &str) -> (r: String)
        requires
            self.methods@.dom().contains(name@),
        ensures
            r@ == self.methods@[name@],
    {
        match self.methods.get(name) {
            Some(module) => module.to_owned(),
            None => String::new(),
        }
    }

    /// The names of the fields that point to callbacks, in order.
    pub fn method_names(&self) -> (r: Vec<&'a str>)
        ensures
            r@.map_values(|s: &str| s@) == callback_fields(self.ffi_struct.fields@),
    {
        let mut r: Vec<&'a str> = Vec::new();
        let ghost fields = self.ffi_struct.fields@;
        let mut i: usize = 0;
        proof {
            reveal(Seq::filter);
            assert(fields.take(0) =~= Seq::<FfiField>::empty());
            assert(r@.map_values(|s: &str| s@) =~= callback_fields(fields.take(0)));
        }
        while i < self.ffi_struct.fields.len()
            invariant
                i <= self.ffi_struct.fields@.len(),
                fields == self.ffi_struct.fields@,
                r@.map_values(|s: &str| s@) == callback_fields(fields.take(i as int)),
            decreases self.ffi_struct.fields@.len() - i,
        {
            let field: &'a FfiField = &self.ffi_struct.fields[i];
            proof {
                reveal(Seq::filter);
                assert(fields.take(i + 1).drop_last() =~= fields.take(i as int));
                if field.type_ is Callback {
                    assert(callback_fields(fields.take(i + 1)) =~= callback_fields(
                        fields.take(i as int),
                    ).push(field.name@));
                } else {
                    assert(callback_fields(fields.take(i + 1)) =~= callback_fields(
                        fields.take(i as int),
                    ));
                }
            }
            if let FfiType::Callback(_) = &field.type_ {
                let ghost held = r@;
                r.push(field.name.as_str());
                assert(r@.map_values(|s: &str| s@) =~= held.map_values(|s: &str| s@).push(
                    field.name@,
                ));
            }
            i += 1;
        }
        assert(fields.take(i as int) =~= fields);
        r
    }

    pub fn fields(&self) -> (r: &'a Vec<FfiField>)
        ensures
            r@ == self.ffi_struct.fields@,
    {
        &self.ffi_struct.fields
    }

    pub fn is_passed_from_js_to_rust(&self) -> (r: bool)
        ensures
            r == self.ffi_struct.is_foreign_future,
    {
        self.ffi_struct.is_foreign_future
    }
}

} // verus!
