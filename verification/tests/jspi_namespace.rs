use ubrn_napi::jspi::namespace::{
    namespace_targets, resolve, AsyncData, Callable, CallableKind, CallbackInterface, Enum,
    FfiDefinition, FfiFunction, FfiType, Interface, Namespace, ObjectImpl, Record, TypeDefinition,
    UniffiTraitMethods,
};
use ubrn_napi::jspi::selection::{JspiOptions, JspiSelection};
use ubrn_napi::jspi::wasm2::{find_eligible, resolve_wasm2};
use ubrn_napi::name_set::NameSet;
use uniffi_bindgen::pipeline::{general, initial};

fn ffi_type(ty: &general::FfiType) -> FfiType {
    match ty {
        general::FfiType::UInt8 => FfiType::UInt8,
        general::FfiType::Int8 => FfiType::Int8,
        general::FfiType::UInt16 => FfiType::UInt16,
        general::FfiType::Int16 => FfiType::Int16,
        general::FfiType::UInt32 => FfiType::UInt32,
        general::FfiType::Int32 => FfiType::Int32,
        general::FfiType::UInt64 => FfiType::UInt64,
        general::FfiType::Int64 => FfiType::Int64,
        general::FfiType::Float32 => FfiType::Float32,
        general::FfiType::Float64 => FfiType::Float64,
        general::FfiType::RustBuffer(_) => FfiType::RustBuffer,
        general::FfiType::ForeignBytes => FfiType::ForeignBytes,
        general::FfiType::Function(_) => FfiType::Function,
        general::FfiType::Struct(_) => FfiType::Struct,
        general::FfiType::Handle(_) => FfiType::Handle,
        general::FfiType::RustCallStatus => FfiType::RustCallStatus,
        general::FfiType::Reference(_) => FfiType::Reference,
        general::FfiType::MutReference(_) => FfiType::MutReference,
        general::FfiType::VoidPointer => FfiType::VoidPointer,
    }
}

fn ffi_definition(definition: &general::FfiDefinition) -> FfiDefinition {
    match definition {
        general::FfiDefinition::RustFunction(f) => FfiDefinition::RustFunction(FfiFunction {
            name: f.name.0.clone(),
            arguments: f.arguments.iter().map(|arg| ffi_type(&arg.ty.ty)).collect(),
            return_type: f.return_type.ty.as_ref().map(|ret| ffi_type(&ret.ty)),
        }),
        general::FfiDefinition::FunctionType(_) => FfiDefinition::FunctionType,
        general::FfiDefinition::Struct(_) => FfiDefinition::Struct,
    }
}

fn callable(callable: &general::Callable) -> Callable {
    Callable {
        name: callable.name.clone(),
        async_data: callable.async_data.as_ref().map(|data| AsyncData {
            ffi_rust_future_poll: data.ffi_rust_future_poll.0.clone(),
        }),
        kind: match callable.kind {
            general::CallableKind::Function => CallableKind::Function,
            general::CallableKind::Method { .. } => CallableKind::Method,
            general::CallableKind::Constructor { primary, .. } => {
                CallableKind::Constructor { primary }
            }
            general::CallableKind::VTableMethod { .. } => CallableKind::VTableMethod,
        },
        ffi_func: callable.ffi_func.0.clone(),
    }
}

fn trait_methods(traits: &general::UniffiTraitMethods) -> UniffiTraitMethods {
    let method = |m: &Option<general::Method>| m.as_ref().map(|m| callable(&m.callable));
    UniffiTraitMethods {
        debug_fmt: method(&traits.debug_fmt),
        display_fmt: method(&traits.display_fmt),
        eq_eq: method(&traits.eq_eq),
        eq_ne: method(&traits.eq_ne),
        hash_hash: method(&traits.hash_hash),
        ord_cmp: method(&traits.ord_cmp),
    }
}

fn constructors(list: &[general::Constructor]) -> Vec<Callable> {
    list.iter().map(|c| callable(&c.callable)).collect()
}

fn methods(list: &[general::Method]) -> Vec<Callable> {
    list.iter().map(|m| callable(&m.callable)).collect()
}

fn type_definition(ty: &general::TypeDefinition) -> TypeDefinition {
    match ty {
        general::TypeDefinition::Interface(i) => TypeDefinition::Interface(Interface {
            name: i.name.clone(),
            constructors: constructors(&i.constructors),
            methods: methods(&i.methods),
            uniffi_trait_methods: trait_methods(&i.uniffi_trait_methods),
            imp: match i.imp {
                general::ObjectImpl::Struct => ObjectImpl::Struct,
                general::ObjectImpl::Trait => ObjectImpl::Trait,
                general::ObjectImpl::CallbackTrait => ObjectImpl::CallbackTrait,
            },
        }),
        general::TypeDefinition::Record(r) => TypeDefinition::Record(Record {
            name: r.name.clone(),
            constructors: constructors(&r.constructors),
            methods: methods(&r.methods),
            uniffi_trait_methods: trait_methods(&r.uniffi_trait_methods),
        }),
        general::TypeDefinition::Enum(e) => TypeDefinition::Enum(Enum {
            name: e.name.clone(),
            constructors: constructors(&e.constructors),
            methods: methods(&e.methods),
            uniffi_trait_methods: trait_methods(&e.uniffi_trait_methods),
        }),
        general::TypeDefinition::CallbackInterface(c) => {
            TypeDefinition::CallbackInterface(CallbackInterface { name: c.name.clone() })
        }
        _ => TypeDefinition::Other,
    }
}

fn library_namespace(namespace: &general::Namespace) -> Namespace {
    Namespace {
        functions: namespace.functions.iter().map(|f| callable(&f.callable)).collect(),
        type_definitions: namespace.type_definitions.iter().map(type_definition).collect(),
        ffi_definitions: namespace.ffi_definitions.iter().map(ffi_definition).collect(),
    }
}

#[test]
fn exclude_only_never_selects_generated_clone_or_free_exports() {
    let namespace = initial::Namespace {
        name: "selection_fixture".into(),
        crate_name: "selection_fixture".into(),
        config_toml: None,
        docstring: None,
        functions: vec![
            initial::Function {
                name: "load_settings".into(),
                is_async: false,
                inputs: vec![],
                return_type: None,
                throws: None,
                checksum: Some(1),
                docstring: None,
            },
            initial::Function {
                name: "skip_call".into(),
                is_async: false,
                inputs: vec![],
                return_type: None,
                throws: None,
                checksum: Some(2),
                docstring: None,
            },
        ],
        type_definitions: vec![
            initial::TypeDefinition::Record(initial::Record {
                name: "LoadSettings".into(),
                fields: vec![],
                constructors: vec![],
                methods: vec![],
                uniffi_traits: vec![],
                docstring: None,
            }),
            initial::TypeDefinition::Interface(initial::Interface {
                name: "Resource".into(),
                docstring: None,
                constructors: vec![],
                methods: vec![],
                uniffi_traits: vec![],
                trait_impls: vec![],
                imp: initial::ObjectImpl::Struct,
            }),
        ],
    };
    let root = initial::Root {
        namespaces: [(namespace.name.clone(), namespace)].into_iter().collect(),
        cdylib: None,
    };
    let root = general::pipeline("react-native").execute(root).unwrap();
    let namespace = &root.namespaces["selection_fixture"];
    let selection = JspiSelection::Options(JspiOptions {
        rust_async: false,
        included: vec![],
        excluded: vec!["loadSettings".into()],
    });
    let selected = resolve(&selection, &library_namespace(namespace), true).unwrap();

    let infrastructure: Vec<_> = namespace
        .ffi_definitions
        .iter()
        .filter_map(|definition| match definition {
            general::FfiDefinition::RustFunction(function)
                if matches!(
                    function.kind,
                    general::FfiFunctionKind::ObjectClone | general::FfiFunctionKind::ObjectFree
                ) =>
            {
                Some(function.name.0.as_str())
            }
            _ => None,
        })
        .collect();
    assert_eq!(infrastructure.len(), 2);
    assert!(infrastructure.iter().all(|symbol| !selected.contains(symbol)));
    assert_eq!(selected.len(), 1);
    assert!(selected
        .into_names()
        .iter()
        .any(|symbol| symbol.contains("skip_call")));
}

fn call(name: &str, kind: CallableKind, poll: Option<&str>) -> Callable {
    Callable {
        name: name.into(),
        async_data: poll.map(|poll| AsyncData { ffi_rust_future_poll: poll.into() }),
        kind,
        ffi_func: format!("ffi_{name}"),
    }
}

fn no_traits() -> UniffiTraitMethods {
    UniffiTraitMethods {
        debug_fmt: None,
        display_fmt: None,
        eq_eq: None,
        eq_ne: None,
        hash_hash: None,
        ord_cmp: None,
    }
}

fn rust_function(name: &str, arguments: &[FfiType], return_type: Option<FfiType>) -> FfiDefinition {
    FfiDefinition::RustFunction(FfiFunction {
        name: name.into(),
        arguments: arguments.to_vec(),
        return_type,
    })
}

/// A function, an interface with every kind of callable, a listener and a callback interface.
fn fixture() -> Namespace {
    Namespace {
        functions: vec![
            call("add", CallableKind::Function, None),
            call("wait", CallableKind::Function, Some("poll_void")),
        ],
        type_definitions: vec![
            TypeDefinition::Other,
            TypeDefinition::Interface(Interface {
                name: "Thing".into(),
                constructors: vec![
                    call("new", CallableKind::Constructor { primary: true }, None),
                    call("from_name", CallableKind::Constructor { primary: false }, None),
                ],
                methods: vec![call("fetch", CallableKind::Method, Some("poll_u32"))],
                uniffi_trait_methods: UniffiTraitMethods {
                    display_fmt: Some(call("display", CallableKind::Method, None)),
                    debug_fmt: Some(call("debug", CallableKind::Method, None)),
                    ord_cmp: Some(call("order", CallableKind::Method, None)),
                    ..no_traits()
                },
                imp: ObjectImpl::Struct,
            }),
            TypeDefinition::Interface(Interface {
                name: "Listener".into(),
                constructors: vec![],
                methods: vec![call("notify", CallableKind::Method, None)],
                uniffi_trait_methods: no_traits(),
                imp: ObjectImpl::CallbackTrait,
            }),
            TypeDefinition::Record(Record {
                name: "Point".into(),
                constructors: vec![],
                methods: vec![call("norm", CallableKind::Method, None)],
                uniffi_trait_methods: no_traits(),
            }),
            TypeDefinition::Enum(Enum {
                name: "Shape".into(),
                constructors: vec![],
                methods: vec![call("area", CallableKind::Method, None)],
                uniffi_trait_methods: no_traits(),
            }),
            TypeDefinition::CallbackInterface(CallbackInterface { name: "Callback".into() }),
        ],
        ffi_definitions: vec![
            rust_function("ffi_add", &[FfiType::UInt32, FfiType::Float64], Some(FfiType::UInt32)),
            rust_function("ffi_wait", &[], Some(FfiType::Handle)),
            rust_function("ffi_new", &[FfiType::RustBuffer], Some(FfiType::Handle)),
            rust_function("ffi_from_name", &[FfiType::Reference], Some(FfiType::Handle)),
            rust_function("ffi_fetch", &[FfiType::Handle], Some(FfiType::Handle)),
            rust_function("ffi_display", &[FfiType::Handle], Some(FfiType::RustBuffer)),
            rust_function("ffi_debug", &[FfiType::Handle], Some(FfiType::RustBuffer)),
            rust_function("ffi_order", &[FfiType::Handle], Some(FfiType::Int8)),
            rust_function("ffi_norm", &[FfiType::RustBuffer], Some(FfiType::VoidPointer)),
            rust_function("ffi_thing_free", &[FfiType::Handle], None),
            FfiDefinition::FunctionType,
            FfiDefinition::Struct,
        ],
    }
}

fn sorted(set: NameSet) -> Vec<String> {
    let mut names = set.into_names();
    names.sort();
    names
}

fn web(selection: &JspiSelection) -> Vec<String> {
    sorted(resolve(selection, &fixture(), true).unwrap())
}

fn named(names: &[&str]) -> JspiSelection {
    JspiSelection::Named(names.iter().map(|s| s.to_string()).collect())
}

#[test]
fn a_namespace_offers_its_callables_in_order() {
    let namespace = fixture();
    let targets = namespace_targets(&namespace);
    let names: Vec<&str> = targets.iter().map(|t| t.name).collect();
    assert_eq!(names, ["add", "wait", "Thing", "Listener", "Point", "Shape", "Callback"]);
    let thing = &targets[2];
    assert_eq!(
        thing.exports,
        [
            ("ffi_new", None),
            ("ffi_from_name", None),
            ("ffi_fetch", Some("poll_u32")),
            ("ffi_display", None),
            ("ffi_debug", None),
            ("ffi_order", None),
        ]
    );
    let members: Vec<&str> = thing.members.iter().map(|t| t.name).collect();
    assert_eq!(members, ["constructor", "from_name", "fetch"]);
    assert_eq!(thing.members[2].exports, [("ffi_fetch", Some("poll_u32"))]);
    assert!(thing.members.iter().all(|member| member.members.is_empty()));
    let blocked: Vec<bool> = targets.iter().map(|t| t.has_callbacks).collect();
    assert_eq!(blocked, [false, false, false, true, false, false, true]);
    assert!(targets[3].members[0].has_callbacks);
    assert!(targets[6].exports.is_empty());
}

#[test]
fn a_namespace_selects_declared_callables_only() {
    assert_eq!(
        web(&JspiSelection::All(true)),
        [
            "ffi_add",
            "ffi_area",
            "ffi_debug",
            "ffi_display",
            "ffi_fetch",
            "ffi_from_name",
            "ffi_new",
            "ffi_norm",
            "ffi_order",
            "ffi_wait",
            "poll_u32_jspi",
            "poll_void_jspi",
        ]
    );
    assert_eq!(web(&named(&["Thing.constructor"])), ["ffi_new"]);
    assert_eq!(web(&named(&["thing.fromName"])), ["ffi_from_name"]);
    assert!(resolve(&named(&["Thing.new"]), &fixture(), true).is_err());
    assert!(resolve(&named(&["Callback"]), &fixture(), true)
        .unwrap_err()
        .message()
        .contains("callback-capable"));
    assert!(resolve(&JspiSelection::All(true), &fixture(), false).unwrap().is_empty());
}

#[test]
fn wasm2_leaves_out_what_its_abi_cannot_pass() {
    assert_eq!(
        sorted(find_eligible(&fixture().ffi_definitions)),
        [
            "ffi_add",
            "ffi_debug",
            "ffi_display",
            "ffi_fetch",
            "ffi_new",
            "ffi_order",
            "ffi_thing_free",
            "ffi_wait",
        ]
    );
    // `Thing` exports a function that takes a pointer, `Point` one that returns one, and that of
    // `Shape` is not defined at all.
    let all = resolve_wasm2(&JspiSelection::All(true), &fixture()).unwrap();
    assert_eq!(sorted(all), ["ffi_add", "ffi_wait", "poll_void_jspi"]);
    let member = resolve_wasm2(&named(&["Thing.fetch"]), &fixture()).unwrap();
    assert_eq!(sorted(member), ["ffi_fetch", "poll_u32_jspi"]);
    for selector in ["Thing", "Thing.fromName", "Point", "Shape.area"] {
        let message = resolve_wasm2(&named(&[selector]), &fixture()).unwrap_err().message();
        assert_eq!(
            message,
            format!(
                "wasm2 JSPI selection contains an unsupported callable: jspi selection `{selector}` \
                 is callback-capable or has an unsupported ABI; suspending inbound callback \
                 interfaces is not supported"
            )
        );
        assert!(resolve(&named(&[selector]), &fixture(), true).is_ok());
    }
}

#[test]
fn wasm2_agrees_with_web_on_what_it_can_pass() {
    let names = named(&["add", "Thing.fetch", "Thing.constructor"]);
    let narrow = resolve_wasm2(&names, &fixture()).unwrap();
    assert_eq!(sorted(narrow), web(&names));

    let mut all_eligible = fixture();
    all_eligible.ffi_definitions = ["add", "wait", "new", "from_name", "fetch", "display", "debug"]
        .iter()
        .chain(["order", "notify", "norm", "area"].iter())
        .map(|name| rust_function(&format!("ffi_{name}"), &[], None))
        .collect();
    let all = JspiSelection::All(true);
    assert_eq!(sorted(resolve_wasm2(&all, &all_eligible).unwrap()), web(&all));
}

#[test]
fn wasm2_passes_numbers_handles_and_buffers() {
    for ty in [
        FfiType::UInt8,
        FfiType::Int8,
        FfiType::UInt16,
        FfiType::Int16,
        FfiType::UInt32,
        FfiType::Int32,
        FfiType::UInt64,
        FfiType::Int64,
        FfiType::Float32,
        FfiType::Float64,
        FfiType::Handle,
        FfiType::RustBuffer,
    ] {
        assert!(ty.is_supported(), "{ty:?}");
    }
    for ty in [
        FfiType::ForeignBytes,
        FfiType::Function,
        FfiType::Struct,
        FfiType::RustCallStatus,
        FfiType::Reference,
        FfiType::MutReference,
        FfiType::VoidPointer,
    ] {
        assert!(!ty.is_supported(), "{ty:?}");
    }
}
