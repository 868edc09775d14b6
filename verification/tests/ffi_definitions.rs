use ubrn_napi::ffi::component::{CallableSignature, ComponentInterface, Object};
use ubrn_napi::ffi::definitions::{
    check_complete, declare, ffi_definitions2, find_callback, find_struct, FfiDefinition2,
    FfiStruct2, Traffic,
};
use ubrn_napi::ffi::roles::{
    classify_callback, snake_case_ident, CallbackRole, FfiCallbackFunction, FfiDefinition,
    FfiField, FfiStruct, FfiType,
};
use ubrn_napi::jspi::namespace::ObjectImpl;

fn callback(name: &str) -> FfiCallbackFunction {
    FfiCallbackFunction {
        name: name.into(),
        is_free_callback: name == "CallbackInterfaceFree",
        is_user_callback: name.starts_with("CallbackInterface") && name.contains("Method"),
        is_function_literal: name == "ForeignFutureDroppedCallback",
        is_continuation_callback: name == "RustFutureContinuationCallback",
        arg_return_type: None,
        has_return_out_param: false,
    }
}

fn define(name: &str) -> FfiDefinition {
    FfiDefinition::CallbackFunction(callback(name))
}

fn struct_(name: &str, fields: &[(&str, Option<&str>)]) -> FfiStruct {
    FfiStruct {
        name: name.into(),
        fields: fields
            .iter()
            .map(|(name, callback)| FfiField {
                name: name.to_string(),
                type_: match callback {
                    Some(callback) => FfiType::Callback(callback.to_string()),
                    None => FfiType::UInt64,
                },
            })
            .collect(),
        is_foreign_future: name.starts_with("ForeignFuture"),
        is_vtable: name.starts_with("VTable"),
    }
}

fn definitions() -> Vec<FfiDefinition> {
    vec![
        FfiDefinition::Function,
        define("CallbackInterfaceFree"),
        define("CallbackInterfaceClone"),
        define("CallbackInterfaceLoggerMethod0"),
        define("RustFutureContinuationCallback"),
        define("ForeignFutureDroppedCallback"),
        define("ForeignFutureCompleteU8"),
        FfiDefinition::Struct(struct_(
            "VTableCallbackInterfaceLogger",
            &[
                ("uniffi_free", Some("CallbackInterfaceFree")),
                ("uniffi_clone", Some("CallbackInterfaceClone")),
                ("log", Some("CallbackInterfaceLoggerMethod0")),
                ("size", None),
            ],
        )),
        FfiDefinition::Struct(struct_(
            "ForeignFutureDroppedCallbackStruct",
            &[("handle", None), ("free", Some("ForeignFutureDroppedCallback"))],
        )),
        FfiDefinition::Struct(struct_("Plain", &[("code", None)])),
    ]
}

/// One line for each definition: its form, its module and its methods.
fn lines(definitions: &[FfiDefinition2<'_>]) -> Vec<String> {
    definitions
        .iter()
        .map(|definition| match definition {
            FfiDefinition2::CallbackFunction(cb) => {
                format!("callback {} = {}", cb.module_ident(), cb.callback().name)
            }
            FfiDefinition2::FunctionLiteral(cb) => {
                format!("literal {} = {}", cb.module_ident(), cb.callback().name)
            }
            FfiDefinition2::Struct(st) => {
                let methods: Vec<String> = st
                    .method_names()
                    .iter()
                    .map(|name| format!("{name}:{}", st.method_mod_ident(name)))
                    .collect();
                format!("struct {} [{}]", st.module_ident(), methods.join(" "))
            }
        })
        .collect()
}

fn declared(has_async_calls: bool, has_callbacks: bool, has_async_callbacks: bool) -> Vec<String> {
    lines(&ffi_definitions2(
        &definitions(),
        has_async_calls,
        has_callbacks,
        has_async_callbacks,
    ))
}

#[test]
fn everything_is_declared_where_everything_is_needed() {
    let vtable = "v_table_callback_interface_logger";
    assert_eq!(
        declared(true, true, true),
        [
            format!("callback {vtable}__free = CallbackInterfaceFree"),
            format!("callback {vtable}__clone = CallbackInterfaceClone"),
            format!(
                "struct {vtable} [uniffi_free:{vtable}__free uniffi_clone:{vtable}__clone \
                 log:callback_interface_logger_method0]"
            ),
            "struct foreign_future_dropped_callback_struct \
             [free:foreign_future_dropped_callback]"
                .into(),
            "struct plain []".into(),
            "callback callback_interface_logger_method0 = CallbackInterfaceLoggerMethod0".into(),
            "callback rust_future_continuation_callback = RustFutureContinuationCallback".into(),
            "literal foreign_future_dropped_callback = ForeignFutureDroppedCallback".into(),
            "callback foreign_future_complete_u8 = ForeignFutureCompleteU8".into(),
        ]
    );
}

#[test]
fn nothing_is_declared_that_is_not_needed() {
    assert_eq!(declared(false, false, false), ["struct plain []"]);
    assert_eq!(
        declared(true, false, false),
        [
            "struct plain []",
            "callback rust_future_continuation_callback = RustFutureContinuationCallback",
        ]
    );
    assert_eq!(
        declared(false, false, true),
        [
            "struct foreign_future_dropped_callback_struct \
             [free:foreign_future_dropped_callback]",
            "struct plain []",
            "literal foreign_future_dropped_callback = ForeignFutureDroppedCallback",
            "callback foreign_future_complete_u8 = ForeignFutureCompleteU8",
        ]
    );
}

#[test]
fn modules_are_taken_as_given() {
    let definitions = definitions();
    let modules: Vec<String> = (0..definitions.len()).map(|i| format!("m{i}")).collect();
    let traffic = Traffic {
        has_async_calls: false,
        has_callbacks: true,
        has_async_callbacks: false,
    };
    let declared = declare(&definitions, &modules, traffic);
    assert_eq!(declared.len(), 5);
    let FfiDefinition2::CallbackFunction(free) = &declared[0] else {
        panic!("not a callback");
    };
    assert_eq!(free.module_ident(), "m7__free");
    let FfiDefinition2::Struct(vtable) = &declared[2] else {
        panic!("not a struct");
    };
    assert_eq!(vtable.method_names(), ["uniffi_free", "uniffi_clone", "log"]);
    assert_eq!(vtable.method_mod_ident("uniffi_clone"), "m7__clone");
    assert_eq!(vtable.method_mod_ident("log"), "m3");
    assert!(vtable.is_callback_method("log"));
    assert!(!vtable.is_callback_method("size"));
    assert_eq!(vtable.method_alias_ident("log"), "method_log");
    assert_eq!(vtable.fields().len(), 4);
    assert!(!vtable.is_passed_from_js_to_rust());
    let FfiDefinition2::CallbackFunction(method) = &declared[4] else {
        panic!("not a callback");
    };
    assert_eq!(method.module_ident(), "m3");
}

#[test]
fn the_last_definition_of_a_name_counts() {
    let mut definitions = definitions();
    definitions.push(FfiDefinition::Struct(struct_("Plain", &[("other", None)])));
    assert_eq!(find_struct(&definitions, "Plain"), Some(10));
    assert_eq!(find_struct(&definitions, "CallbackInterfaceFree"), None);
    assert_eq!(find_callback(&definitions, "CallbackInterfaceFree"), Some(1));
    assert_eq!(find_callback(&definitions, "Plain"), None);
    let declared = ffi_definitions2(&definitions, false, false, false);
    assert_eq!(lines(&declared), ["struct plain []"]);
    assert!(matches!(
        &declared[0],
        FfiDefinition2::Struct(st) if st.fields()[0].name == "other"
    ));
}

#[test]
fn a_missing_callback_is_noticed_where_it_matters() {
    let mut definitions = definitions();
    definitions.push(FfiDefinition::Struct(struct_("VTableX", &[("m", Some("Gone"))])));
    let with_callbacks = Traffic {
        has_async_calls: true,
        has_callbacks: true,
        has_async_callbacks: true,
    };
    assert!(!check_complete(&definitions, with_callbacks));
    let without = Traffic { has_callbacks: false, ..with_callbacks };
    assert!(check_complete(&definitions, without));
}

#[test]
fn the_first_role_that_fits_is_taken() {
    for (name, role) in [
        ("CallbackInterfaceFree", CallbackRole::Free),
        ("CallbackInterfaceClone", CallbackRole::Clone),
        ("CallbackInterfaceLoggerMethod0", CallbackRole::UserMethod),
        ("ForeignFutureDroppedCallback", CallbackRole::FunctionLiteral),
        ("RustFutureContinuationCallback", CallbackRole::Continuation),
        ("ForeignFutureCompleteU8", CallbackRole::FutureInfra),
    ] {
        assert_eq!(classify_callback(&callback(name)), role, "{name}");
    }
    let mut all = callback("CallbackInterfaceClone");
    all.is_user_callback = true;
    all.is_function_literal = true;
    all.is_continuation_callback = true;
    assert_eq!(classify_callback(&all), CallbackRole::Clone);
    all.is_free_callback = true;
    assert_eq!(classify_callback(&all), CallbackRole::Free);
}

#[test]
fn names_become_modules() {
    assert_eq!(snake_case_ident("ForeignFutureU8"), "foreign_future_u8");
    let st = struct_("VTableLogger", &[]);
    assert_eq!(st.module_ident(), snake_case_ident("VTableLogger"));
    let cb = callback("CallbackInterfaceFree");
    assert_eq!(cb.module_ident(), "callback_interface_free");
    assert_eq!(cb.module_ident_free(&st), format!("{}__free", st.module_ident()));
    assert_eq!(cb.module_ident_clone(&st), format!("{}__clone", st.module_ident()));
}

#[test]
fn future_callbacks_are_told_by_name() {
    assert!(callback("ForeignFutureCompleteU8").is_future_callback());
    assert!(callback("ForeignFuture").is_future_callback());
    assert!(!callback("ForeignFutureDroppedCallback").is_future_callback());
    assert!(!callback("RustFutureContinuationCallback").is_future_callback());
    assert!(callback("CallbackInterfaceClone").is_clone_callback());
    assert!(!callback("CallbackInterfaceFree").is_clone_callback());
}

#[test]
fn a_callback_returns_as_declared() {
    let mut cb = callback("CallbackInterfaceLoggerMethod0");
    cb.arg_return_type = Some(FfiType::Int8);
    cb.has_return_out_param = true;
    let definitions = vec![FfiDefinition::CallbackFunction(cb)];
    let declared = ffi_definitions2(&definitions, false, true, false);
    let FfiDefinition2::CallbackFunction(cb) = &declared[0] else {
        panic!("not a callback");
    };
    assert!(matches!(cb.return_type(), Some(FfiType::Int8)));
    assert!(cb.has_return_out_param());
}

fn interface(callbacks: &[&str], imp: ObjectImpl, is_async: bool) -> ComponentInterface {
    ComponentInterface {
        callback_interface_definitions: callbacks.iter().map(|s| s.to_string()).collect(),
        object_definitions: vec![Object { name: "Thing".into(), imp }],
        callables: vec![
            CallableSignature { is_async: false },
            CallableSignature { is_async },
        ],
        has_async_callback_interface_definition: false,
        ffi_definitions: definitions(),
    }
}

#[test]
fn a_component_is_read_for_its_traffic() {
    let quiet = interface(&[], ObjectImpl::Trait, false);
    assert!(!quiet.has_callbacks() && !quiet.has_async_calls());
    assert!(interface(&["Logger"], ObjectImpl::Struct, false).has_callbacks());
    assert!(interface(&[], ObjectImpl::CallbackTrait, false).has_callbacks());
    let busy = interface(&[], ObjectImpl::Struct, true);
    assert!(busy.has_async_calls());
    let traffic = busy.read_traffic();
    assert!(traffic.has_async_calls && !traffic.has_callbacks && !traffic.has_async_callbacks);
    assert_eq!(lines(&busy.ffi_definitions2()), declared(true, false, false));
    assert_eq!(lines(&quiet.ffi_definitions2()), ["struct plain []"]);
}

#[test]
fn foreign_futures_go_from_foreign_code_to_rust() {
    let definitions = definitions();
    let declared = ffi_definitions2(&definitions, false, false, true);
    let passed: Vec<bool> = declared
        .iter()
        .filter_map(|definition| match definition {
            FfiDefinition2::Struct(st) => Some(FfiStruct2::is_passed_from_js_to_rust(st)),
            _ => None,
        })
        .collect();
    assert_eq!(passed, [true, false]);
}

#[test]
fn the_order_of_definitions_does_not_matter() {
    let sorted = |definitions: &Vec<FfiDefinition>| {
        let mut lines = lines(&ffi_definitions2(definitions, true, true, true));
        lines.sort();
        lines
    };
    let forward = definitions();
    let mut backward = definitions();
    backward.reverse();
    backward.retain(|definition| !matches!(definition, FfiDefinition::Function));
    assert_eq!(sorted(&forward), sorted(&backward));
    backward.push(FfiDefinition::Function);
    backward.push(FfiDefinition::Function);
    assert_eq!(sorted(&forward), sorted(&backward));
}

#[test]
fn more_traffic_declares_no_less() {
    let all = declared(true, true, true);
    for flags in 0..8 {
        for line in declared(flags & 1 != 0, flags & 2 != 0, flags & 4 != 0) {
            assert!(all.contains(&line), "{line}");
        }
    }
}
