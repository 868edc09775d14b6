use ubrn_napi::jspi::select::{select, select_wasm2};
use ubrn_napi::jspi::selection::{JspiOptions, JspiSelection};
use ubrn_napi::jspi::target::Target;
use ubrn_napi::name_set::NameSet;

fn targets() -> Vec<Target<'static>> {
    vec![
        Target {
            name: "compute_value",
            has_callbacks: false,
            members: vec![],
            exports: vec![("ffi_compute", None)],
        },
        Target {
            name: "future",
            has_callbacks: false,
            members: vec![],
            exports: vec![("ffi_future", Some("ffi_poll_u32"))],
        },
        Target {
            name: "Processor",
            has_callbacks: false,
            members: vec![],
            exports: vec![
                ("ffi_new", None),
                ("ffi_method", None),
                ("ffi_display", None),
                ("ffi_async_method", Some("ffi_poll_u32")),
            ],
        },
        Target {
            name: "Listener",
            has_callbacks: true,
            members: vec![],
            exports: vec![("ffi_callback", None)],
        },
    ]
}

fn named(name: &str) -> JspiSelection {
    JspiSelection::Named(vec![name.into()])
}

fn options(rust_async: bool, included: &[&str], excluded: &[&str]) -> JspiSelection {
    JspiSelection::Options(JspiOptions {
        rust_async,
        included: included.iter().map(|s| s.to_string()).collect(),
        excluded: excluded.iter().map(|s| s.to_string()).collect(),
    })
}

fn member(
    name: &'static str,
    symbol: &'static str,
    poll: Option<&'static str>,
) -> Target<'static> {
    Target {
        name,
        has_callbacks: false,
        members: vec![],
        exports: vec![(symbol, poll)],
    }
}

fn sorted(set: NameSet) -> Vec<String> {
    let mut names = set.into_names();
    names.sort();
    names
}

fn set(names: &[&str]) -> Vec<String> {
    let mut names: Vec<String> = names.iter().map(|s| s.to_string()).collect();
    names.sort();
    names
}

/// The selected symbols in order, or the message of the error.
fn web(selection: &JspiSelection, targets: &[Target<'_>]) -> Result<Vec<String>, String> {
    match select(selection, targets, true) {
        Ok(selected) => Ok(sorted(selected)),
        Err(e) => Err(e.message()),
    }
}

fn wasm2(selection: &JspiSelection, targets: &[Target<'_>]) -> Result<Vec<String>, String> {
    match select_wasm2(selection, targets) {
        Ok(selected) => Ok(sorted(selected)),
        Err(e) => Err(e.message()),
    }
}

fn off_web(selection: &JspiSelection, targets: &[Target<'_>]) -> NameSet {
    match select(selection, targets, false) {
        Ok(selected) => selected,
        Err(e) => panic!("{}", e.message()),
    }
}

#[test]
fn granular_selection_normalizes_each_component_and_deduplicates_overlaps() {
    let mut targets = targets();
    targets[2].members = vec![
        member("constructor", "ffi_new", None),
        member("method", "ffi_method", None),
        member("async_method", "ffi_async_method", Some("ffi_poll_u32")),
    ];
    for is_wasm2 in [false, true] {
        let resolver = |s: &JspiSelection, t: &[Target<'_>]| {
            if is_wasm2 {
                wasm2(s, t)
            } else {
                web(s, t)
            }
        };
        assert_eq!(
            resolver(&named("processor.asyncMethod"), &targets).unwrap(),
            set(&["ffi_async_method", "ffi_poll_u32_jspi"])
        );
        assert_eq!(
            resolver(&named("Processor.constructor"), &targets).unwrap(),
            set(&["ffi_new"])
        );
        let overlap = JspiSelection::Named(vec![
            "Processor.asyncMethod".into(),
            "Processor".into(),
            "Processor.constructor".into(),
            "processor.async_method".into(),
        ]);
        assert_eq!(
            resolver(&overlap, &targets).unwrap(),
            resolver(&named("Processor"), &targets).unwrap()
        );
    }
    assert!(off_web(&named("Processor.asyncMethod"), &targets).is_empty());
    // Member eligibility remains independent of its siblings on wasm2.
    targets[2].has_callbacks = true;
    assert!(wasm2(&named("Processor"), &targets).is_err());
    assert!(wasm2(&named("Processor.asyncMethod"), &targets).is_ok());
    targets[2].members[2].has_callbacks = true;
    assert!(wasm2(&named("Processor.asyncMethod"), &targets).is_err());
}

#[test]
fn malformed_unknown_and_ambiguous_members_are_errors() {
    let mut targets = targets();
    targets[2].members = vec![
        member("from_label", "ffi_a", None),
        member("fromLabel", "ffi_b", None),
    ];
    for (selector, expected) in [
        ("Processor.fromLabel", "ambiguous"),
        ("Processor.missing", "unknown"),
        ("Processor.free", "unknown"),
        ("Processor.clone", "unknown"),
        ("computeValue.member", "unknown"),
        ("Processor.", "invalid"),
        (".constructor", "invalid"),
        ("Processor.member.extra", "invalid"),
        ("", "invalid"),
    ] {
        let error = web(&named(selector), &targets).unwrap_err();
        assert!(
            error.contains(expected) && error.contains(selector),
            "{error}"
        );
    }
    targets.push(member("processor", "ffi_collision", None));
    for selector in ["Processor", "Processor.fromLabel"] {
        assert!(web(&named(selector), &targets)
            .unwrap_err()
            .contains("ambiguous"));
    }
}

#[test]
fn a_zero_export_type_does_not_make_a_callable_name_ambiguous() {
    let mut targets = vec![
        member("load_settings", "ffi_load_settings", None),
        Target {
            name: "LoadSettings",
            has_callbacks: false,
            members: vec![],
            exports: vec![],
        },
    ];

    assert_eq!(
        web(&named("loadSettings"), &targets).unwrap(),
        set(&["ffi_load_settings"])
    );
    targets.push(member("loadSettings", "ffi_other_load_settings", None));
    assert!(web(&named("loadSettings"), &targets)
        .unwrap_err()
        .contains("ambiguous"));
}

#[test]
fn wasm2_selects_async_and_type_callables_and_rejects_callbacks() {
    let mut top = targets();
    top.truncate(2); // the namespace contributes functions only
    assert_eq!(
        wasm2(&JspiSelection::All(true), &top).unwrap(),
        set(&["ffi_compute", "ffi_future", "ffi_poll_u32_jspi"])
    );
    assert_eq!(
        wasm2(&named("computeValue"), &top).unwrap(),
        set(&["ffi_compute"])
    );
    assert_eq!(
        wasm2(&named("future"), &top).unwrap(),
        set(&["ffi_future", "ffi_poll_u32_jspi"])
    );
    assert_eq!(
        wasm2(&named("Processor"), &targets()).unwrap(),
        set(&[
            "ffi_new",
            "ffi_method",
            "ffi_display",
            "ffi_async_method",
            "ffi_poll_u32_jspi"
        ])
    );
    assert!(wasm2(&named("Listener"), &targets()).is_err());
    top.truncate(1);
    top[0].has_callbacks = true;
    assert!(wasm2(&JspiSelection::All(true), &top).unwrap().is_empty());
    assert!(wasm2(&named("computeValue"), &top).is_err());
}

#[test]
fn selection_includes_dedicated_async_poll_adapters() {
    assert_eq!(
        web(&named("processor"), &targets()).unwrap(),
        set(&[
            "ffi_new",
            "ffi_method",
            "ffi_display",
            "ffi_async_method",
            "ffi_poll_u32_jspi"
        ])
    );
    assert_eq!(
        web(&named("future"), &targets()).unwrap(),
        set(&["ffi_future", "ffi_poll_u32_jspi"])
    );
    assert_eq!(
        web(&named("computeValue"), &targets()).unwrap(),
        set(&["ffi_compute"])
    );
    assert_eq!(
        web(&JspiSelection::All(true), &targets()).unwrap(),
        set(&[
            "ffi_compute",
            "ffi_new",
            "ffi_method",
            "ffi_display",
            "ffi_future",
            "ffi_async_method",
            "ffi_poll_u32_jspi"
        ])
    );
}

#[test]
fn invalid_selection_is_an_error_and_unsupported_backends_ignore_jspi() {
    for (name, message) in [
        ("Listener", "callback-capable"),
        ("Processor.new", "primary constructor"),
        ("typo", "top-level function"),
    ] {
        assert!(web(&named(name), &targets()).unwrap_err().contains(message));
    }
    assert!(off_web(&JspiSelection::All(true), &targets()).is_empty());
    assert!(off_web(&named("typo"), &targets()).is_empty());
}

/// The selection that the `jspi` key of a configuration stands for.
fn jspi_setting(setting: &str) -> JspiSelection {
    let table: toml::Table = setting.parse().unwrap();
    match table.get("jspi") {
        None => JspiSelection::All(false),
        Some(toml::Value::Boolean(all)) => JspiSelection::All(*all),
        Some(toml::Value::Array(names)) => JspiSelection::Named(
            names
                .iter()
                .map(|name| name.as_str().unwrap().to_owned())
                .collect(),
        ),
        Some(other) => panic!("unexpected setting {other}"),
    }
}

#[test]
fn disabled_and_force_async_only_do_not_select_jspi_exports() {
    for setting in ["", "forceAsync = true", "jspi = false", "jspi = []"] {
        assert!(off_web(&jspi_setting(setting), &targets()).is_empty());
    }
}

#[test]
fn rust_async_selects_only_async_callables_and_unions_includes() {
    let automatic = options(true, &[], &[]);
    assert_eq!(
        web(&automatic, &targets()).unwrap(),
        set(&["ffi_future", "ffi_async_method", "ffi_poll_u32_jspi"])
    );

    let with_sync = options(true, &["computeValue"], &[]);
    assert_eq!(
        web(&with_sync, &targets()).unwrap(),
        set(&[
            "ffi_compute",
            "ffi_future",
            "ffi_async_method",
            "ffi_poll_u32_jspi"
        ])
    );
    assert!(off_web(&automatic, &targets()).is_empty());
}

#[test]
fn exclusions_subtract_from_all_or_an_explicit_selection() {
    let mut targets = targets();
    targets[2].members = vec![
        member("constructor", "ffi_new", None),
        member("method", "ffi_method", None),
        member("async_method", "ffi_async_method", Some("ffi_poll_u32")),
    ];
    let all_except_constructor = options(false, &[], &["Processor.constructor"]);
    assert_eq!(
        web(&all_except_constructor, &targets).unwrap(),
        set(&[
            "ffi_compute",
            "ffi_future",
            "ffi_method",
            "ffi_display",
            "ffi_async_method",
            "ffi_poll_u32_jspi"
        ])
    );

    let included_type_except_method = options(false, &["Processor"], &["Processor.method"]);
    assert_eq!(
        web(&included_type_except_method, &targets).unwrap(),
        set(&[
            "ffi_new",
            "ffi_display",
            "ffi_async_method",
            "ffi_poll_u32_jspi"
        ])
    );
}
