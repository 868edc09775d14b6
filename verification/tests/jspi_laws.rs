use ubrn_napi::jspi::exports::{collect_symbols, rust_async_exports};
use ubrn_napi::jspi::select::{select, select_wasm2};
use ubrn_napi::jspi::selection::{JspiOptions, JspiSelection, SelectError};
use ubrn_napi::jspi::selector::{
    choose_callable, choose_member, choose_owner, find_sole, parse_selector, resolve_selector,
    select_named,
};
use ubrn_napi::jspi::target::Target;

fn target(
    name: &'static str,
    has_callbacks: bool,
    exports: &[(&'static str, Option<&'static str>)],
) -> Target<'static> {
    Target {
        name,
        has_callbacks,
        members: vec![],
        exports: exports.to_vec(),
    }
}

/// A function, a type with two members, a listener and a data-only type.
fn targets() -> Vec<Target<'static>> {
    let mut store = target("Store", false, &[("ffi_open", None), ("ffi_read", Some("poll_u8"))]);
    store.members = vec![
        target("constructor", false, &[("ffi_open", None)]),
        target("read", false, &[("ffi_read", Some("poll_u8"))]),
    ];
    vec![
        target("run", false, &[("ffi_run", None)]),
        store,
        target("Listener", true, &[("ffi_listen", Some("poll_void"))]),
        target("Options", false, &[]),
    ]
}

fn strings(list: &[&str]) -> Vec<String> {
    list.iter().map(|s| s.to_string()).collect()
}

fn named(names: &[&str]) -> JspiSelection {
    JspiSelection::Named(strings(names))
}

fn options(rust_async: bool, included: &[&str], excluded: &[&str]) -> JspiSelection {
    JspiSelection::Options(JspiOptions {
        rust_async,
        included: strings(included),
        excluded: strings(excluded),
    })
}

fn selected(selection: &JspiSelection) -> Vec<String> {
    let mut names = select(selection, &targets(), true).unwrap().into_names();
    names.sort();
    names
}

fn error(selector: &str, targets: &[Target<'_>]) -> String {
    select(&named(&[selector]), targets, true).unwrap_err().message()
}

#[test]
fn every_error_says_what_is_wrong() {
    let mut all = targets();
    all.push(target("run_", false, &[("ffi_run_again", None)]));
    all[1].members.push(target("Read", false, &[("ffi_read_more", None)]));
    assert_eq!(
        error("a.b.c", &all),
        "invalid jspi selector `a.b.c`: expected a function, type, or Type.member \
         (Type.constructor for the primary constructor)"
    );
    assert_eq!(
        error("gone.x", &all),
        "unknown jspi selection `gone.x`: no top-level function or object/record/enum type \
         matches `gone`"
    );
    assert_eq!(
        error("Run", &all),
        "ambiguous jspi selection `Run`: multiple top-level functions or types match `Run`"
    );
    assert_eq!(
        error("store.gone", &all),
        "unknown jspi selection `store.gone`: no method or constructor matches `gone` on `store` \
         (use Type.constructor for the primary constructor)"
    );
    assert_eq!(
        error("Store.read", &all),
        "ambiguous jspi selection `Store.read`: multiple methods or constructors match after name \
         normalization"
    );
    let restricted = "jspi selection `listener` is callback-capable or has an unsupported ABI; \
                      suspending inbound callback interfaces is not supported";
    assert_eq!(error("listener", &all), restricted);
    assert_eq!(
        select_wasm2(&named(&["listener"]), &all).unwrap_err().message(),
        format!("wasm2 JSPI selection contains an unsupported callable: {restricted}")
    );
}

#[test]
fn the_first_bad_selector_decides() {
    let all = targets();
    let both = named(&["run", "gone", "Listener"]);
    assert!(matches!(
        select(&both, &all, true),
        Err(SelectError::UnknownOwner { selector, owner }) if selector == "gone" && owner == "gone"
    ));
    // What is included is looked at before what is excluded.
    let mixed = options(false, &["Listener"], &["gone"]);
    assert!(matches!(
        select(&mixed, &all, true),
        Err(SelectError::CallbackCapable { selector }) if selector == "Listener"
    ));
    let excluded = options(true, &["run"], &["."]);
    assert!(matches!(
        select(&excluded, &all, true),
        Err(SelectError::Invalid { selector }) if selector == "."
    ));
}

#[test]
fn excluded_exports_are_told_apart_by_symbol_and_poll() {
    // The poll adapter stays, as another export still needs it.
    let exports = vec![("a", Some("poll")), ("b", Some("poll")), ("b", None)];
    let symbols = collect_symbols(&exports, &vec![("b", Some("poll"))]).into_names();
    assert_eq!(symbols, ["a", "poll_jspi", "b"]);
    let none = collect_symbols(&exports, &exports);
    assert!(none.is_empty());
}

#[test]
fn exclusions_win_over_inclusions() {
    assert_eq!(selected(&options(false, &["Store"], &["Store.read"])), ["ffi_open"]);
    assert_eq!(selected(&options(false, &["run"], &["run"])), [""; 0]);
    assert_eq!(selected(&options(true, &[], &["Store.read"])), [""; 0]);
}

#[test]
fn excluding_alone_starts_from_everything() {
    assert_eq!(
        selected(&options(false, &[], &["run"])),
        ["ffi_open", "ffi_read", "poll_u8_jspi"]
    );
    assert_eq!(
        selected(&JspiSelection::All(true)),
        ["ffi_open", "ffi_read", "ffi_run", "poll_u8_jspi"]
    );
    // With nothing to exclude, options start from nothing.
    assert_eq!(selected(&options(false, &[], &[])), [""; 0]);
}

#[test]
fn rust_async_adds_polled_members_that_can_suspend() {
    assert_eq!(selected(&options(true, &[], &[])), ["ffi_read", "poll_u8_jspi"]);
    assert_eq!(
        selected(&options(true, &["run"], &[])),
        ["ffi_read", "ffi_run", "poll_u8_jspi"]
    );
    let mut all = targets();
    assert_eq!(rust_async_exports(&all), [("ffi_read", Some("poll_u8"))]);
    all[1].members[1].has_callbacks = true;
    assert!(rust_async_exports(&all).is_empty());
    // Without members, the target itself counts.
    all[2].has_callbacks = false;
    assert_eq!(rust_async_exports(&all), [("ffi_listen", Some("poll_void"))]);
}

#[test]
fn named_selections_unite() {
    let mut apart = selected(&named(&["run"]));
    apart.extend(selected(&named(&["Store.constructor"])));
    apart.sort();
    assert_eq!(selected(&named(&["run", "Store.constructor"])), apart);
    assert_eq!(selected(&named(&[])), [""; 0]);
    assert_eq!(selected(&JspiSelection::All(false)), [""; 0]);
}

#[test]
fn case_conventions_do_not_matter() {
    assert_eq!(selected(&named(&["STORE.Read"])), selected(&named(&["store.read"])));
}

#[test]
fn a_data_only_type_can_be_named_alone() {
    assert_eq!(selected(&named(&["Options"])), [""; 0]);
    let mut all = targets();
    all.push(target("options", false, &[("ffi_options", None)]));
    let chosen = resolve_selector("Options", &all).unwrap();
    assert_eq!(chosen.exports, [("ffi_options", None)]);
    all.pop();
    all.push(target("options", false, &[]));
    assert!(matches!(
        resolve_selector("Options", &all),
        Err(SelectError::AmbiguousOwner { .. })
    ));
}

#[test]
fn members_are_selected_whatever_their_owner_can_do() {
    let mut all = targets();
    all[1].has_callbacks = true;
    all[1].members[0].has_callbacks = true;
    assert!(resolve_selector("Store", &all).is_err());
    assert!(resolve_selector("Store.constructor", &all).is_err());
    assert_eq!(
        resolve_selector("Store.read", &all).unwrap().exports,
        [("ffi_read", Some("poll_u8"))]
    );
}

#[test]
fn a_choice_is_made_from_the_hits() {
    assert_eq!(find_sole(&vec![false, true, false]), Some(1));
    assert_eq!(find_sole(&vec![true, true]), None);
    assert_eq!(find_sole(&vec![]), None);

    let all = targets();
    let owner = |hits: [bool; 4]| choose_owner("s", "o", &all, &hits.to_vec());
    assert!(matches!(owner([false, true, false, false]), Ok(1)));
    // The data-only type gives way, and stands when it is alone.
    assert!(matches!(owner([true, false, false, true]), Ok(0)));
    assert!(matches!(owner([false, false, false, true]), Ok(3)));
    assert!(matches!(owner([true, true, false, false]), Err(SelectError::AmbiguousOwner { .. })));
    assert!(matches!(owner([false; 4]), Err(SelectError::UnknownOwner { .. })));

    assert!(matches!(choose_member("s", "o", "m", &vec![false, true]), Ok(1)));
    assert!(matches!(
        choose_member("s", "o", "m", &vec![]),
        Err(SelectError::UnknownMember { .. })
    ));
    assert!(matches!(
        choose_member("s", "o", "m", &vec![true, true]),
        Err(SelectError::AmbiguousMember { .. })
    ));
}

#[test]
fn a_callable_is_chosen_within_its_owner() {
    let all = targets();
    let member = parse_selector("Store.read").unwrap();
    let chosen = choose_callable("Store.read", &member, &all[1], &vec![false, true]).unwrap();
    assert_eq!(chosen.name, "read");
    let whole = parse_selector("Listener").unwrap();
    assert!(matches!(
        choose_callable("Listener", &whole, &all[2], &vec![]),
        Err(SelectError::CallbackCapable { .. })
    ));
}

#[test]
fn including_alone_is_naming() {
    assert_eq!(
        selected(&options(false, &["run", "Store.read"], &[])),
        selected(&named(&["run", "Store.read"]))
    );
}

#[test]
fn selectors_lead_to_the_targets_themselves() {
    let all = targets();
    let store = resolve_selector("store", &all).unwrap();
    assert!(std::ptr::eq(store, &all[1]));
    assert_eq!(store.members.len(), 2);
    let read = resolve_selector("store.read", &all).unwrap();
    assert!(std::ptr::eq(read, &all[1].members[1]));

    let mut picked = vec![&all[3]];
    let names = strings(&["run", "store.read", "gone", "store"]);
    assert!(select_named(&names, &all, &mut picked).is_err());
    let picked: Vec<&str> = picked.iter().map(|t| t.name).collect();
    assert_eq!(picked, ["Options", "run", "read"]);
}
