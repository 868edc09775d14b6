use ubrn_napi::manifest::fill_run_manifest;
use ubrn_napi::plan::{Addon, Contents, Place};
use ubrn_napi::runner::{Napi, RunCmd, RunStep};

fn cmd(has_crate: bool, has_cpp_binding: bool, has_generate_bindings: bool) -> RunCmd {
    RunCmd {
        has_crate,
        has_cpp_binding,
        has_generate_bindings,
        clean: true,
    }
}

#[test]
fn a_run_builds_stages_and_executes() {
    assert_eq!(
        Napi.run(&cmd(true, false, true)),
        [
            RunStep::EnsureYarn,
            RunStep::BuildCrate { clean: true },
            RunStep::MakeDir(Place::GeneratedSource),
            RunStep::GenerateBindings,
            RunStep::Write { place: Place::Entrypoint, contents: Contents::Entrypoint },
            RunStep::Canonicalize,
            RunStep::Write { place: Place::Manifest, contents: Contents::Manifest },
            RunStep::Write { place: Place::BuildScript, contents: Contents::BuildScript },
            RunStep::Compile,
            RunStep::RequireAddon,
            RunStep::MakeDir(Place::AddonDir),
            RunStep::CopyAddon { to: Place::Addon(Addon::Host) },
            RunStep::Write { place: Place::Loader, contents: Contents::SingleLoader },
            RunStep::FindScript,
            RunStep::RunScript,
        ]
    );
}

#[test]
fn a_run_without_an_addon_only_executes() {
    for (has_crate, has_cpp_binding, has_generate_bindings) in [
        (false, false, false),
        (false, false, true),
        (false, true, true),
        (true, false, false),
        (true, true, false),
        (true, true, true),
    ] {
        let cmd = cmd(has_crate, has_cpp_binding, has_generate_bindings);
        assert_eq!(
            Napi.run(&cmd),
            [RunStep::EnsureYarn, RunStep::FindScript, RunStep::RunScript]
        );
        assert!(Napi.prepare_library_path(&cmd).is_empty());
    }
}

#[test]
fn a_run_compiles_for_the_host() {
    assert_eq!(
        Napi.compile_napi("gen/Cargo.toml", "debug"),
        ["build", "--manifest-path", "gen/Cargo.toml"]
    );
    assert_eq!(
        Napi.compile_napi("gen/Cargo.toml", "release"),
        ["build", "--manifest-path", "gen/Cargo.toml", "--profile", "release"]
    );
}

#[test]
fn a_run_manifest_names_package_library_and_path() {
    let template = "{{crate_name}} {{crate_lib_name}} {{crate_path}} {{crate_name}}";
    assert_eq!(
        fill_run_manifest(template, "my-crate", "../.."),
        "my-crate my_crate ../.. my-crate"
    );
    assert_eq!(
        Napi.render_cargo_toml(template, "/w/gen/abi", "my-crate", "/w/crates/my-crate").unwrap(),
        "my-crate my_crate ../../crates/my-crate my-crate"
    );
    assert!(Napi.render_cargo_toml(template, "/w/gen", "c", "w/crates").is_none());
}

#[test]
fn run_steps_have_their_places() {
    let places: Vec<Option<Place>> = Napi
        .prepare_library_path(&cmd(true, false, true))
        .iter()
        .map(|step| step.place())
        .collect();
    assert_eq!(
        places,
        [
            None,
            Some(Place::GeneratedSource),
            Some(Place::GeneratedSource),
            Some(Place::Entrypoint),
            Some(Place::GeneratedCrate),
            Some(Place::Manifest),
            Some(Place::BuildScript),
            Some(Place::Manifest),
            Some(Place::Manifest),
            Some(Place::AddonDir),
            Some(Place::Addon(Addon::Host)),
            Some(Place::Loader),
        ]
    );
}
