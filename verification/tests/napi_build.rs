use ubrn_napi::cargo_args::{
    apply_feature_config, bound_crate_args, choose_profile, generated_crate_args,
};
use ubrn_napi::command::{
    AbiFlavor, Action, BindgenArgs, BindingsArgs, BuildArgs, Cmd, CmdArg, OutputArgs, Program,
    SourceArgs,
};
use ubrn_napi::config::{NapiConfig, Target, TargetsError};
use ubrn_napi::loader::{single_loader, target_loader};
use ubrn_napi::manifest::{
    build_script, crate_dependency_line, fill_build_manifest, render_cargo_toml,
};
use ubrn_napi::plan::{Addon, BuildStep, BuildTargets, Contents, Place, Root};

const DARWIN: Target = Target::Aarch64AppleDarwin;
const LINUX: Target = Target::X86_64UnknownLinuxGnu;
const FOR_DARWIN: Addon = Addon::For(DARWIN);
const FOR_LINUX: Addon = Addon::For(LINUX);

/// The head of a manifest for a generated crate.
const TEMPLATE: &str = "[package]\nname = \"uniffi-napi-bindings\"\n\n[lib]\nname = \
                        \"{{crate_lib_name}}_napi\"\n\n[dependencies]\n{{crate_dependency}}\n\n\
                        [build-dependencies]\nnapi-build = \"2\"\n";

fn build_args(targets: &[Target], no_cargo: bool) -> BuildArgs {
    BuildArgs {
        crate_dir: "rust/shim/Cargo.toml".into(),
        ts_dir: "src/generated".into(),
        abi_dir: "native/generated".into(),
        toml: None,
        config: Some("ubrn.config.yaml".into()),
        no_format: false,
        release: false,
        profile: None,
        no_cargo,
        targets: targets.to_vec(),
    }
}

/// Where a build with `args` puts `place`.
fn path_of(args: &BuildArgs, place: Place) -> String {
    place.path(&args.abi_dir, &args.ts_dir, "src/lib.rs")
}

/// The commands of a build, in order, and the files that it writes.
fn run(args: &BuildArgs, config: &NapiConfig) -> (Vec<Vec<String>>, Vec<(String, String)>) {
    let targets = args.build_targets(config).unwrap();
    let mut commands = Vec::new();
    let mut files = Vec::new();
    for step in args.run(&targets, false) {
        let path = match step.place() {
            Some(place) => path_of(args, place),
            None => String::new(),
        };
        let manifest = "fixtures/arithmetic/Cargo.toml";
        if let Some(invocation) = args.invocation(&step, config, manifest, &path) {
            assert_eq!(invocation.program.name(), "cargo");
            commands.push(invocation.args);
        }
        match step {
            BuildStep::GenerateBindings => {
                let bindings = args.bindings("libarithmetic.so", &path, false);
                assert_eq!(bindings.output.ts_dir, "src/generated");
                assert_eq!(bindings.output.abi_dir, "native/generated/src");
                commands.push(vec!["prettier".into()]);
            }
            BuildStep::Write { contents, .. } => {
                let text = match contents {
                    Contents::Entrypoint => Some(String::new()),
                    Contents::Manifest => args.render_cargo_toml(
                        TEMPLATE,
                        "uniffi-example-arithmetic",
                        "fixtures/arithmetic",
                        config,
                    ),
                    _ => targets.fixed_text(contents),
                };
                files.push((path, text.unwrap()));
            }
            _ => (),
        }
    }
    (commands, files)
}

fn file<'a>(files: &'a [(String, String)], path: &str) -> &'a str {
    match files.iter().find(|(name, _)| name == path) {
        Some((_, contents)) => contents,
        None => panic!("{path} is not written"),
    }
}

fn has_pair(command: &[String], name: &str, value: &str) -> bool {
    command.windows(2).any(|pair| pair[0] == name && pair[1].ends_with(value))
}

#[test]
fn test_happy_path_napi_multiple_targets() {
    let config = NapiConfig { targets: Some(vec![LINUX]), ..NapiConfig::default() };
    let targets: Vec<Target> = "x86_64-unknown-linux-gnu,aarch64-apple-darwin"
        .split(',')
        .map(|name| Target::from_str(name).unwrap())
        .collect();
    let (commands, files) = run(&build_args(&targets, false), &config);

    assert_eq!(commands.len(), 4);
    assert_eq!(commands[0][0], "build");
    assert!(has_pair(&commands[0], "--manifest-path", "fixtures/arithmetic/Cargo.toml"));
    assert_eq!(commands[1], ["prettier"]);
    assert_eq!(commands[2][0], "build");
    assert!(has_pair(&commands[2], "--manifest-path", "native/generated/Cargo.toml"));
    assert!(has_pair(&commands[2], "--target", "x86_64-unknown-linux-gnu"));
    assert_eq!(commands[3][0], "build");
    assert!(has_pair(&commands[3], "--manifest-path", "native/generated/Cargo.toml"));
    assert!(has_pair(&commands[3], "--target", "aarch64-apple-darwin"));

    let manifest = file(&files, "native/generated/Cargo.toml");
    assert!(manifest.contains("name = \"uniffi-napi-bindings\""));
    assert!(manifest.contains("name = \"uniffi_example_arithmetic_napi\""));
    assert!(manifest.contains("napi-build = \"2\""));
    file(&files, "native/generated/src/lib.rs");
    let loader = file(&files, "src/generated/napi-bindings/index.js");
    assert!(loader.contains("\"linux-x64\": \"./linux-x64.node\""));
    assert!(loader.contains("\"darwin-arm64\": \"./darwin-arm64.node\""));
    assert!(loader.contains("const target = `${process.platform}-${process.arch}`"));
    assert!(loader.contains("Unsupported N-API target"));
}

#[test]
fn test_happy_path_napi_skip_build() {
    let targets = [Target::from_str("x86_64-unknown-linux-gnu").unwrap()];
    let (commands, files) = run(&build_args(&targets, true), &NapiConfig::default());

    assert_eq!(commands.len(), 2, "expected only prettier and generated crate build");
    assert_eq!(commands[0], ["prettier"]);
    assert_eq!(commands[1][0], "build");
    assert!(has_pair(&commands[1], "--manifest-path", "native/generated/Cargo.toml"));
    assert!(has_pair(&commands[1], "--target", "x86_64-unknown-linux-gnu"));

    let loader = file(&files, "src/generated/napi-bindings/index.js");
    assert!(loader.contains("\"linux-x64\": \"./linux-x64.node\""));
    assert!(loader.contains("Unsupported N-API target"));
}

#[test]
fn a_build_without_targets_is_for_the_host() {
    let (commands, files) = run(&build_args(&[], false), &NapiConfig::default());
    assert_eq!(
        commands,
        [
            vec!["build", "--manifest-path", "fixtures/arithmetic/Cargo.toml"],
            vec!["prettier"],
            vec!["build", "--manifest-path", "native/generated/Cargo.toml"],
        ]
    );
    assert_eq!(file(&files, "src/generated/napi-bindings/index.js"), single_loader());
    let args = build_args(&[], true);
    let steps = args.run(&BuildTargets::Host, true);
    assert_eq!(
        steps[7..],
        [
            BuildStep::Compile(Addon::Host),
            BuildStep::RequireAddon(Addon::Host),
            BuildStep::MakeDir(Place::AddonDir),
            BuildStep::CopyAddon { addon: Addon::Host, to: Place::Addon(Addon::Host) },
            BuildStep::Sign(Place::Addon(Addon::Host)),
            BuildStep::Write { place: Place::Loader, contents: Contents::SingleLoader },
        ]
    );
    assert!(!args.run(&BuildTargets::Host, false).contains(&BuildStep::Sign(Place::Addon(Addon::Host))));
}

#[test]
fn a_build_takes_its_steps_in_order() {
    let both = BuildTargets::Listed(vec![DARWIN, LINUX]);
    assert_eq!(both.list_addons(), [FOR_DARWIN, FOR_LINUX]);
    let steps = build_args(&[DARWIN, LINUX], false).run(&both, true);
    assert_eq!(
        steps,
        [
            BuildStep::BuildCrate,
            BuildStep::RequireLibrary,
            BuildStep::MakeDir(Place::GeneratedCrate),
            BuildStep::MakeDir(Place::GeneratedSource),
            BuildStep::GenerateBindings,
            BuildStep::Write { place: Place::Entrypoint, contents: Contents::Entrypoint },
            BuildStep::Write { place: Place::Manifest, contents: Contents::Manifest },
            BuildStep::Write { place: Place::BuildScript, contents: Contents::BuildScript },
            BuildStep::Compile(FOR_DARWIN),
            BuildStep::Compile(FOR_LINUX),
            BuildStep::RequireAddon(FOR_DARWIN),
            BuildStep::RequireAddon(FOR_LINUX),
            BuildStep::MakeDir(Place::AddonDir),
            BuildStep::CopyAddon { addon: FOR_DARWIN, to: Place::Addon(FOR_DARWIN) },
            BuildStep::Sign(Place::Addon(FOR_DARWIN)),
            BuildStep::CopyAddon { addon: FOR_LINUX, to: Place::Addon(FOR_LINUX) },
            BuildStep::Write { place: Place::Loader, contents: Contents::TargetLoader },
        ]
    );
    let skipped = build_args(&[], true).run(&both, true);
    assert_eq!(skipped, steps[1..]);
    assert!(!build_args(&[], true)
        .run(&both, false)
        .contains(&BuildStep::Sign(Place::Addon(FOR_DARWIN))));
}

#[test]
fn texts_are_fixed_but_for_what_is_rendered() {
    let listed = BuildTargets::Listed(vec![LINUX]);
    for targets in [&BuildTargets::Host, &listed] {
        assert_eq!(targets.fixed_text(Contents::Entrypoint), None);
        assert_eq!(targets.fixed_text(Contents::Manifest), None);
        assert_eq!(targets.fixed_text(Contents::BuildScript).unwrap(), build_script());
        assert_eq!(targets.fixed_text(Contents::SingleLoader).unwrap(), single_loader());
    }
    assert_eq!(build_script(), "fn main() { napi_build::setup(); }\n");
    let loader = listed.fixed_text(Contents::TargetLoader).unwrap();
    assert_eq!(loader, target_loader(&vec![LINUX]));
    assert_eq!(BuildTargets::Host.fixed_text(Contents::TargetLoader), None);
}

#[test]
fn steps_run_their_commands() {
    let mut args = build_args(&[], false);
    args.release = true;
    let config = NapiConfig { features: Some(vec!["f".into()]), ..NapiConfig::default() };
    let invocation = |step: BuildStep| args.invocation(&step, &config, "c/Cargo.toml", "p");
    let bound = invocation(BuildStep::BuildCrate).unwrap();
    assert_eq!(bound.program, Program::Cargo);
    assert_eq!(bound.args, bound_crate_args("c/Cargo.toml", &config, "release"));
    let host = invocation(BuildStep::Compile(Addon::Host)).unwrap();
    assert_eq!(host.args, generated_crate_args("p", None, "release"));
    let linux = invocation(BuildStep::Compile(FOR_LINUX)).unwrap();
    assert_eq!(linux.program, Program::Cargo);
    assert_eq!(linux.args, generated_crate_args("p", Some(LINUX), "release"));
    let sign = invocation(BuildStep::Sign(Place::Addon(FOR_DARWIN))).unwrap();
    assert_eq!(sign.program.name(), "codesign");
    assert_eq!(sign.args, ["-s", "-", "-f", "p"]);
    for step in [
        BuildStep::RequireLibrary,
        BuildStep::GenerateBindings,
        BuildStep::RequireAddon(FOR_LINUX),
        BuildStep::MakeDir(Place::AddonDir),
    ] {
        assert!(invocation(step).is_none());
    }
}

#[test]
fn steps_have_their_places() {
    let to = Place::Addon(FOR_LINUX);
    for (step, place) in [
        (BuildStep::BuildCrate, None),
        (BuildStep::RequireLibrary, None),
        (BuildStep::MakeDir(Place::AddonDir), Some(Place::AddonDir)),
        (BuildStep::GenerateBindings, Some(Place::GeneratedSource)),
        (BuildStep::Compile(FOR_LINUX), Some(Place::Manifest)),
        (BuildStep::RequireAddon(FOR_LINUX), Some(Place::Manifest)),
        (BuildStep::CopyAddon { addon: FOR_LINUX, to }, Some(to)),
        (BuildStep::Sign(to), Some(to)),
    ] {
        assert_eq!(step.place(), place);
    }
}

#[test]
fn every_place_has_a_path() {
    let args = build_args(&[], false);
    for (place, path) in [
        (Place::GeneratedCrate, "native/generated"),
        (Place::GeneratedSource, "native/generated/src"),
        (Place::Entrypoint, "native/generated/src/lib.rs"),
        (Place::Manifest, "native/generated/Cargo.toml"),
        (Place::BuildScript, "native/generated/build.rs"),
        (Place::AddonDir, "src/generated/napi-bindings"),
        (Place::Addon(Addon::Host), "src/generated/napi-bindings/index.node"),
        (Place::Addon(FOR_DARWIN), "src/generated/napi-bindings/darwin-arm64.node"),
        (Place::Addon(FOR_LINUX), "src/generated/napi-bindings/linux-x64.node"),
        (Place::Loader, "src/generated/napi-bindings/index.js"),
    ] {
        assert_eq!(path_of(&args, place), path);
    }
    assert_eq!(Place::Manifest.root(), Root::AbiDir);
    assert_eq!(Place::Loader.root(), Root::TsDir);
    assert_eq!(Place::Entrypoint.names_below("src/lib.rs"), ["src/lib.rs"]);
    assert_eq!(Place::Addon(FOR_LINUX).names_below("x"), ["napi-bindings", "linux-x64.node"]);
}

#[test]
fn targets_have_names_that_parse_back() {
    for (target, names) in [
        (DARWIN, ["aarch64-apple-darwin", "darwin-aarch64", "darwin-arm64"]),
        (LINUX, ["x86_64-unknown-linux-gnu", "linux-x86_64", "linux-x64"]),
    ] {
        for name in names {
            assert_eq!(Target::from_str(name).unwrap(), target);
            assert_eq!(Target::try_from(name.to_owned()).unwrap(), target);
        }
        assert_eq!(target.triple(), names[0]);
        assert_eq!(target.to_string(), names[0]);
        assert_eq!(target.loader_key(), names[2]);
        assert_eq!(target.addon_filename(), format!("{}.node", names[2]));
    }
    assert!(DARWIN.is_darwin() && !LINUX.is_darwin());
    assert_ne!(DARWIN.addon_filename(), LINUX.addon_filename());
    for name in ["", "linux", "Linux-x64", "win32-x64"] {
        assert_eq!(
            Target::from_str(name).unwrap_err().message(),
            format!("Unsupported target: '{name}'")
        );
    }
}

#[test]
fn the_host_is_the_default_target() {
    let config = NapiConfig::default();
    assert_eq!(config.targets("linux", "x86_64").unwrap(), [LINUX]);
    assert_eq!(config.targets("macos", "aarch64").unwrap(), [DARWIN]);
    let error = config.targets("linux", "aarch64").unwrap_err();
    assert_eq!(
        error.message(),
        "Unsupported host target linux/aarch64. Configure `napi.targets` with one of: \
         aarch64-apple-darwin, x86_64-unknown-linux-gnu"
    );
    assert!(matches!(
        Target::host("windows", "x86_64"),
        Err(TargetsError::UnsupportedHost { os, arch }) if os == "windows" && arch == "x86_64"
    ));
}

#[test]
fn a_list_of_targets_wins_over_the_host() {
    let listed = NapiConfig { targets: Some(vec![LINUX, DARWIN]), ..NapiConfig::default() };
    assert_eq!(listed.targets("windows", "x86").unwrap(), [LINUX, DARWIN]);
    let empty = NapiConfig { targets: Some(vec![]), ..NapiConfig::default() };
    let error = empty.targets("linux", "x86_64").unwrap_err();
    assert!(matches!(error, TargetsError::Empty));
    assert_eq!(error.message(), "The `napi.targets` list must not be empty");
    // Those of the command win over both.
    let args = build_args(&[DARWIN], false);
    let chosen = |args: &BuildArgs, config: &NapiConfig| args.build_targets(config).unwrap();
    assert_eq!(chosen(&args, &empty).list_addons(), [FOR_DARWIN]);
    assert_eq!(chosen(&args, &listed).list_addons(), [FOR_DARWIN]);
    let plain = build_args(&[], false);
    assert_eq!(chosen(&plain, &listed).list_addons(), [FOR_LINUX, FOR_DARWIN]);
    assert!(matches!(plain.build_targets(&empty), Err(TargetsError::Empty)));
    assert_eq!(chosen(&plain, &NapiConfig::default()).list_addons(), [Addon::Host]);
}

#[test]
fn a_profile_wins_over_the_release_flag() {
    assert_eq!(choose_profile(None, false), "debug");
    assert_eq!(choose_profile(None, true), "release");
    assert_eq!(choose_profile(Some("dist"), true), "dist");
    let mut args = build_args(&[], false);
    assert_eq!(args.profile(), "debug");
    args.release = true;
    assert_eq!(args.profile(), "release");
    args.profile = Some("bench".into());
    assert_eq!(args.profile(), "bench");
}

#[test]
fn cargo_gets_features_profile_and_target() {
    let config = NapiConfig {
        features: Some(vec!["a".into(), "b".into()]),
        default_features: Some(false),
        targets: None,
    };
    assert_eq!(
        bound_crate_args("x/Cargo.toml", &config, "release"),
        [
            "build",
            "--manifest-path",
            "x/Cargo.toml",
            "--features",
            "a,b",
            "--no-default-features",
            "--profile",
            "release"
        ]
    );
    assert_eq!(
        bound_crate_args("x/Cargo.toml", &NapiConfig::default(), "debug"),
        ["build", "--manifest-path", "x/Cargo.toml"]
    );
    assert_eq!(
        generated_crate_args("y/Cargo.toml", Some(LINUX), "dev"),
        [
            "build",
            "--manifest-path",
            "y/Cargo.toml",
            "--target",
            "x86_64-unknown-linux-gnu",
            "--profile",
            "dev"
        ]
    );
    let mut args: Vec<String> = vec!["check".into()];
    let defaults = NapiConfig { default_features: Some(true), ..NapiConfig::default() };
    apply_feature_config(&mut args, &defaults);
    assert_eq!(args, ["check", "--default-features"]);
}

#[test]
fn a_dependency_names_path_features_and_defaults() {
    let plain = NapiConfig::default();
    assert_eq!(
        crate_dependency_line("my-crate", "../my crate", &plain),
        "my-crate = { path = \"../my crate\" }"
    );
    let full = NapiConfig {
        features: Some(vec!["a".into(), "b".into()]),
        default_features: Some(true),
        targets: None,
    };
    assert_eq!(
        crate_dependency_line("c", "..", &full),
        "c = { path = \"..\", features = [\"a\", \"b\"], default-features = true }"
    );
    let none = NapiConfig { features: Some(vec![]), default_features: Some(false), targets: None };
    assert_eq!(
        crate_dependency_line("c", "..", &none),
        "c = { path = \"..\", features = [], default-features = false }"
    );
}

#[test]
fn a_manifest_leads_to_the_crate() {
    let config = NapiConfig::default();
    assert_eq!(
        fill_build_manifest("{{crate_lib_name}}|{{crate_dependency}}", "my-crate", "../x", &config),
        "my_crate|my-crate = { path = \"../x\" }"
    );
    assert_eq!(
        render_cargo_toml("{{crate_dependency}}", "c", "/foo/bar/baz", "/foo/bar/quux", &config)
            .unwrap(),
        "c = { path = \"../baz\" }"
    );
    assert_eq!(
        render_cargo_toml("{{crate_dependency}}", "c", "/foo", "/foo", &config).unwrap(),
        "c = { path = \"\" }"
    );
    // No path leads from an absolute directory to a relative one.
    assert!(render_cargo_toml("", "c", "rust", "/foo", &config).is_none());
}

#[test]
fn the_loader_picks_the_addon_of_the_platform() {
    assert_eq!(
        target_loader(&vec![LINUX, DARWIN]),
        "// @ts-nocheck\n\
         import { createRequire } from \"node:module\";\n\
         const require = createRequire(import.meta.url);\n\
         const target = `${process.platform}-${process.arch}`;\n\
         const addons = {\n  \
           \"linux-x64\": \"./linux-x64.node\",\n  \
           \"darwin-arm64\": \"./darwin-arm64.node\",\n\
         };\n\
         const addon = addons[target];\n\
         if (addon === undefined) {\n  \
           throw new Error(`Unsupported N-API target ${target}`);\n\
         }\n\
         const native = require(addon);\n\
         export default native;\n"
    );
    assert_eq!(
        single_loader(),
        "// @ts-nocheck\n\
         import { createRequire } from \"node:module\";\n\
         const require = createRequire(import.meta.url);\n\
         const native = require(\"./index.node\");\n\
         export default native;\n"
    );
}

#[test]
fn a_config_file_is_given_or_found() {
    let mut args = build_args(&[], false);
    assert_eq!(args.config_file(Some("found".into())).unwrap(), "ubrn.config.yaml");
    args.config = None;
    assert_eq!(args.config_file(Some("found".into())).unwrap(), "found");
    assert_eq!(args.config_file(None), None);
}

#[test]
fn a_missing_uniffi_toml_is_passed_over() {
    let mut args = build_args(&[], false);
    assert_eq!(args.uniffi_toml(true), None);
    args.toml = Some("uniffi.toml".into());
    assert_eq!(args.uniffi_toml(true).unwrap(), "uniffi.toml");
    assert_eq!(args.uniffi_toml(false), None);
    let bindings = args.bindings("lib.so", "out/src", true);
    assert_eq!(bindings.source.source, "lib.so");
    assert_eq!(bindings.source.config.unwrap(), "uniffi.toml");
    assert_eq!(bindings.output.abi_dir, "out/src");
    assert!(!bindings.output.no_format);
}

#[test]
fn commands_come_to_actions() {
    let bindings = BindingsArgs {
        source: SourceArgs { source: "lib.so".into(), config: None },
        output: OutputArgs { ts_dir: "ts".into(), abi_dir: "abi".into(), no_format: true },
    };
    let request = BindgenArgs::from(&bindings);
    assert_eq!(request.flavor, AbiFlavor::Napi);
    assert_eq!(request.source.source, "lib.so");
    assert_eq!(request.output.abi_dir, "abi");
    let arg = CmdArg { cmd: Cmd::Bindings(bindings) };
    assert!(matches!(
        arg.run(),
        Action::Generate(request) if request.flavor == AbiFlavor::Napi && request.output.no_format
    ));
    let arg = CmdArg { cmd: Cmd::Build(build_args(&[LINUX], true)) };
    assert!(matches!(arg.run(), Action::Build(build) if build.targets == [LINUX]));
}
