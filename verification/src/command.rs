//! The commands that generate bindings and build addons.

use vstd::prelude::*;

use crate::cargo_args::{
    bound_crate_args, choose_profile, codesign_args, feature_args, generated_crate_args,
    manifest_args, profile_args, profile_name, signing_args, target_args,
};
use crate::config::{NapiConfig, Target, TargetsError};
use crate::manifest::{build_manifest, render_cargo_toml};
use crate::paths::{is_path_diff, text_of};
use crate::plan::{build_steps, plan_build, BuildStep, BuildTargets};
use crate::text::texts;

verus! {

/// What kind of bindings to generate.
#[derive(Clone, Copy, Debug, PartialEq, Eq, Structural)]
pub enum AbiFlavor {
    Napi,
    Wasm2,
}

/// What to generate bindings from.
#[derive(Debug)]
pub struct SourceArgs {
    pub source: String,
    /// A `uniffi.toml`.
    pub config: Option<String>,
}

/// Where to put them.
#[derive(Debug)]
pub struct OutputArgs {
    pub ts_dir: String,
    pub abi_dir: String,
    pub no_format: bool,
}

/// Generate TypeScript and Rust bindings.
#[derive(Debug)]
pub struct BindingsArgs {
    pub source: SourceArgs,
    pub output: OutputArgs,
}

/// Generate bindings, build the generated crate, and stage a loader with the addons.
#[derive(Debug)]
pub struct BuildArgs {
    /// The crate to bind.
    pub crate_dir: String,
    pub ts_dir: String,
    pub abi_dir: String,
    /// A `uniffi.toml`.
    pub toml: Option<String>,
    /// A project configuration. It is looked for, where none is given.
    pub config: Option<String>,
    pub no_format: bool,
    pub release: bool,
    /// A build profile. It wins over the release flag.
    pub profile: Option<String>,
    /// Whether the crate has been built already.
    pub no_cargo: bool,
    /// Targets that win over those of the configuration.
    pub targets: Vec<Target>,
}

#[derive(Debug)]
pub enum Cmd {
    Bindings(BindingsArgs),
    Build(BuildArgs),
}

#[derive(Debug)]
pub struct CmdArg {
    pub cmd: Cmd,
}

/// A request to the bindings generator.
#[derive(Debug)]
pub struct BindgenArgs<'a> {
    pub flavor: AbiFlavor,
    pub source: &'a SourceArgs,
    pub output: &'a OutputArgs,
}

/// A program that a build runs.
#[derive(Clone, Copy, Debug, PartialEq, Eq, Structural)]
pub enum Program {
    Cargo,
    Codesign,
}

/// A program and its arguments.
#[derive(Debug)]
pub struct Invocation {
    pub program: Program,
    pub args: Vec<String>,
}

impl Program {
    /// The name that it is started by.
    pub fn name(&self) -> (r: &'static str)
        ensures
            r@ == match *self {
                Program::Cargo => "cargo"@,
                Program::Codesign => "codesign"@,
            },
    {
        match self {
            Program::Cargo => "cargo",
            Program::Codesign => "codesign",
        }
    }
}

/// What a command comes to.
#[derive(Debug)]
pub enum Action<'a> {
    Generate(BindgenArgs<'a>),
    Build(&'a BuildArgs),
}

impl<'a> BindgenArgs<'a> {
    /// The request that `value` makes: Node-API bindings.
    pub fn from(value: &'a BindingsArgs) -> (r: Self)
        ensures
            r.flavor == AbiFlavor::Napi,
            *r.source == value.source,
            *r.output == value.output,
    {
        BindgenArgs { flavor: AbiFlavor::Napi, source: &value.source, output: &value.output }
    }
}

impl Cmd {
    /// Whether `action` is what the command comes to.
    pub open spec fn comes_to(self, action: Action<'_>) -> bool {
        match self {
            Cmd::Bindings(args) => action matches Action::Generate(request) && request.flavor
                == AbiFlavor::Napi && *request.source == args.source && *request.output
                == args.output,
            Cmd::Build(args) => action matches Action::Build(build) && *build == args,
        }
    }

    pub fn run<'a>(&'a self) -> (r: Action<'a>)
        ensures
            self.comes_to(r),
    {
        match self {
            Cmd::Bindings(args) => Action::Generate(BindgenArgs::from(args)),
            Cmd::Build(args) => Action::Build(args),
        }
    }
}

impl CmdArg {
    pub fn run<'a>(&'a self) -> (r: Action<'a>)
        ensures
            self.cmd.comes_to(r),
    {
        self.cmd.run()
    }
}

impl BuildArgs {
    /// The profile to build.
    pub fn profile<'a>(&'a self) -> (r: &'a str)
        ensures
            r@ == profile_name(text_of(self.profile), self.release),
    {
        match &self.profile {
            Some(name) => choose_profile(Some(name.as_str()), self.release),
            None => choose_profile(None, self.release),
        }
    }

    /// The `uniffi.toml` to use, given whether the one that is named exists.
    pub fn uniffi_toml(&self, exists_on_disk: bool) -> (r: Option<String>)
        ensures
            text_of(r) == if exists_on_disk {
                text_of(self.toml)
            } else {
                None
            },
    {
        if !exists_on_disk {
            return None;
        }
        match &self.toml {
            Some(toml) => Some(toml.clone()),
            None => None,
        }
    }

    /// The bindings that the build generates: from the library that was built, into the source
    /// directory of the generated crate.
    pub fn bindings(&self, library: &str, src_dir: &str, toml_exists: bool) -> (r: BindingsArgs)
        ensures
            r.source.source@ == library@,
            text_of(r.source.config) == if toml_exists {
                text_of(self.toml)
            } else {
                None
            },
            r.output.ts_dir@ == self.ts_dir@,
            r.output.abi_dir@ == src_dir@,
            r.output.no_format == self.no_format,
    {
        BindingsArgs {
            source: SourceArgs {
                source: library.to_owned(),
                config: self.uniffi_toml(toml_exists),
            },
            output: OutputArgs {
                ts_dir: self.ts_dir.clone(),
                abi_dir: src_dir.to_owned(),
                no_format: self.no_format,
            },
        }
    }

    /// The project configuration to load, given the one that a search found. Without one, the
    /// default configuration holds.
    pub fn config_file(&self, found: Option<String>) -> (r: Option<String>)
        ensures
            text_of(r) == if self.config is Some {
                text_of(self.config)
            } else {
                text_of(found)
            },
    {
        match &self.config {
            Some(config) => Some(config.clone()),
            None => found,
        }
    }

    /// What to build for: the targets of the command, or else those of the configuration, or else
    /// the host.
    pub fn build_targets(&self, config: &NapiConfig) -> (r: Result<BuildTargets, TargetsError>)
        ensures
            self.targets@.len() > 0 ==> (r matches Ok(BuildTargets::Listed(list)) && list@
                == self.targets@),
            self.targets@.len() == 0 ==> match config.targets {
                None => r matches Ok(BuildTargets::Host),
                Some(targets) => if targets@.len() == 0 {
                    r matches Err(TargetsError::Empty)
                } else {
                    r matches Ok(BuildTargets::Listed(list)) && list@ == targets@
                },
            },
    {
        if self.targets.len() > 0 {
            let list = self.targets.clone();
            assert(list@ =~= self.targets@);
            return Ok(BuildTargets::Listed(list));
        }
        match &config.targets {
            None => Ok(BuildTargets::Host),
            Some(targets) => if targets.len() == 0 {
                Err(TargetsError::Empty)
            } else {
                let list = targets.clone();
                assert(list@ =~= targets@);
                Ok(BuildTargets::Listed(list))
            },
        }
    }

    /// The steps of the build for `targets`.
    pub fn run(&self, targets: &BuildTargets, on_macos: bool) -> (r: Vec<BuildStep>)
        ensures
            r@ == build_steps(self.no_cargo, *targets, on_macos),
    {
        plan_build(self.no_cargo, targets, on_macos)
    }

    /// The manifest of the generated crate for the package in `crate_dir`, or `None` where no path
    /// leads to it from the generated crate.
    pub fn render_cargo_toml(
        &self,
        template: &str,
        package_name: &str,
        crate_dir: &str,
        config: &NapiConfig,
    ) -> (r: Option<String>)
        ensures
            exists|diff: Option<Seq<char>>| #[trigger]
                is_path_diff(crate_dir@, self.abi_dir@, diff) && text_of(r) == match diff {
                    Some(path) => Some(build_manifest(template@, package_name@, path, *config)),
                    None => None,
                },
            crate_dir@ == self.abi_dir@ ==> text_of(r) == Some(
                build_manifest(template@, package_name@, Seq::empty(), *config),
            ),
    {
        render_cargo_toml(template, package_name, crate_dir, self.abi_dir.as_str(), config)
    }

    /// The command that `step` runs, if it runs one. `crate_manifest` is that of the crate that is
    /// bound, and `path` that of the place that the step works on.
    pub fn invocation(
        &self,
        step: &BuildStep,
        config: &NapiConfig,
        crate_manifest: &str,
        path: &str,
    ) -> (r: Option<Invocation>)
        ensures
            match *step {
                BuildStep::BuildCrate => r matches Some(i) && i.program == Program::Cargo && texts(
                    i.args@,
                ) == manifest_args(crate_manifest@) + feature_args(*config) + profile_args(
                    profile_name(text_of(self.profile), self.release),
                ),
                BuildStep::Compile(addon) => r matches Some(i) && i.program == Program::Cargo
                    && texts(i.args@) == manifest_args(path@) + target_args(addon.cargo_target())
                    + profile_args(profile_name(text_of(self.profile), self.release)),
                BuildStep::Sign(_) => r matches Some(i) && i.program == Program::Codesign && texts(
                    i.args@,
                ) == signing_args(path@),
                _ => r is None,
            },
    {
        match step {
            BuildStep::BuildCrate => Some(
                Invocation {
                    program: Program::Cargo,
                    args: bound_crate_args(crate_manifest, config, self.profile()),
                },
            ),
            BuildStep::Compile(addon) => Some(
                Invocation {
                    program: Program::Cargo,
                    args: generated_crate_args(path, addon.target(), self.profile()),
                },
            ),
            BuildStep::Sign(_) => Some(
                Invocation { program: Program::Codesign, args: codesign_args(path) },
            ),
            _ => None,
        }
    }
}

/// A command for bindings comes to a request for Node-API bindings from its source, into its
/// output. A command to build comes to that build.
pub proof fn law_commands_come_to_what_they_ask_for(cmd: Cmd, action: Action<'_>)
    requires
        cmd.comes_to(action),
    ensures
        cmd matches Cmd::Bindings(args) ==> (action matches Action::Generate(request)
            && request.flavor == AbiFlavor::Napi && *request.source == args.source
            && *request.output == args.output),
        cmd matches Cmd::Build(args) ==> (action matches Action::Build(build) && *build == args),
{
}

} // verus!
