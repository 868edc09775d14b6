//! Running a script against a crate through its Node-API bindings.

use vstd::prelude::*;

use crate::cargo_args::{generated_crate_args, manifest_args, profile_args, target_args};
use crate::manifest::{render_run_cargo_toml, run_manifest};
use crate::paths::{is_path_diff, text_of};
use crate::plan::{Addon, BuildTargets, Contents, Place};
use crate::text::texts;

verus! {

/// What a run is asked to do.
#[derive(Debug)]
pub struct RunCmd {
    /// Whether a crate is given.
    pub has_crate: bool,
    /// Whether a binding written by hand is given.
    pub has_cpp_binding: bool,
    /// Whether bindings are to be generated.
    pub has_generate_bindings: bool,
    /// Whether the crate is built from scratch.
    pub clean: bool,
}

/// A step of a run.
#[derive(Clone, Copy, Debug, PartialEq, Eq, Structural)]
pub enum RunStep {
    /// Have Yarn install what the script needs.
    EnsureYarn,
    /// Build the crate, from scratch where `clean`.
    BuildCrate { clean: bool },
    MakeDir(Place),
    GenerateBindings,
    Write { place: Place, contents: Contents },
    /// Find the canonical path of the generated crate.
    Canonicalize,
    /// Build the generated crate.
    Compile,
    /// Fail unless the library of the generated crate is there.
    RequireAddon,
    /// Copy that library.
    CopyAddon { to: Place },
    /// Find the canonical path of the script.
    FindScript,
    RunScript,
}

impl RunStep {
    /// The file or directory that the step works on: what it makes, or the manifest that it
    /// builds from.
    pub open spec fn subject(self) -> Option<Place> {
        match self {
            RunStep::MakeDir(place) => Some(place),
            RunStep::GenerateBindings => Some(Place::GeneratedSource),
            RunStep::Write { place, contents: _ } => Some(place),
            RunStep::Canonicalize => Some(Place::GeneratedCrate),
            RunStep::Compile | RunStep::RequireAddon => Some(Place::Manifest),
            RunStep::CopyAddon { to } => Some(to),
            RunStep::EnsureYarn
            | RunStep::BuildCrate { .. }
            | RunStep::FindScript
            | RunStep::RunScript => None,
        }
    }

    /// The file or directory that the step works on.
    pub fn place(&self) -> (r: Option<Place>)
        ensures
            r == self.subject(),
    {
        match self {
            RunStep::MakeDir(place) => Some(*place),
            RunStep::GenerateBindings => Some(Place::GeneratedSource),
            RunStep::Write { place, contents: _ } => Some(*place),
            RunStep::Canonicalize => Some(Place::GeneratedCrate),
            RunStep::Compile | RunStep::RequireAddon => Some(Place::Manifest),
            RunStep::CopyAddon { to } => Some(*to),
            RunStep::EnsureYarn
            | RunStep::BuildCrate { .. }
            | RunStep::FindScript
            | RunStep::RunScript => None,
        }
    }
}

impl RunCmd {
    /// Whether there is an addon to build: a crate to bind, and no binding for it yet.
    pub open spec fn builds_addon(self) -> bool {
        self.has_crate && !self.has_cpp_binding && self.has_generate_bindings
    }
}

/// The steps that put the addon and its loader in place.
pub open spec fn stage_addon_steps() -> Seq<RunStep> {
    seq![
        RunStep::RequireAddon,
        RunStep::MakeDir(Place::AddonDir),
        RunStep::CopyAddon { to: Place::Addon(Addon::Host) },
        RunStep::Write { place: Place::Loader, contents: Contents::SingleLoader },
    ]
}

/// The steps that build the addon.
pub open spec fn build_addon_steps(clean: bool) -> Seq<RunStep> {
    seq![
        RunStep::BuildCrate { clean },
        RunStep::MakeDir(Place::GeneratedSource),
        RunStep::GenerateBindings,
        RunStep::Write { place: Place::Entrypoint, contents: Contents::Entrypoint },
        RunStep::Canonicalize,
        RunStep::Write { place: Place::Manifest, contents: Contents::Manifest },
        RunStep::Write { place: Place::BuildScript, contents: Contents::BuildScript },
        RunStep::Compile,
    ]
}

/// The steps that make the crate loadable, where that is asked for.
pub open spec fn prepare_steps(cmd: RunCmd) -> Seq<RunStep> {
    if cmd.builds_addon() {
        build_addon_steps(cmd.clean) + stage_addon_steps()
    } else {
        Seq::empty()
    }
}

/// The steps of a run: install, make the crate loadable, run the script.
pub open spec fn run_steps(cmd: RunCmd) -> Seq<RunStep> {
    seq![RunStep::EnsureYarn] + prepare_steps(cmd) + seq![RunStep::FindScript, RunStep::RunScript]
}

/// Runs of a script in Node.js.
#[derive(Debug)]
pub struct Napi;

impl Napi {
    /// The steps of a run.
    pub fn run(&self, cmd: &RunCmd) -> (r: Vec<RunStep>)
        ensures
            r@ == run_steps(*cmd),
    {
        let mut steps: Vec<RunStep> = Vec::new();
        steps.push(RunStep::EnsureYarn);
        let mut prepare = self.prepare_library_path(cmd);
        steps.append(&mut prepare);
        steps.push(RunStep::FindScript);
        steps.push(RunStep::RunScript);
        assert(steps@ =~= run_steps(*cmd));
        steps
    }

    /// The steps that make the crate loadable.
    pub fn prepare_library_path(&self, cmd: &RunCmd) -> (r: Vec<RunStep>)
        ensures
            r@ == prepare_steps(*cmd),
    {
        let mut steps: Vec<RunStep> = Vec::new();
        if cmd.has_crate && !cmd.has_cpp_binding && cmd.has_generate_bindings {
            steps.push(RunStep::BuildCrate { clean: cmd.clean });
            steps.push(RunStep::MakeDir(Place::GeneratedSource));
            steps.push(RunStep::GenerateBindings);
            steps.push(RunStep::Write { place: Place::Entrypoint, contents: Contents::Entrypoint });
            steps.push(RunStep::Canonicalize);
            steps.push(RunStep::Write { place: Place::Manifest, contents: Contents::Manifest });
            steps.push(RunStep::Write { place: Place::BuildScript, contents: Contents::BuildScript });
            steps.push(RunStep::Compile);
            let mut stage = self.stage_node_addon();
            steps.append(&mut stage);
        }
        assert(steps@ =~= prepare_steps(*cmd));
        steps
    }

    /// The manifest of the crate in `generated_crate` for the package in `crate_dir`, or `None`
    /// where no path leads from the one to the other.
    pub fn render_cargo_toml(
        &self,
        template: &str,
        generated_crate: &str,
        package_name: &str,
        crate_dir: &str,
    ) -> (r: Option<String>)
        ensures
            exists|diff: Option<Seq<char>>| #[trigger]
                is_path_diff(crate_dir@, generated_crate@, diff) && text_of(r) == match diff {
                    Some(path) => Some(run_manifest(template@, package_name@, path)),
                    None => None,
                },
            crate_dir@ == generated_crate@ ==> (r matches Some(manifest) && manifest@
                == run_manifest(template@, package_name@, Seq::empty())),
    {
        render_run_cargo_toml(template, package_name, crate_dir, generated_crate)
    }

    /// The arguments of Cargo that build the generated crate.
    pub fn compile_napi(&self, cargo_toml: &str, profile: &str) -> (r: Vec<String>)
        ensures
            texts(r@) == manifest_args(cargo_toml@) + profile_args(profile@),
    {
        assert(manifest_args(cargo_toml@) + target_args(None) =~= manifest_args(cargo_toml@));
        generated_crate_args(cargo_toml, None, profile)
    }

    /// The steps that put the addon and its loader in place.
    pub fn stage_node_addon(&self) -> (r: Vec<RunStep>)
        ensures
            r@ == stage_addon_steps(),
    {
        let mut steps: Vec<RunStep> = Vec::new();
        steps.push(RunStep::RequireAddon);
        steps.push(RunStep::MakeDir(Place::AddonDir));
        steps.push(RunStep::CopyAddon { to: Place::Addon(Addon::Host) });
        steps.push(RunStep::Write { place: Place::Loader, contents: Contents::SingleLoader });
        assert(steps@ =~= stage_addon_steps());
        steps
    }
}

/// A run always installs first and ends with the script. Where there is no addon to build it does
/// nothing else.
pub proof fn law_runs_install_first_and_end_with_the_script(cmd: RunCmd)
    ensures
        run_steps(cmd).len() >= 3,
        run_steps(cmd).first() == RunStep::EnsureYarn,
        run_steps(cmd).last() == RunStep::RunScript,
        !cmd.builds_addon() ==> run_steps(cmd) == seq![
            RunStep::EnsureYarn,
            RunStep::FindScript,
            RunStep::RunScript,
        ],
{
    if !cmd.builds_addon() {
        assert(run_steps(cmd) =~= seq![
            RunStep::EnsureYarn,
            RunStep::FindScript,
            RunStep::RunScript,
        ]);
    }
}

/// Every text that a run writes is fixed, but for the entrypoint and the manifest, which are
/// rendered.
pub proof fn law_what_a_run_writes_is_known(cmd: RunCmd, k: int)
    requires
        0 <= k < run_steps(cmd).len(),
    ensures
        run_steps(cmd)[k] matches RunStep::Write { place, contents } ==> contents
            == Contents::Entrypoint || contents == Contents::Manifest || BuildTargets::Host.text(
            contents,
        ) is Some,
{
}

/// A run with a crate to bind, bindings to generate and none given builds the crate, from scratch
/// where that is asked for, then the addon, and stages it as the only one.
pub proof fn law_a_run_builds_the_only_addon(cmd: RunCmd)
    requires
        cmd.has_crate,
        !cmd.has_cpp_binding,
        cmd.has_generate_bindings,
    ensures
        run_steps(cmd) == seq![
            RunStep::EnsureYarn,
            RunStep::BuildCrate { clean: cmd.clean },
            RunStep::MakeDir(Place::GeneratedSource),
            RunStep::GenerateBindings,
            RunStep::Write { place: Place::Entrypoint, contents: Contents::Entrypoint },
            RunStep::Canonicalize,
            RunStep::Write { place: Place::Manifest, contents: Contents::Manifest },
            RunStep::Write { place: Place::BuildScript, contents: Contents::BuildScript },
            RunStep::Compile,
            RunStep::RequireAddon,
            RunStep::MakeDir(Place::AddonDir),
            RunStep::CopyAddon { to: Place::Addon(Addon::Host) },
            RunStep::Write { place: Place::Loader, contents: Contents::SingleLoader },
            RunStep::FindScript,
            RunStep::RunScript,
        ],
        run_steps(cmd).subrange(1, 13) == prepare_steps(cmd),
        run_steps(cmd).subrange(9, 13) == stage_addon_steps(),
{
    assert(run_steps(cmd).subrange(1, 13) =~= prepare_steps(cmd));
    assert(run_steps(cmd).subrange(9, 13) =~= stage_addon_steps());
    assert(run_steps(cmd) =~= seq![
        RunStep::EnsureYarn,
        RunStep::BuildCrate { clean: cmd.clean },
        RunStep::MakeDir(Place::GeneratedSource),
        RunStep::GenerateBindings,
        RunStep::Write { place: Place::Entrypoint, contents: Contents::Entrypoint },
        RunStep::Canonicalize,
        RunStep::Write { place: Place::Manifest, contents: Contents::Manifest },
        RunStep::Write { place: Place::BuildScript, contents: Contents::BuildScript },
        RunStep::Compile,
        RunStep::RequireAddon,
        RunStep::MakeDir(Place::AddonDir),
        RunStep::CopyAddon { to: Place::Addon(Addon::Host) },
        RunStep::Write { place: Place::Loader, contents: Contents::SingleLoader },
        RunStep::FindScript,
        RunStep::RunScript,
    ]);
}

/// A run that lacks the crate or the request for bindings, or has a binding already, prepares
/// nothing.
pub proof fn law_other_runs_prepare_nothing(cmd: RunCmd)
    requires
        !cmd.has_crate || cmd.has_cpp_binding || !cmd.has_generate_bindings,
    ensures
        prepare_steps(cmd).len() == 0,
        run_steps(cmd) == seq![RunStep::EnsureYarn, RunStep::FindScript, RunStep::RunScript],
{
    assert(run_steps(cmd) =~= seq![RunStep::EnsureYarn, RunStep::FindScript, RunStep::RunScript]);
}

/// A step of a run works on the place that it makes, writes or copies to. What generates works on
/// the sources of the generated crate, and what compiles on its manifest.
pub proof fn law_run_steps_work_on_their_places(place: Place, contents: Contents, clean: bool)
    ensures
        RunStep::EnsureYarn.subject() is None,
        (RunStep::BuildCrate { clean }).subject() is None,
        RunStep::MakeDir(place).subject() == Some(place),
        RunStep::GenerateBindings.subject() == Some(Place::GeneratedSource),
        (RunStep::Write { place, contents }).subject() == Some(place),
        RunStep::Canonicalize.subject() == Some(Place::GeneratedCrate),
        RunStep::Compile.subject() == Some(Place::Manifest),
        RunStep::RequireAddon.subject() == Some(Place::Manifest),
        (RunStep::CopyAddon { to: place }).subject() == Some(place),
        RunStep::FindScript.subject() is None,
        RunStep::RunScript.subject() is None,
{
}

} // verus!
