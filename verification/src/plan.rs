//! The steps that build and stage an addon.

use vstd::prelude::*;

use crate::config::Target;
use crate::loader::{single_loader, single_loader_text, target_loader, target_loader_text};
use crate::manifest::{build_script, build_script_text};
use crate::paths::{is_path_below, join_path, text_of};
use crate::text::texts;

verus! {

/// The directory that a place is in.
#[derive(Clone, Copy, Debug, PartialEq, Eq, Structural)]
pub enum Root {
    /// The generated crate.
    AbiDir,
    /// The generated TypeScript.
    TsDir,
}

/// An addon that a build makes.
#[derive(Clone, Copy, Debug, PartialEq, Eq, Structural)]
pub enum Addon {
    /// The one addon of a build for the host, whatever the host is.
    Host,
    /// The addon of a build for a target.
    For(Target),
}

/// What a build is for.
#[derive(Debug)]
pub enum BuildTargets {
    /// The host.
    Host,
    /// Each target of a list.
    Listed(Vec<Target>),
}

/// The addons for `targets`.
pub open spec fn addons_for(targets: Seq<Target>) -> Seq<Addon> {
    targets.map_values(|t: Target| Addon::For(t))
}

impl Addon {
    /// The target that Cargo is told to build for.
    pub open spec fn cargo_target(self) -> Option<Target> {
        match self {
            Addon::Host => None,
            Addon::For(target) => Some(target),
        }
    }

    pub open spec fn file_name(self) -> Seq<char> {
        match self {
            Addon::Host => "index.node"@,
            Addon::For(target) => target.loader_key_text() + ".node"@,
        }
    }

    /// Whether macOS runs the addon only if it is signed.
    pub open spec fn needs_signature(self) -> bool {
        match self {
            Addon::Host => true,
            Addon::For(target) => target == Target::Aarch64AppleDarwin,
        }
    }

    /// The target to tell Cargo to build for, if any.
    pub fn target(&self) -> (r: Option<Target>)
        ensures
            r == self.cargo_target(),
    {
        match self {
            Addon::Host => None,
            Addon::For(target) => Some(*target),
        }
    }

    /// The name of its file.
    pub fn filename(&self) -> (r: String)
        ensures
            r@ == self.file_name(),
    {
        match self {
            Addon::Host => "index.node".to_owned(),
            Addon::For(target) => target.addon_filename(),
        }
    }

    fn is_signed(&self, on_macos: bool) -> (r: bool)
        ensures
            r == (on_macos && self.needs_signature()),
    {
        on_macos && match self {
            Addon::Host => true,
            Addon::For(target) => target.is_darwin(),
        }
    }
}

impl BuildTargets {
    /// The addons that the build makes, in order.
    pub open spec fn addons(self) -> Seq<Addon> {
        match self {
            BuildTargets::Host => seq![Addon::Host],
            BuildTargets::Listed(targets) => addons_for(targets@),
        }
    }

    /// The addons that the build makes, in order.
    pub fn list_addons(&self) -> (r: Vec<Addon>)
        ensures
            r@ == self.addons(),
    {
        let mut r: Vec<Addon> = Vec::new();
        match self {
            BuildTargets::Host => {
                r.push(Addon::Host);
            },
            BuildTargets::Listed(targets) => {
                let mut i: usize = 0;
                while i < targets.len()
                    invariant
                        i <= targets@.len(),
                        r@.len() == i,
                        forall|k: int| 0 <= k < i ==> r@[k] == Addon::For(targets@[k]),
                    decreases targets@.len() - i,
                {
                    r.push(Addon::For(targets[i]));
                    i += 1;
                }
            },
        }
        assert(r@ =~= self.addons());
        r
    }

    /// What the loader of the addons holds.
    pub open spec fn loader_contents(self) -> Contents {
        match self {
            BuildTargets::Host => Contents::SingleLoader,
            BuildTargets::Listed(_) => Contents::TargetLoader,
        }
    }

    fn loader(&self) -> (r: Contents)
        ensures
            r == self.loader_contents(),
    {
        match self {
            BuildTargets::Host => Contents::SingleLoader,
            BuildTargets::Listed(_) => Contents::TargetLoader,
        }
    }

    /// The text that `contents` stand for, unless it has to be rendered. There is a loader for
    /// targets only where there are targets.
    pub open spec fn text(self, contents: Contents) -> Option<Seq<char>> {
        match contents {
            Contents::Entrypoint | Contents::Manifest => None,
            Contents::BuildScript => Some(build_script_text()),
            Contents::SingleLoader => Some(single_loader_text()),
            Contents::TargetLoader => match self {
                BuildTargets::Host => None,
                BuildTargets::Listed(targets) => Some(target_loader_text(targets@)),
            },
        }
    }

    /// The text that `contents` stand for, unless it has to be rendered.
    pub fn fixed_text(&self, contents: Contents) -> (r: Option<String>)
        ensures
            text_of(r) == self.text(contents),
    {
        match contents {
            Contents::Entrypoint | Contents::Manifest => None,
            Contents::BuildScript => Some(build_script().to_owned()),
            Contents::SingleLoader => Some(single_loader().to_owned()),
            Contents::TargetLoader => match self {
                BuildTargets::Host => None,
                BuildTargets::Listed(targets) => Some(target_loader(targets)),
            },
        }
    }
}

/// What a file holds.
#[derive(Clone, Copy, Debug, PartialEq, Eq, Structural)]
pub enum Contents {
    /// The entrypoint that the generator renders for its modules.
    Entrypoint,
    /// The manifest that is rendered for the crate that is bound.
    Manifest,
    BuildScript,
    /// The script that loads the only addon.
    SingleLoader,
    /// The script that loads the addon of the platform that it runs on.
    TargetLoader,
}

/// A file or directory that the steps make.
#[derive(Clone, Copy, Debug, PartialEq, Eq, Structural)]
pub enum Place {
    GeneratedCrate,
    GeneratedSource,
    Entrypoint,
    Manifest,
    BuildScript,
    AddonDir,
    Addon(Addon),
    Loader,
}

impl Place {
    pub open spec fn root_dir(self) -> Root {
        match self {
            Place::GeneratedCrate
            | Place::GeneratedSource
            | Place::Entrypoint
            | Place::Manifest
            | Place::BuildScript => Root::AbiDir,
            Place::AddonDir | Place::Addon(_) | Place::Loader => Root::TsDir,
        }
    }

    /// The names that lead to the place below its root. `entrypoint` is that of the bindings.
    pub open spec fn names(self, entrypoint: Seq<char>) -> Seq<Seq<char>> {
        match self {
            Place::GeneratedCrate => Seq::empty(),
            Place::GeneratedSource => seq!["src"@],
            Place::Entrypoint => seq![entrypoint],
            Place::Manifest => seq!["Cargo.toml"@],
            Place::BuildScript => seq!["build.rs"@],
            Place::AddonDir => seq!["napi-bindings"@],
            Place::Addon(addon) => seq!["napi-bindings"@, addon.file_name()],
            Place::Loader => seq!["napi-bindings"@, "index.js"@],
        }
    }

    pub fn root(&self) -> (r: Root)
        ensures
            r == self.root_dir(),
    {
        match self {
            Place::GeneratedCrate
            | Place::GeneratedSource
            | Place::Entrypoint
            | Place::Manifest
            | Place::BuildScript => Root::AbiDir,
            Place::AddonDir | Place::Addon(_) | Place::Loader => Root::TsDir,
        }
    }

    pub fn names_below(&self, entrypoint: &str) -> (r: Vec<String>)
        ensures
            texts(r@) == self.names(entrypoint@),
    {
        let mut r: Vec<String> = Vec::new();
        match self {
            Place::GeneratedCrate => {},
            Place::GeneratedSource => {
                r.push("src".to_owned());
            },
            Place::Entrypoint => {
                r.push(entrypoint.to_owned());
            },
            Place::Manifest => {
                r.push("Cargo.toml".to_owned());
            },
            Place::BuildScript => {
                r.push("build.rs".to_owned());
            },
            Place::AddonDir => {
                r.push("napi-bindings".to_owned());
            },
            Place::Addon(addon) => {
                r.push("napi-bindings".to_owned());
                r.push(addon.filename());
            },
            Place::Loader => {
                r.push("napi-bindings".to_owned());
                r.push("index.js".to_owned());
            },
        }
        assert(texts(r@) =~= self.names(entrypoint@));
        r
    }
}

impl Place {
    /// The path of the place, given its possible roots and the entrypoint of the bindings.
    pub fn path(&self, abi_dir: &str, ts_dir: &str, entrypoint: &str) -> (r: String)
        ensures
            is_path_below(
                match self.root_dir() {
                    Root::AbiDir => abi_dir@,
                    Root::TsDir => ts_dir@,
                },
                self.names(entrypoint@),
                r@,
            ),
    {
        let base = match self.root() {
            Root::AbiDir => abi_dir,
            Root::TsDir => ts_dir,
        };
        let names = self.names_below(entrypoint);
        let ghost all = self.names(entrypoint@);
        let mut path = base.to_owned();
        let mut i: usize = 0;
        while i < names.len()
            invariant
                i <= names@.len(),
                all == texts(names@),
                is_path_below(base@, all.take(i as int), path@),
            decreases names@.len() - i,
        {
            assert(all.take(i + 1).drop_last() =~= all.take(i as int));
            path = join_path(path.as_str(), names[i].as_str());
            assert(all.take(i + 1).last() == names@[i as int]@);
            i += 1;
        }
        assert(all.take(i as int) =~= all);
        path
    }
}

/// A step of a build.
#[derive(Clone, Copy, Debug, PartialEq, Eq, Structural)]
pub enum BuildStep {
    /// Build the crate that is bound.
    BuildCrate,
    /// Fail unless the library of that crate is there.
    RequireLibrary,
    MakeDir(Place),
    GenerateBindings,
    Write { place: Place, contents: Contents },
    /// Build the generated crate.
    Compile(Addon),
    /// Fail unless the library of the generated crate is there.
    RequireAddon(Addon),
    /// Copy the library of the generated crate.
    CopyAddon { addon: Addon, to: Place },
    Sign(Place),
}

impl BuildStep {
    /// The file or directory that the step works on: what it makes, or the manifest that it
    /// builds from.
    pub open spec fn subject(self) -> Option<Place> {
        match self {
            BuildStep::BuildCrate | BuildStep::RequireLibrary => None,
            BuildStep::MakeDir(place) => Some(place),
            BuildStep::GenerateBindings => Some(Place::GeneratedSource),
            BuildStep::Write { place, contents: _ } => Some(place),
            BuildStep::Compile(_) | BuildStep::RequireAddon(_) => Some(Place::Manifest),
            BuildStep::CopyAddon { addon: _, to } => Some(to),
            BuildStep::Sign(place) => Some(place),
        }
    }

    /// The file or directory that the step works on.
    pub fn place(&self) -> (r: Option<Place>)
        ensures
            r == self.subject(),
    {
        match self {
            BuildStep::BuildCrate | BuildStep::RequireLibrary => None,
            BuildStep::MakeDir(place) => Some(*place),
            BuildStep::GenerateBindings => Some(Place::GeneratedSource),
            BuildStep::Write { place, contents: _ } => Some(*place),
            BuildStep::Compile(_) | BuildStep::RequireAddon(_) => Some(Place::Manifest),
            BuildStep::CopyAddon { addon: _, to } => Some(*to),
            BuildStep::Sign(place) => Some(*place),
        }
    }
}

pub open spec fn compile_steps(addons: Seq<Addon>) -> Seq<BuildStep> {
    addons.map_values(|a: Addon| BuildStep::Compile(a))
}

pub open spec fn require_steps(addons: Seq<Addon>) -> Seq<BuildStep> {
    addons.map_values(|a: Addon| BuildStep::RequireAddon(a))
}

/// The steps that put an addon in its place. On macOS one for Darwin is signed.
pub open spec fn copy_step(addon: Addon, on_macos: bool) -> Seq<BuildStep> {
    let to = Place::Addon(addon);
    if on_macos && addon.needs_signature() {
        seq![BuildStep::CopyAddon { addon, to }, BuildStep::Sign(to)]
    } else {
        seq![BuildStep::CopyAddon { addon, to }]
    }
}

pub open spec fn copy_steps(addons: Seq<Addon>, on_macos: bool) -> Seq<BuildStep>
    decreases addons.len(),
{
    if addons.len() == 0 {
        Seq::empty()
    } else {
        copy_steps(addons.drop_last(), on_macos) + copy_step(addons.last(), on_macos)
    }
}

/// The steps up to the generated crate.
pub open spec fn generate_steps(skip_build: bool) -> Seq<BuildStep> {
    let first = if skip_build {
        Seq::empty()
    } else {
        seq![BuildStep::BuildCrate]
    };
    first + seq![
        BuildStep::RequireLibrary,
        BuildStep::MakeDir(Place::GeneratedCrate),
        BuildStep::MakeDir(Place::GeneratedSource),
        BuildStep::GenerateBindings,
        BuildStep::Write { place: Place::Entrypoint, contents: Contents::Entrypoint },
        BuildStep::Write { place: Place::Manifest, contents: Contents::Manifest },
        BuildStep::Write { place: Place::BuildScript, contents: Contents::BuildScript },
    ]
}

/// The steps that put the addons and their loader in place.
pub open spec fn stage_steps(addons: Seq<Addon>, loader: Contents, on_macos: bool) -> Seq<
    BuildStep,
> {
    require_steps(addons) + seq![BuildStep::MakeDir(Place::AddonDir)] + copy_steps(
        addons,
        on_macos,
    ) + seq![BuildStep::Write { place: Place::Loader, contents: loader }]
}

/// The steps of a build: generate the bindings and the crate, build it for each addon, then put
/// the addons and their loader in place.
pub open spec fn build_steps(skip_build: bool, targets: BuildTargets, on_macos: bool) -> Seq<
    BuildStep,
> {
    generate_steps(skip_build) + compile_steps(targets.addons()) + stage_steps(
        targets.addons(),
        targets.loader_contents(),
        on_macos,
    )
}

fn push_stage_steps(
    steps: &mut Vec<BuildStep>,
    addons: &Vec<Addon>,
    loader: Contents,
    on_macos: bool,
)
    ensures
        final(steps)@ == old(steps)@ + stage_steps(addons@, loader, on_macos),
{
    let ghost before = steps@;
    let ghost required = require_steps(addons@);
    let mut i: usize = 0;
    assert(before + required.take(0) =~= before);
    while i < addons.len()
        invariant
            i <= addons@.len(),
            before == old(steps)@,
            required == require_steps(addons@),
            steps@ == before + required.take(i as int),
        decreases addons@.len() - i,
    {
        steps.push(BuildStep::RequireAddon(addons[i]));
        assert(steps@ =~= before + required.take(i + 1));
        i += 1;
    }
    assert(required.take(i as int) =~= required);
    steps.push(BuildStep::MakeDir(Place::AddonDir));
    let ghost head = steps@;
    i = 0;
    assert(addons@.take(0) =~= Seq::<Addon>::empty());
    assert(head + Seq::<BuildStep>::empty() =~= head);
    while i < addons.len()
        invariant
            i <= addons@.len(),
            steps@ == head + copy_steps(addons@.take(i as int), on_macos),
        decreases addons@.len() - i,
    {
        assert(addons@.take(i + 1).drop_last() =~= addons@.take(i as int));
        let addon = addons[i];
        let ghost held = steps@;
        steps.push(BuildStep::CopyAddon { addon, to: Place::Addon(addon) });
        if addon.is_signed(on_macos) {
            steps.push(BuildStep::Sign(Place::Addon(addon)));
        }
        assert(steps@ =~= held + copy_step(addon, on_macos));
        assert(steps@ =~= head + copy_steps(addons@.take(i + 1), on_macos));
        i += 1;
    }
    assert(addons@.take(i as int) =~= addons@);
    steps.push(BuildStep::Write { place: Place::Loader, contents: loader });
    assert(steps@ =~= before + stage_steps(addons@, loader, on_macos));
}

/// The steps of a build.
pub fn plan_build(skip_build: bool, targets: &BuildTargets, on_macos: bool) -> (r: Vec<BuildStep>)
    ensures
        r@ == build_steps(skip_build, *targets, on_macos),
{
    let addons = targets.list_addons();
    let mut steps: Vec<BuildStep> = Vec::new();
    if !skip_build {
        steps.push(BuildStep::BuildCrate);
    }
    steps.push(BuildStep::RequireLibrary);
    steps.push(BuildStep::MakeDir(Place::GeneratedCrate));
    steps.push(BuildStep::MakeDir(Place::GeneratedSource));
    steps.push(BuildStep::GenerateBindings);
    steps.push(BuildStep::Write { place: Place::Entrypoint, contents: Contents::Entrypoint });
    steps.push(BuildStep::Write { place: Place::Manifest, contents: Contents::Manifest });
    steps.push(BuildStep::Write { place: Place::BuildScript, contents: Contents::BuildScript });
    assert(steps@ =~= generate_steps(skip_build));
    let ghost head = steps@;
    let ghost compiled = compile_steps(addons@);
    let mut i: usize = 0;
    assert(head + compiled.take(0) =~= head);
    while i < addons.len()
        invariant
            i <= addons@.len(),
            compiled == compile_steps(addons@),
            steps@ == head + compiled.take(i as int),
        decreases addons@.len() - i,
    {
        steps.push(BuildStep::Compile(addons[i]));
        assert(steps@ =~= head + compiled.take(i + 1));
        i += 1;
    }
    assert(compiled.take(i as int) =~= compiled);
    push_stage_steps(&mut steps, &addons, targets.loader(), on_macos);
    steps
}

/// The step that puts an addon in its place.
pub open spec fn copy_of(addon: Addon) -> BuildStep {
    BuildStep::CopyAddon { addon, to: Place::Addon(addon) }
}

proof fn lemma_copy_steps(addons: Seq<Addon>, on_macos: bool, i: int)
    requires
        0 <= i < addons.len(),
    ensures
        copy_steps(addons, on_macos).contains(copy_of(addons[i])),
        forall|k: int|
            0 <= k < copy_steps(addons, on_macos).len() ==> !(#[trigger] copy_steps(
                addons,
                on_macos,
            )[k] is Compile),
    decreases addons.len(),
{
    let fewer = copy_steps(addons.drop_last(), on_macos);
    let all = copy_steps(addons, on_macos);
    let wanted = copy_of(addons[i]);
    if addons.len() > 1 {
        lemma_copy_steps(addons.drop_last(), on_macos, if i < addons.len() - 1 {
            i
        } else {
            0
        });
    }
    assert forall|k: int| 0 <= k < all.len() implies !(#[trigger] all[k] is Compile) by {
        if k < fewer.len() {
            assert(all[k] == fewer[k]);
        }
    }
    if i < addons.len() - 1 {
        let k = choose|k: int| 0 <= k < fewer.len() && fewer[k] == wanted;
        assert(all[k] == wanted);
    } else {
        assert(all[fewer.len() as int] == wanted);
    }
}

/// A build compiles every addon before it copies one, copies every addon, and ends with the
/// loader.
pub proof fn law_every_addon_is_compiled_then_copied_then_loaded(
    skip_build: bool,
    targets: BuildTargets,
    on_macos: bool,
    i: int,
) -> (at: (int, int))
    requires
        0 <= i < targets.addons().len(),
    ensures
        ({
            let steps = build_steps(skip_build, targets, on_macos);
            &&& 0 <= at.0 < at.1 < steps.len() - 1
            &&& steps[at.0] == BuildStep::Compile(targets.addons()[i])
            &&& steps[at.1] == copy_of(targets.addons()[i])
            &&& forall|k: int| at.1 <= k < steps.len() ==> !(#[trigger] steps[k] is Compile)
            &&& steps.last() == (BuildStep::Write {
                place: Place::Loader,
                contents: targets.loader_contents(),
            })
        }),
{
    let steps = build_steps(skip_build, targets, on_macos);
    let addons = targets.addons();
    let copies = copy_steps(addons, on_macos);
    let head = generate_steps(skip_build).len() as int;
    let n = addons.len() as int;
    lemma_copy_steps(addons, on_macos, i);
    let k = choose|k: int| 0 <= k < copies.len() && copies[k] == copy_of(addons[i]);
    let from = head + n + n + 1;
    assert forall|j: int| from + k <= j < steps.len() implies !(#[trigger] steps[j] is Compile) by {
        if j < from + copies.len() {
            assert(steps[j] == copies[j - from]);
        }
    }
    assert(steps[head + i] == BuildStep::Compile(addons[i]));
    assert(steps[from + k] == copies[k]);
    (head + i, from + k)
}

/// The crate that is bound is built first, and only where building is not skipped.
pub proof fn law_skipping_the_build_skips_only_the_bound_crate(
    targets: BuildTargets,
    on_macos: bool,
)
    ensures
        build_steps(false, targets, on_macos) == seq![BuildStep::BuildCrate] + build_steps(
            true,
            targets,
            on_macos,
        ),
{
    assert(build_steps(false, targets, on_macos) =~= seq![BuildStep::BuildCrate] + build_steps(
        true,
        targets,
        on_macos,
    ));
}

/// Whether `step` writes no text that is missing: the text is fixed, or one of the two that are
/// rendered.
pub open spec fn has_its_text(step: BuildStep, targets: BuildTargets) -> bool {
    step matches BuildStep::Write { place, contents } ==> contents == Contents::Entrypoint
        || contents == Contents::Manifest || targets.text(contents) is Some
}

proof fn lemma_copy_steps_write_nothing(addons: Seq<Addon>, on_macos: bool)
    ensures
        forall|k: int|
            0 <= k < copy_steps(addons, on_macos).len() ==> !(#[trigger] copy_steps(
                addons,
                on_macos,
            )[k] is Write),
    decreases addons.len(),
{
    if addons.len() > 0 {
        let fewer = copy_steps(addons.drop_last(), on_macos);
        let all = copy_steps(addons, on_macos);
        lemma_copy_steps_write_nothing(addons.drop_last(), on_macos);
        assert forall|k: int| 0 <= k < all.len() implies !(#[trigger] all[k] is Write) by {
            if k < fewer.len() {
                assert(all[k] == fewer[k]);
            }
        }
    }
}

/// Every text that a build writes is fixed for its targets, but for the entrypoint and the manifest,
/// which are rendered.
pub proof fn law_what_is_written_is_known(
    skip_build: bool,
    targets: BuildTargets,
    on_macos: bool,
    k: int,
)
    requires
        0 <= k < build_steps(skip_build, targets, on_macos).len(),
    ensures
        has_its_text(build_steps(skip_build, targets, on_macos)[k], targets),
{
    let addons = targets.addons();
    let steps = build_steps(skip_build, targets, on_macos);
    let copies = copy_steps(addons, on_macos);
    let from = generate_steps(skip_build).len() + addons.len() + addons.len() + 1;
    lemma_copy_steps_write_nothing(addons, on_macos);
    if from <= k < from + copies.len() {
        assert(steps[k] == copies[k - from]);
    }
}

/// A build for listed targets makes one addon for each, in the order of the list. A build for the
/// host makes one addon, whatever the host is.
pub proof fn law_every_listed_target_has_its_addon(targets: BuildTargets)
    ensures
        targets is Host ==> targets.addons() == seq![Addon::Host],
        targets matches BuildTargets::Listed(list) ==> {
            &&& targets.addons().len() == list@.len()
            &&& forall|i: int|
                0 <= i < list@.len() ==> #[trigger] targets.addons()[i] == Addon::For(list@[i])
        },
{
}

/// An addon for a target is built with that target and named by its loader key. The one for the
/// host is built without a target, and has the name that the only loader asks for.
pub proof fn law_addons_are_built_and_named_for_their_targets(target: Target)
    ensures
        Addon::For(target).cargo_target() == Some(target),
        Addon::For(target).file_name() == target.loader_key_text() + ".node"@,
        Addon::Host.cargo_target() is None,
        Addon::Host.file_name() == "index.node"@,
{
}

/// Addons are copied one after the other, each to the place of its own name. On macOS the one for
/// the host and the one for Darwin are signed where they were copied to, and no other.
pub proof fn law_addons_are_copied_and_signed_one_by_one(
    first: Seq<Addon>,
    second: Seq<Addon>,
    on_macos: bool,
)
    ensures
        copy_steps(Seq::empty(), on_macos).len() == 0,
        copy_steps(first + second, on_macos) == copy_steps(first, on_macos) + copy_steps(
            second,
            on_macos,
        ),
        forall|addon: Addon|
            {
                let copy = BuildStep::CopyAddon { addon, to: Place::Addon(addon) };
                let darwin = addon == Addon::Host || addon == Addon::For(
                    Target::Aarch64AppleDarwin,
                );
                &&& on_macos && darwin ==> #[trigger] copy_steps(seq![addon], on_macos) == seq![
                    copy,
                    BuildStep::Sign(Place::Addon(addon)),
                ]
                &&& !on_macos || !darwin ==> copy_steps(seq![addon], on_macos) == seq![copy]
            },
    decreases second.len(),
{
    assert forall|addon: Addon| #[trigger]
        copy_steps(seq![addon], on_macos) == copy_step(addon, on_macos) by {
        reveal_with_fuel(copy_steps, 2);
        assert(seq![addon].drop_last() =~= Seq::<Addon>::empty());
        assert(copy_steps(seq![addon], on_macos) =~= copy_step(addon, on_macos));
    }
    if second.len() == 0 {
        assert(first + second =~= first);
        assert(copy_steps(first, on_macos) + copy_steps(second, on_macos) =~= copy_steps(
            first,
            on_macos,
        ));
    } else {
        assert((first + second).drop_last() =~= first + second.drop_last());
        law_addons_are_copied_and_signed_one_by_one(first, second.drop_last(), on_macos);
        assert(copy_steps(first + second, on_macos) =~= copy_steps(first, on_macos) + copy_steps(
            second,
            on_macos,
        ));
    }
}

/// A build takes its steps in one order, whatever it is for: the crate unless that is skipped, its
/// library, the generated crate with its bindings and files, one compilation for each addon, one
/// look for each library, the copies, and the loader.
pub proof fn law_a_build_takes_its_steps_in_order(
    skip_build: bool,
    targets: BuildTargets,
    on_macos: bool,
)
    ensures
        ({
            let addons = targets.addons();
            let n = addons.len() as int;
            let steps = build_steps(skip_build, targets, on_macos);
            let rest = if skip_build {
                steps
            } else {
                steps.skip(1)
            };
            let loader = if targets is Host {
                Contents::SingleLoader
            } else {
                Contents::TargetLoader
            };
            &&& !skip_build ==> steps[0] == BuildStep::BuildCrate
            &&& rest.len() == 9 + 2 * n + copy_steps(addons, on_macos).len()
            &&& rest[0] == BuildStep::RequireLibrary
            &&& rest[1] == BuildStep::MakeDir(Place::GeneratedCrate)
            &&& rest[2] == BuildStep::MakeDir(Place::GeneratedSource)
            &&& rest[3] == BuildStep::GenerateBindings
            &&& rest[4] == (BuildStep::Write {
                place: Place::Entrypoint,
                contents: Contents::Entrypoint,
            })
            &&& rest[5] == (BuildStep::Write {
                place: Place::Manifest,
                contents: Contents::Manifest,
            })
            &&& rest[6] == (BuildStep::Write {
                place: Place::BuildScript,
                contents: Contents::BuildScript,
            })
            &&& forall|i: int|
                0 <= i < n ==> rest[7 + i] == BuildStep::Compile(#[trigger] addons[i]) && rest[7
                    + n + i] == BuildStep::RequireAddon(addons[i])
            &&& rest[7 + 2 * n] == BuildStep::MakeDir(Place::AddonDir)
            &&& rest.subrange(8 + 2 * n, rest.len() - 1) == copy_steps(addons, on_macos)
            &&& rest.last() == (BuildStep::Write { place: Place::Loader, contents: loader })
        }),
{
    let addons = targets.addons();
    let n = addons.len() as int;
    let steps = build_steps(skip_build, targets, on_macos);
    let rest = if skip_build {
        steps
    } else {
        steps.skip(1)
    };
    assert(rest.subrange(8 + 2 * n, rest.len() - 1) =~= copy_steps(addons, on_macos));
}

/// The script of the build and the loaders are the fixed texts. A loader for targets lists the
/// targets of the build.
pub proof fn law_fixed_files_hold_fixed_texts(targets: BuildTargets)
    ensures
        targets.text(Contents::BuildScript) == Some("fn main() { napi_build::setup(); }\n"@),
        targets.text(Contents::SingleLoader) == Some(
            "// @ts-nocheck\nimport { createRequire } from \"node:module\";\nconst require = createRequire(import.meta.url);\nconst native = require(\"./index.node\");\nexport default native;\n"@,
        ),
        targets matches BuildTargets::Listed(list) ==> targets.text(Contents::TargetLoader) == Some(
            target_loader_text(list@),
        ),
        targets is Host ==> targets.text(Contents::TargetLoader) is None,
        targets.text(Contents::Entrypoint) is None,
        targets.text(Contents::Manifest) is None,
{
}

/// The generated crate holds its sources, manifest and build script, with the entrypoint where the
/// bindings say; addons and loader stand next to each other below the generated TypeScript.
pub proof fn law_places_are_below_their_directories(entrypoint: Seq<char>, addon: Addon)
    ensures
        Place::GeneratedCrate.root_dir() == Root::AbiDir,
        Place::GeneratedCrate.names(entrypoint).len() == 0,
        Place::GeneratedSource.root_dir() == Root::AbiDir,
        Place::GeneratedSource.names(entrypoint) == seq!["src"@],
        Place::Entrypoint.root_dir() == Root::AbiDir,
        Place::Entrypoint.names(entrypoint) == seq![entrypoint],
        Place::Manifest.root_dir() == Root::AbiDir,
        Place::Manifest.names(entrypoint) == seq!["Cargo.toml"@],
        Place::BuildScript.root_dir() == Root::AbiDir,
        Place::BuildScript.names(entrypoint) == seq!["build.rs"@],
        Place::AddonDir.root_dir() == Root::TsDir,
        Place::AddonDir.names(entrypoint) == seq!["napi-bindings"@],
        Place::Addon(addon).root_dir() == Root::TsDir,
        Place::Addon(addon).names(entrypoint) == Place::AddonDir.names(entrypoint).push(
            addon.file_name(),
        ),
        Place::Loader.root_dir() == Root::TsDir,
        Place::Loader.names(entrypoint) == Place::AddonDir.names(entrypoint).push("index.js"@),
{
    assert(Place::Addon(addon).names(entrypoint) =~= Place::AddonDir.names(entrypoint).push(
        addon.file_name(),
    ));
    assert(Place::Loader.names(entrypoint) =~= Place::AddonDir.names(entrypoint).push(
        "index.js"@,
    ));
}

/// A step works on the place that it makes, writes, copies to or signs. What generates works on the
/// sources of the generated crate, and what compiles on its manifest.
pub proof fn law_steps_work_on_their_places(place: Place, contents: Contents, addon: Addon)
    ensures
        BuildStep::BuildCrate.subject() is None,
        BuildStep::RequireLibrary.subject() is None,
        BuildStep::MakeDir(place).subject() == Some(place),
        BuildStep::GenerateBindings.subject() == Some(Place::GeneratedSource),
        (BuildStep::Write { place, contents }).subject() == Some(place),
        BuildStep::Compile(addon).subject() == Some(Place::Manifest),
        BuildStep::RequireAddon(addon).subject() == Some(Place::Manifest),
        (BuildStep::CopyAddon { addon, to: place }).subject() == Some(place),
        BuildStep::Sign(place).subject() == Some(place),
{
}

} // verus!
