//! The arguments of the commands that a build runs.

use vstd::prelude::*;

use crate::config::{NapiConfig, Target};
use crate::text::{join, joined, same_text, texts};

verus! {

/// The profile to build: the named one, or else what the release flag says.
pub open spec fn profile_name(profile: Option<Seq<char>>, release: bool) -> Seq<char> {
    match profile {
        Some(name) => name,
        None => if release {
            "release"@
        } else {
            "debug"@
        },
    }
}

/// The profile to build.
pub fn choose_profile<'a>(profile: Option<&'a str>, release: bool) -> (r: &'a str)
    ensures
        r@ == profile_name(
            match profile {
                Some(name) => Some(name@),
                None => None,
            },
            release,
        ),
{
    match profile {
        Some(name) => name,
        None => if release {
            "release"
        } else {
            "debug"
        },
    }
}

/// The arguments that turn features on and off.
pub open spec fn feature_args(config: NapiConfig) -> Seq<Seq<char>> {
    let features = match config.features {
        Some(features) => seq!["--features"@, joined(texts(features@), ","@)],
        None => Seq::empty(),
    };
    let defaults = match config.default_features {
        Some(true) => seq!["--default-features"@],
        Some(false) => seq!["--no-default-features"@],
        None => Seq::empty(),
    };
    features + defaults
}

/// The arguments that pick a profile. Cargo's own default needs none.
pub open spec fn profile_args(profile: Seq<char>) -> Seq<Seq<char>> {
    if profile == "debug"@ {
        Seq::empty()
    } else {
        seq!["--profile"@, profile]
    }
}

/// The arguments that pick a target.
pub open spec fn target_args(target: Option<Target>) -> Seq<Seq<char>> {
    match target {
        Some(target) => seq!["--target"@, target.triple_text()],
        None => Seq::empty(),
    }
}

/// The arguments that build the package of a manifest.
pub open spec fn manifest_args(manifest: Seq<char>) -> Seq<Seq<char>> {
    seq!["build"@, "--manifest-path"@, manifest]
}

proof fn lemma_texts_push(args: Seq<String>, arg: String)
    ensures
        texts(args.push(arg)) == texts(args).push(arg@),
{
    assert(texts(args.push(arg)) =~= texts(args).push(arg@));
}

fn push_arg(args: &mut Vec<String>, arg: &str)
    ensures
        texts(final(args)@) == texts(old(args)@).push(arg@),
{
    let arg = arg.to_owned();
    proof {
        lemma_texts_push(args@, arg);
    }
    args.push(arg);
}

fn push_manifest_args(args: &mut Vec<String>, manifest: &str)
    ensures
        texts(final(args)@) == texts(old(args)@) + manifest_args(manifest@),
{
    let ghost before = texts(args@);
    push_arg(args, "build");
    push_arg(args, "--manifest-path");
    push_arg(args, manifest);
    assert(texts(args@) =~= before + manifest_args(manifest@));
}

/// Appends the arguments that turn features on and off.
pub fn apply_feature_config(args: &mut Vec<String>, config: &NapiConfig)
    ensures
        texts(final(args)@) == texts(old(args)@) + feature_args(*config),
{
    let ghost before = texts(args@);
    if let Some(features) = &config.features {
        push_arg(args, "--features");
        push_arg(args, join(features, ",").as_str());
    }
    if let Some(default_features) = config.default_features {
        if default_features {
            push_arg(args, "--default-features");
        } else {
            push_arg(args, "--no-default-features");
        }
    }
    assert(texts(args@) =~= before + feature_args(*config));
}

fn push_profile_args(args: &mut Vec<String>, profile: &str)
    ensures
        texts(final(args)@) == texts(old(args)@) + profile_args(profile@),
{
    let ghost before = texts(args@);
    if !same_text(profile, "debug") {
        push_arg(args, "--profile");
        push_arg(args, profile);
    }
    assert(texts(args@) =~= before + profile_args(profile@));
}

fn push_target_args(args: &mut Vec<String>, target: Option<Target>)
    ensures
        texts(final(args)@) == texts(old(args)@) + target_args(target),
{
    let ghost before = texts(args@);
    if let Some(target) = target {
        push_arg(args, "--target");
        push_arg(args, target.triple());
    }
    assert(texts(args@) =~= before + target_args(target));
}

/// The arguments that build the crate that is bound.
pub fn bound_crate_args(manifest: &str, config: &NapiConfig, profile: &str) -> (r: Vec<String>)
    ensures
        texts(r@) == manifest_args(manifest@) + feature_args(*config) + profile_args(profile@),
{
    let mut args: Vec<String> = Vec::new();
    assert(texts(args@) + manifest_args(manifest@) =~= manifest_args(manifest@));
    push_manifest_args(&mut args, manifest);
    apply_feature_config(&mut args, config);
    push_profile_args(&mut args, profile);
    args
}

/// The arguments that build the generated crate, for a target or for the host.
pub fn generated_crate_args(manifest: &str, target: Option<Target>, profile: &str) -> (r: Vec<
    String,
>)
    ensures
        texts(r@) == manifest_args(manifest@) + target_args(target) + profile_args(profile@),
{
    let mut args: Vec<String> = Vec::new();
    assert(texts(args@) + manifest_args(manifest@) =~= manifest_args(manifest@));
    push_manifest_args(&mut args, manifest);
    push_target_args(&mut args, target);
    push_profile_args(&mut args, profile);
    args
}

/// The arguments of `codesign` that sign a file.
pub open spec fn signing_args(path: Seq<char>) -> Seq<Seq<char>> {
    seq!["-s"@, "-"@, "-f"@, path]
}

/// The arguments of `codesign` that sign the file at `path`.
pub fn codesign_args(path: &str) -> (r: Vec<String>)
    ensures
        texts(r@) == signing_args(path@),
{
    let mut args: Vec<String> = Vec::new();
    push_arg(&mut args, "-s");
    push_arg(&mut args, "-");
    push_arg(&mut args, "-f");
    push_arg(&mut args, path);
    assert(texts(args@) =~= signing_args(path@));
    args
}

/// A named profile is taken as it is, whatever the release flag says.
pub proof fn law_a_named_profile_wins(name: Seq<char>, release: bool)
    ensures
        profile_name(Some(name), release) == name,
        profile_name(None, true) == "release"@,
        profile_name(None, false) == "debug"@,
{
}

/// What is passed for the features depends on the features alone, and what is passed for the
/// default features on these alone. The features come first, as one list.
pub proof fn law_features_are_passed_independently(config: NapiConfig, other: NapiConfig)
    ensures
        config.features matches Some(list) ==> {
            &&& feature_args(config).len() >= 2
            &&& feature_args(config)[0] == "--features"@
            &&& feature_args(config)[1] == joined(texts(list@), ","@)
        },
        config.features is Some && config.default_features == other.default_features
            && other.features is None ==> feature_args(config).skip(2) == feature_args(other),
        config.features is None && config.default_features is None ==> feature_args(config).len()
            == 0,
        config.features is None && config.default_features == Some(true) ==> feature_args(config)
            == seq!["--default-features"@],
        config.features is None && config.default_features == Some(false) ==> feature_args(config)
            == seq!["--no-default-features"@],
{
    if config.features is Some && config.default_features == other.default_features
        && other.features is None {
        assert(feature_args(config).skip(2) =~= feature_args(other));
    }
    if config.features is None && config.default_features == Some(true) {
        assert(feature_args(config) =~= seq!["--default-features"@]);
    }
    if config.features is None && config.default_features == Some(false) {
        assert(feature_args(config) =~= seq!["--no-default-features"@]);
    }
}

/// Every profile but Cargo's own default is passed by name.
pub proof fn law_profiles_are_passed_by_name(profile: Seq<char>)
    ensures
        profile == "debug"@ ==> profile_args(profile).len() == 0,
        profile != "debug"@ ==> profile_args(profile) == seq!["--profile"@, profile],
{
}

/// A target is passed by its triple, and the host is not passed at all.
pub proof fn law_targets_are_passed_by_triple(target: Target)
    ensures
        target_args(Some(target)) == seq!["--target"@, target.triple_text()],
        target_args(None).len() == 0,
{
}

/// Cargo is told the manifest, and `codesign` the file, as they are given.
pub proof fn law_paths_are_passed_unchanged(path: Seq<char>)
    ensures
        manifest_args(path) == seq!["build"@, "--manifest-path"@, path],
        signing_args(path) == seq!["-s"@, "-"@, "-f"@, path],
{
}

} // verus!
