//! The files that make up the generated crate and its loader.

use vstd::prelude::*;
use vstd::string::*;

use crate::config::NapiConfig;
use crate::paths::{diff_utf8_paths, is_path_diff, text_of};
use crate::text::{
    join, joined, law_joining_goes_from_first_to_last, replace, replaced, texts,
};

verus! {

/// The name of the library target of a package.
pub open spec fn lib_name(package_name: Seq<char>) -> Seq<char> {
    replaced(package_name, "-"@, "_"@)
}

/// `text` between quotation marks.
pub open spec fn quoted(text: Seq<char>) -> Seq<char> {
    "\""@ + text + "\""@
}

pub open spec fn all_quoted(list: Seq<Seq<char>>) -> Seq<Seq<char>> {
    list.map_values(|text: Seq<char>| quoted(text))
}

/// The entries of a dependency on the crate at `crate_path`.
pub open spec fn dependency_entries(crate_path: Seq<char>, config: NapiConfig) -> Seq<Seq<char>> {
    let path = seq!["path = "@ + quoted(crate_path)];
    let features = match config.features {
        Some(features) => seq![
            "features = ["@ + joined(all_quoted(texts(features@)), ", "@) + "]"@,
        ],
        None => Seq::empty(),
    };
    let defaults = match config.default_features {
        Some(true) => seq!["default-features = true"@],
        Some(false) => seq!["default-features = false"@],
        None => Seq::empty(),
    };
    path + features + defaults
}

/// The line of a manifest that depends on a package.
pub open spec fn dependency_line(
    package_name: Seq<char>,
    crate_path: Seq<char>,
    config: NapiConfig,
) -> Seq<char> {
    package_name + " = { "@ + joined(dependency_entries(crate_path, config), ", "@) + " }"@
}

fn quote(text: &str) -> (r: String)
    ensures
        r@ == quoted(text@),
{
    let mut r = "\"".to_owned();
    r.append(text);
    r.append("\"");
    r
}

fn quote_all(list: &Vec<String>) -> (r: Vec<String>)
    ensures
        texts(r@) == all_quoted(texts(list@)),
{
    let mut r: Vec<String> = Vec::new();
    let mut i: usize = 0;
    while i < list.len()
        invariant
            i <= list@.len(),
            r@.len() == i,
            forall|k: int| 0 <= k < i ==> (#[trigger] r@[k])@ == quoted(list@[k]@),
        decreases list@.len() - i,
    {
        r.push(quote(list[i].as_str()));
        i += 1;
    }
    assert(texts(r@) =~= all_quoted(texts(list@)));
    r
}

/// The line of a manifest that depends on a package.
pub fn crate_dependency_line(package_name: &str, crate_path: &str, config: &NapiConfig) -> (r:
    String)
    ensures
        r@ == dependency_line(package_name@, crate_path@, *config),
{
    let mut entries: Vec<String> = Vec::new();
    let mut path = "path = ".to_owned();
    path.append(quote(crate_path).as_str());
    entries.push(path);
    if let Some(features) = &config.features {
        let mut entry = "features = [".to_owned();
        entry.append(join(&quote_all(features), ", ").as_str());
        entry.append("]");
        entries.push(entry);
    }
    if let Some(default_features) = config.default_features {
        if default_features {
            entries.push("default-features = true".to_owned());
        } else {
            entries.push("default-features = false".to_owned());
        }
    }
    assert(texts(entries@) =~= dependency_entries(crate_path@, *config));
    let mut r = package_name.to_owned();
    r.append(" = { ");
    r.append(join(&entries, ", ").as_str());
    r.append(" }");
    r
}

/// The manifest of a generated crate that depends on a package at `crate_path`.
pub open spec fn build_manifest(
    template: Seq<char>,
    package_name: Seq<char>,
    crate_path: Seq<char>,
    config: NapiConfig,
) -> Seq<char> {
    replaced(
        replaced(template, "{{crate_lib_name}}"@, lib_name(package_name)),
        "{{crate_dependency}}"@,
        dependency_line(package_name, crate_path, config),
    )
}

/// Fills the placeholders of `template`.
pub fn fill_build_manifest(
    template: &str,
    package_name: &str,
    crate_path: &str,
    config: &NapiConfig,
) -> (r: String)
    ensures
        r@ == build_manifest(template@, package_name@, crate_path@, *config),
{
    proof {
        reveal_strlit("-");
        reveal_strlit("{{crate_lib_name}}");
        reveal_strlit("{{crate_dependency}}");
    }
    let lib_name = replace(package_name, "-", "_");
    let named = replace(template, "{{crate_lib_name}}", lib_name.as_str());
    replace(
        named.as_str(),
        "{{crate_dependency}}",
        crate_dependency_line(package_name, crate_path, config).as_str(),
    )
}

/// The manifest of the crate in `generated_crate` for the package in `crate_dir`, or `None` where
/// no path leads from the one to the other.
pub fn render_cargo_toml(
    template: &str,
    package_name: &str,
    crate_dir: &str,
    generated_crate: &str,
    config: &NapiConfig,
) -> (r: Option<String>)
    ensures
        exists|diff: Option<Seq<char>>| #[trigger]
            is_path_diff(crate_dir@, generated_crate@, diff) && text_of(r) == match diff {
                Some(path) => Some(build_manifest(template@, package_name@, path, *config)),
                None => None,
            },
        crate_dir@ == generated_crate@ ==> (r matches Some(manifest) && manifest@ == build_manifest(
            template@,
            package_name@,
            Seq::empty(),
            *config,
        )),
{
    let diff = diff_utf8_paths(crate_dir, generated_crate);
    assert(is_path_diff(crate_dir@, generated_crate@, text_of(diff)));
    match diff {
        Some(crate_path) => Some(
            fill_build_manifest(template, package_name, crate_path.as_str(), config),
        ),
        None => None,
    }
}

/// The manifest of a generated crate that stands for a test run.
pub open spec fn run_manifest(
    template: Seq<char>,
    package_name: Seq<char>,
    crate_path: Seq<char>,
) -> Seq<char> {
    replaced(
        replaced(
            replaced(template, "{{crate_name}}"@, package_name),
            "{{crate_lib_name}}"@,
            lib_name(package_name),
        ),
        "{{crate_path}}"@,
        crate_path,
    )
}

/// Fills the placeholders of `template` for a test run.
pub fn fill_run_manifest(template: &str, package_name: &str, crate_path: &str) -> (r: String)
    ensures
        r@ == run_manifest(template@, package_name@, crate_path@),
{
    proof {
        reveal_strlit("-");
        reveal_strlit("{{crate_name}}");
        reveal_strlit("{{crate_lib_name}}");
        reveal_strlit("{{crate_path}}");
    }
    let lib_name = replace(package_name, "-", "_");
    let named = replace(template, "{{crate_name}}", package_name);
    let with_lib = replace(named.as_str(), "{{crate_lib_name}}", lib_name.as_str());
    replace(with_lib.as_str(), "{{crate_path}}", crate_path)
}

/// As [`render_cargo_toml`], for a test run.
pub fn render_run_cargo_toml(
    template: &str,
    package_name: &str,
    crate_dir: &str,
    generated_crate: &str,
) -> (r: Option<String>)
    ensures
        exists|diff: Option<Seq<char>>| #[trigger]
            is_path_diff(crate_dir@, generated_crate@, diff) && text_of(r) == match diff {
                Some(path) => Some(run_manifest(template@, package_name@, path)),
                None => None,
            },
        crate_dir@ == generated_crate@ ==> (r matches Some(manifest) && manifest@ == run_manifest(
            template@,
            package_name@,
            Seq::empty(),
        )),
{
    let diff = diff_utf8_paths(crate_dir, generated_crate);
    assert(is_path_diff(crate_dir@, generated_crate@, text_of(diff)));
    match diff {
        Some(crate_path) => Some(fill_run_manifest(template, package_name, crate_path.as_str())),
        None => None,
    }
}

/// The build script of the generated crate.
pub open spec fn build_script_text() -> Seq<char> {
    "fn main() { napi_build::setup(); }\n"@
}

/// The build script of the generated crate.
pub fn build_script() -> (r: &'static str)
    ensures
        r@ == build_script_text(),
{
    "fn main() { napi_build::setup(); }\n"
}

/// The library of a package has the package's name with an underscore for each hyphen.
pub proof fn law_lib_name_has_underscores_for_hyphens(package_name: Seq<char>)
    ensures
        lib_name(package_name) == package_name.map_values(
            |c: char| if c == '-' {
                '_'
            } else {
                c
            },
        ),
    decreases package_name.len(),
{
    reveal_strlit("-");
    reveal_strlit("_");
    assert("-"@ =~= seq!['-'] && "_"@ =~= seq!['_']);
    let f = |c: char| if c == '-' {
        '_'
    } else {
        c
    };
    if package_name.len() > 0 {
        let rest = package_name.skip(1);
        law_lib_name_has_underscores_for_hyphens(rest);
        assert(package_name.take(1) =~= seq![package_name[0]]);
        assert(package_name[0] == '-' <==> package_name.take(1) == "-"@) by {
            assert(package_name.take(1)[0] == package_name[0]);
        }
        assert(package_name.map_values(f) =~= seq![f(package_name[0])] + rest.map_values(f));
    } else {
        assert(package_name.map_values(f) =~= package_name);
    }
}

/// The line of a dependency, part by part.
proof fn lemma_line(package_name: Seq<char>, crate_path: Seq<char>, config: NapiConfig)
    ensures
        dependency_line(package_name, crate_path, config) == package_name + " = { path = \""@
            + crate_path + "\""@ + match config.features {
            Some(list) => ", features = ["@ + joined(
                texts(list@).map_values(|f: Seq<char>| "\""@ + f + "\""@),
                ", "@,
            ) + "]"@,
            None => Seq::empty(),
        } + match config.default_features {
            Some(true) => ", default-features = true"@,
            Some(false) => ", default-features = false"@,
            None => Seq::empty(),
        } + " }"@,
{
    reveal_strlit(" = { path = \"");
    reveal_strlit(" = { ");
    reveal_strlit("path = ");
    reveal_strlit("\"");
    reveal_strlit(", features = [");
    reveal_strlit("features = [");
    reveal_strlit(", ");
    reveal_strlit(", default-features = true");
    reveal_strlit("default-features = true");
    reveal_strlit(", default-features = false");
    reveal_strlit("default-features = false");
    assert(" = { path = \""@ =~= " = { "@ + "path = "@ + "\""@);
    assert(", features = ["@ =~= ", "@ + "features = ["@);
    assert(", default-features = true"@ =~= ", "@ + "default-features = true"@);
    assert(", default-features = false"@ =~= ", "@ + "default-features = false"@);
    let path = "path = "@ + quoted(crate_path);
    let features = match config.features {
        Some(list) => seq![
            "features = ["@ + joined(
                texts(list@).map_values(|f: Seq<char>| "\""@ + f + "\""@),
                ", "@,
            ) + "]"@,
        ],
        None => Seq::empty(),
    };
    if let Some(list) = config.features {
        assert(all_quoted(texts(list@)) =~= texts(list@).map_values(
            |f: Seq<char>| "\""@ + f + "\""@,
        ));
    }
    let defaults = match config.default_features {
        Some(true) => seq!["default-features = true"@],
        Some(false) => seq!["default-features = false"@],
        None => Seq::empty(),
    };
    let entries = dependency_entries(crate_path, config);
    assert(entries =~= seq![path] + (features + defaults));
    law_joining_goes_from_first_to_last(path, features + defaults, ", "@);
    if features.len() > 0 {
        assert(features + defaults =~= seq![features[0]] + defaults);
        law_joining_goes_from_first_to_last(features[0], defaults, ", "@);
    } else {
        assert(features + defaults =~= defaults);
    }
    if defaults.len() > 0 {
        assert(defaults =~= seq![defaults[0]] + Seq::<Seq<char>>::empty());
        law_joining_goes_from_first_to_last(defaults[0], Seq::empty(), ", "@);
    }
    assert(dependency_line(package_name, crate_path, config) =~= package_name
        + " = { path = \""@ + crate_path + "\""@ + match config.features {
        Some(list) => ", features = ["@ + joined(
            texts(list@).map_values(|f: Seq<char>| "\""@ + f + "\""@),
            ", "@,
        ) + "]"@,
        None => Seq::empty(),
    } + match config.default_features {
        Some(true) => ", default-features = true"@,
        Some(false) => ", default-features = false"@,
        None => Seq::empty(),
    } + " }"@);
}

/// A dependency line names the package and the path. Features are written whenever they are
/// configured, quoted and in order, and default features whenever these are, each of the two
/// whatever the other is.
pub proof fn law_a_dependency_line_holds_what_is_configured(
    package_name: Seq<char>,
    crate_path: Seq<char>,
    config: NapiConfig,
)
    ensures
        exists|features: Seq<char>, defaults: Seq<char>|
            {
                &&& dependency_line(package_name, crate_path, config) == #[trigger] (package_name
                    + " = { path = \""@ + crate_path + "\""@ + features + defaults + " }"@)
                &&& config.features is None ==> features.len() == 0
                &&& config.features matches Some(list) ==> features == ", features = ["@ + joined(
                    texts(list@).map_values(|f: Seq<char>| "\""@ + f + "\""@),
                    ", "@,
                ) + "]"@
                &&& config.default_features is None ==> defaults.len() == 0
                &&& config.default_features == Some(true) ==> defaults
                    == ", default-features = true"@
                &&& config.default_features == Some(false) ==> defaults
                    == ", default-features = false"@
            },
{
    lemma_line(package_name, crate_path, config);
    let features = match config.features {
        Some(list) => ", features = ["@ + joined(
            texts(list@).map_values(|f: Seq<char>| "\""@ + f + "\""@),
            ", "@,
        ) + "]"@,
        None => Seq::empty(),
    };
    let defaults = match config.default_features {
        Some(true) => ", default-features = true"@,
        Some(false) => ", default-features = false"@,
        None => Seq::empty(),
    };
    assert(dependency_line(package_name, crate_path, config) == package_name + " = { path = \""@
        + crate_path + "\""@ + features + defaults + " }"@);
}

/// Configuring features adds exactly their list to the line, whether or not default features are
/// configured.
pub proof fn law_features_are_written_whatever_the_defaults(
    package_name: Seq<char>,
    crate_path: Seq<char>,
    with: NapiConfig,
    without: NapiConfig,
)
    requires
        with.features is Some,
        without.features is None,
        with.default_features == without.default_features,
    ensures
        ({
            let head = package_name + " = { path = \""@ + crate_path + "\""@;
            let added = ", features = ["@ + joined(
                texts(with.features->0@).map_values(|f: Seq<char>| "\""@ + f + "\""@),
                ", "@,
            ) + "]"@;
            let plain = dependency_line(package_name, crate_path, without);
            &&& head.len() <= plain.len()
            &&& plain.take(head.len() as int) == head
            &&& dependency_line(package_name, crate_path, with) == head + added + plain.skip(
                head.len() as int,
            )
        }),
{
    lemma_line(package_name, crate_path, with);
    lemma_line(package_name, crate_path, without);
    let head = package_name + " = { path = \""@ + crate_path + "\""@;
    let plain = dependency_line(package_name, crate_path, without);
    let defaults = match without.default_features {
        Some(true) => ", default-features = true"@,
        Some(false) => ", default-features = false"@,
        None => Seq::empty(),
    };
    let added = ", features = ["@ + joined(
        texts(with.features->0@).map_values(|f: Seq<char>| "\""@ + f + "\""@),
        ", "@,
    ) + "]"@;
    assert(plain =~= head + (defaults + " }"@));
    assert(plain.take(head.len() as int) =~= head);
    assert(plain.skip(head.len() as int) =~= defaults + " }"@);
    assert(dependency_line(package_name, crate_path, with) =~= head + added + plain.skip(
        head.len() as int,
    ));
}

/// A manifest is its template, first with the library's name and then with the dependency filled in.
/// The library has the package's name with underscores.
pub proof fn law_a_build_manifest_fills_its_template(
    template: Seq<char>,
    package_name: Seq<char>,
    crate_path: Seq<char>,
    config: NapiConfig,
)
    ensures
        ({
            let lib = package_name.map_values(
                |c: char| if c == '-' {
                    '_'
                } else {
                    c
                },
            );
            build_manifest(template, package_name, crate_path, config) == replaced(
                replaced(template, "{{crate_lib_name}}"@, lib),
                "{{crate_dependency}}"@,
                dependency_line(package_name, crate_path, config),
            )
        }),
{
    law_lib_name_has_underscores_for_hyphens(package_name);
}

/// The manifest of a run is its template with the package's name, the library's name and the path
/// filled in, in this order.
pub proof fn law_a_run_manifest_fills_its_template(
    template: Seq<char>,
    package_name: Seq<char>,
    crate_path: Seq<char>,
)
    ensures
        ({
            let lib = package_name.map_values(
                |c: char| if c == '-' {
                    '_'
                } else {
                    c
                },
            );
            run_manifest(template, package_name, crate_path) == replaced(
                replaced(
                    replaced(template, "{{crate_name}}"@, package_name),
                    "{{crate_lib_name}}"@,
                    lib,
                ),
                "{{crate_path}}"@,
                crate_path,
            )
        }),
{
    law_lib_name_has_underscores_for_hyphens(package_name);
}

} // verus!
