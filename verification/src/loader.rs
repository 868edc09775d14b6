//! The script that loads an addon into Node.js.

use vstd::prelude::*;
use vstd::string::*;

use crate::config::Target;

verus! {

/// The script that loads the only addon.
pub open spec fn single_loader_text() -> Seq<char> {
    "// @ts-nocheck\nimport { createRequire } from \"node:module\";\nconst require = createRequire(import.meta.url);\nconst native = require(\"./index.node\");\nexport default native;\n"@
}

/// The script that loads the only addon.
pub fn single_loader() -> (r: &'static str)
    ensures
        r@ == single_loader_text(),
{
    "// @ts-nocheck\nimport { createRequire } from \"node:module\";\nconst require = createRequire(import.meta.url);\nconst native = require(\"./index.node\");\nexport default native;\n"
}

/// What stands before the list of addons.
pub open spec fn loader_head() -> Seq<char> {
    "// @ts-nocheck\nimport { createRequire } from \"node:module\";\nconst require = createRequire(import.meta.url);\nconst target = `${process.platform}-${process.arch}`;\nconst addons = {\n"@
}

/// What stands after the list of addons.
pub open spec fn loader_tail() -> Seq<char> {
    "};\nconst addon = addons[target];\nif (addon === undefined) {\n  throw new Error(`Unsupported N-API target ${target}`);\n}\nconst native = require(addon);\nexport default native;\n"@
}

/// The line of the list that leads from a target to its addon.
pub open spec fn loader_entry(target: Target) -> Seq<char> {
    "  \""@ + target.loader_key_text() + "\": \"./"@ + (target.loader_key_text() + ".node"@)
        + "\",\n"@
}

pub open spec fn loader_entries(targets: Seq<Target>) -> Seq<char>
    decreases targets.len(),
{
    if targets.len() == 0 {
        Seq::empty()
    } else {
        loader_entries(targets.drop_last()) + loader_entry(targets.last())
    }
}

/// The script that picks the addon of the platform that it runs on.
pub open spec fn target_loader_text(targets: Seq<Target>) -> Seq<char> {
    loader_head() + loader_entries(targets) + loader_tail()
}

/// The script that picks the addon of the platform that it runs on, and refuses any other.
pub fn target_loader(targets: &Vec<Target>) -> (r: String)
    ensures
        r@ == target_loader_text(targets@),
{
    let mut r =
        "// @ts-nocheck\nimport { createRequire } from \"node:module\";\nconst require = createRequire(import.meta.url);\nconst target = `${process.platform}-${process.arch}`;\nconst addons = {\n".to_owned();
    let mut i: usize = 0;
    assert(targets@.take(0) =~= Seq::<Target>::empty());
    assert(loader_head() + Seq::<char>::empty() =~= loader_head());
    while i < targets.len()
        invariant
            i <= targets@.len(),
            r@ == loader_head() + loader_entries(targets@.take(i as int)),
        decreases targets@.len() - i,
    {
        assert(targets@.take(i + 1).drop_last() =~= targets@.take(i as int));
        let ghost before = r@;
        r.append("  \"");
        r.append(targets[i].loader_key());
        r.append("\": \"./");
        r.append(targets[i].addon_filename().as_str());
        r.append("\",\n");
        assert(r@ =~= before + loader_entry(targets@[i as int]));
        assert(r@ =~= loader_head() + loader_entries(targets@.take(i + 1)));
        i += 1;
    }
    assert(targets@.take(i as int) =~= targets@);
    r.append("};\nconst addon = addons[target];\nif (addon === undefined) {\n  throw new Error(`Unsupported N-API target ${target}`);\n}\nconst native = require(addon);\nexport default native;\n");
    r
}

/// The loader has a line for every target that it was made for.
pub proof fn law_loader_lists_every_target(targets: Seq<Target>, i: int) -> (at: int)
    requires
        0 <= i < targets.len(),
    ensures
        0 <= at,
        at + loader_entry(targets[i]).len() <= loader_entries(targets).len(),
        loader_entries(targets).subrange(at, at + loader_entry(targets[i]).len() as int)
            == loader_entry(targets[i]),
    decreases targets.len(),
{
    let fewer = loader_entries(targets.drop_last());
    let all = loader_entries(targets);
    let entry = loader_entry(targets[i]);
    if i == targets.len() - 1 {
        let at = fewer.len() as int;
        assert(all.subrange(at, at + entry.len() as int) =~= entry);
        at
    } else {
        let at = law_loader_lists_every_target(targets.drop_last(), i);
        assert(all.subrange(at, at + entry.len() as int) =~= fewer.subrange(
            at,
            at + entry.len() as int,
        ));
        at
    }
}

/// Each further target adds one line to the loader, behind those of the targets before it and in
/// front of what picks the addon.
pub proof fn law_a_target_adds_its_line_to_the_loader(targets: Seq<Target>, target: Target)
    ensures
        ({
            let tail =
                "};\nconst addon = addons[target];\nif (addon === undefined) {\n  throw new Error(`Unsupported N-API target ${target}`);\n}\nconst native = require(addon);\nexport default native;\n"@;
            let line = "  \""@ + target.loader_key_text() + "\": \"./"@ + target.loader_key_text()
                + ".node\",\n"@;
            let before = target_loader_text(targets);
            let shared = before.len() - tail.len();
            &&& 0 <= shared
            &&& before.skip(shared) == tail
            &&& target_loader_text(targets.push(target)) == before.take(shared) + line + tail
        }),
{
    let tail = loader_tail();
    let before = target_loader_text(targets);
    let head = loader_head() + loader_entries(targets);
    let shared = before.len() - tail.len();
    reveal_strlit(".node\",\n");
    reveal_strlit(".node");
    reveal_strlit("\",\n");
    assert(".node\",\n"@ =~= ".node"@ + "\",\n"@);
    let line = "  \""@ + target.loader_key_text() + "\": \"./"@ + target.loader_key_text()
        + ".node\",\n"@;
    assert(line =~= loader_entry(target));
    assert(before.skip(shared) =~= tail);
    assert(before.take(shared) =~= head);
    assert(targets.push(target).drop_last() =~= targets);
    assert(target_loader_text(targets.push(target)) =~= head + line + tail);
}

/// Without targets the loader refuses every platform.
pub proof fn law_a_loader_without_targets_lists_nothing()
    ensures
        target_loader_text(Seq::empty())
            == "// @ts-nocheck\nimport { createRequire } from \"node:module\";\nconst require = createRequire(import.meta.url);\nconst target = `${process.platform}-${process.arch}`;\nconst addons = {\n"@
            + "};\nconst addon = addons[target];\nif (addon === undefined) {\n  throw new Error(`Unsupported N-API target ${target}`);\n}\nconst native = require(addon);\nexport default native;\n"@,
{
    assert(loader_head() + Seq::<char>::empty() =~= loader_head());
}

} // verus!
