//! Paths, as the `camino` and `pathdiff` crates treat them.
//!
//! How a path is written differs between systems. What these crates make of their arguments is
//! therefore stated as a relation: the results that they give on some system.

use vstd::prelude::*;

verus! {

/// Whether `diff` is what `pathdiff` makes of `path` and the directory `base` on some system.
pub uninterp spec fn is_path_diff(
    path: Seq<char>,
    base: Seq<char>,
    diff: Option<Seq<char>>,
) -> bool;

/// Whether `joined` is what `camino` makes of `base` with `name` adjoined on some system.
pub uninterp spec fn is_path_join(base: Seq<char>, name: Seq<char>, joined: Seq<char>) -> bool;

/// Whether `same` is what `camino` says of the equality of the paths `a` and `b` on some system.
pub uninterp spec fn is_path_equality(a: Seq<char>, b: Seq<char>, same: bool) -> bool;

/// The text that an optional string holds.
pub open spec fn text_of(s: Option<String>) -> Option<Seq<char>> {
    match s {
        Some(s) => Some(s@),
        None => None,
    }
}

/// Calls `pathdiff::diff_utf8_paths`: the path that leads from the directory `base` to `path`, if
/// there is one. From a directory to itself it is the empty path. Beyond that, nothing is said of
/// the result but that it is one that `pathdiff` gives for the arguments on some system.
#[verifier::external_body]
pub(crate) fn diff_utf8_paths(path: &str, base: &str) -> (r: Option<String>)
    ensures
        is_path_diff(path@, base@, text_of(r)),
        path@ == base@ ==> r is Some && r->0@ == Seq::<char>::empty(),
{
    pathdiff::diff_utf8_paths(path, base).map(|diff| diff.into_string())
}

/// Calls `camino::Utf8Path::join`: the path `base` with `name` adjoined. Nothing is said of the
/// result but that it is one that `camino` gives for the arguments on some system.
#[verifier::external_body]
pub(crate) fn join_path(base: &str, name: &str) -> (r: String)
    ensures
        is_path_join(base@, name@, r@),
{
    camino::Utf8Path::new(base).join(name).into_string()
}

/// Calls `==` of `camino::Utf8Path`, which compares the components of two paths. Paths that are
/// written alike are equal. Of others, nothing is said but that the result is one that `camino`
/// gives for the arguments on some system.
#[verifier::external_body]
pub(crate) fn same_path(a: &str, b: &str) -> (r: bool)
    ensures
        is_path_equality(a@, b@, r),
        a@ == b@ ==> r,
{
    camino::Utf8Path::new(a) == camino::Utf8Path::new(b)
}

/// Whether `path` is where `names` lead from `base`, each adjoined to what came before it.
pub open spec fn is_path_below(base: Seq<char>, names: Seq<Seq<char>>, path: Seq<char>) -> bool
    decreases names.len(),
{
    if names.len() == 0 {
        path == base
    } else {
        exists|parent: Seq<char>|
            is_path_below(base, names.drop_last(), parent) && #[trigger] is_path_join(
                parent,
                names.last(),
                path,
            )
    }
}

/// From a directory, no names lead to the directory itself, and one more name leads to what it is
/// when adjoined to where the others lead.
pub proof fn law_names_lead_down_one_by_one(
    base: Seq<char>,
    names: Seq<Seq<char>>,
    name: Seq<char>,
    path: Seq<char>,
)
    ensures
        is_path_below(base, Seq::empty(), path) <==> path == base,
        is_path_below(base, seq![name], path) <==> is_path_join(base, name, path),
        is_path_below(base, names.push(name), path) <==> exists|parent: Seq<char>|
            is_path_below(base, names, parent) && #[trigger] is_path_join(parent, name, path),
{
    lemma_one_more_name(base, names, name, path);
    lemma_one_more_name(base, Seq::empty(), name, path);
    assert(Seq::empty().push(name) =~= seq![name]);
    assert(is_path_below(base, Seq::empty(), base));
    if is_path_below(base, seq![name], path) {
        let parent = choose|parent: Seq<char>|
            is_path_below(base, Seq::empty(), parent) && #[trigger] is_path_join(
                parent,
                name,
                path,
            );
        assert(parent == base);
    }
}

proof fn lemma_one_more_name(
    base: Seq<char>,
    names: Seq<Seq<char>>,
    name: Seq<char>,
    path: Seq<char>,
)
    ensures
        is_path_below(base, names.push(name), path) <==> exists|parent: Seq<char>|
            is_path_below(base, names, parent) && #[trigger] is_path_join(parent, name, path),
{
    let all = names.push(name);
    assert(all.drop_last() =~= names);
    assert(all.last() == name);
    if is_path_below(base, all, path) {
        let parent = choose|parent: Seq<char>|
            is_path_below(base, all.drop_last(), parent) && #[trigger] is_path_join(
                parent,
                all.last(),
                path,
            );
        assert(is_path_below(base, names, parent) && is_path_join(parent, name, path));
    }
    if exists|parent: Seq<char>|
        is_path_below(base, names, parent) && #[trigger] is_path_join(parent, name, path) {
        let parent = choose|parent: Seq<char>|
            is_path_below(base, names, parent) && #[trigger] is_path_join(parent, name, path);
        assert(is_path_below(base, all.drop_last(), parent) && is_path_join(
            parent,
            all.last(),
            path,
        ));
    }
}

/// An optional string has a text if it is there, and that text is its own.
pub proof fn law_a_string_that_is_there_has_a_text(s: Option<String>)
    ensures
        s is None ==> text_of(s) is None,
        s matches Some(text) ==> text_of(s) == Some(text@),
{
}

} // verus!
