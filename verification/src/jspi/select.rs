//! Which symbols a selection selects.

use vstd::prelude::*;

use crate::jspi::exports::{
    append_exports, async_exports_of, collect_symbols, lemma_all_exports_add, list_exports,
    rust_async_exports, symbols,
};
use crate::jspi::selection::{JspiSelection, SelectError, SelectErrorView, Wasm2SelectError};
use crate::jspi::selector::{resolved_all, select_named, top_level};
use crate::jspi::target::{
    all_callables, all_exports, export_views, picked_views, target_views, without_callbacks,
    CallableView, Export, ExportView, Target, TargetView,
};
use crate::name_set::NameSet;
use crate::text::texts;

verus! {

impl JspiSelection {
    /// The selectors whose callables are added.
    pub open spec fn included_selectors(self) -> Seq<Seq<char>> {
        match self {
            JspiSelection::All(_) => Seq::empty(),
            JspiSelection::Named(names) => texts(names@),
            JspiSelection::Options(options) => texts(options.included@),
        }
    }

    /// The selectors whose callables are taken away.
    pub open spec fn excluded_selectors(self) -> Seq<Seq<char>> {
        match self {
            JspiSelection::Options(options) => texts(options.excluded@),
            _ => Seq::empty(),
        }
    }

    /// Whether the selection starts from every callable that can suspend: it asks for all, or it
    /// only excludes.
    pub open spec fn starts_from_all(self) -> bool {
        match self {
            JspiSelection::All(all) => all,
            JspiSelection::Named(_) => false,
            JspiSelection::Options(options) => !options.rust_async && options.included@.len() == 0
                && options.excluded@.len() > 0,
        }
    }

    /// Whether the selection adds the callables that are `async` in Rust.
    pub open spec fn adds_rust_async(self) -> bool {
        match self {
            JspiSelection::Options(options) => options.rust_async,
            _ => false,
        }
    }
}

/// The exports that `selection` takes before exclusions, when its selectors select `included`.
pub open spec fn taken(
    selection: JspiSelection,
    targets: Seq<TargetView>,
    included: Seq<CallableView>,
) -> Seq<ExportView> {
    let base = if selection.starts_from_all() {
        without_callbacks(top_level(targets))
    } else {
        Seq::empty()
    };
    let automatic = if selection.adds_rust_async() {
        async_exports_of(all_callables(targets))
    } else {
        Seq::empty()
    };
    all_exports(base + included) + automatic
}

/// The symbols that a web build selects.
pub open spec fn selected(selection: JspiSelection, targets: Seq<TargetView>) -> Result<
    Set<Seq<char>>,
    SelectErrorView,
> {
    let included = resolved_all(selection.included_selectors(), targets);
    let excluded = resolved_all(selection.excluded_selectors(), targets);
    match included.error {
        Some(e) => Err(e),
        None => match excluded.error {
            Some(e) => Err(e),
            None => Ok(
                symbols(
                    taken(selection, targets, included.chosen),
                    all_exports(excluded.chosen),
                ),
            ),
        },
    }
}

/// Appends to `out` the targets that can suspend.
fn push_suspendable<'a>(targets: &'a [Target<'a>], out: &mut Vec<&'a Target<'a>>)
    ensures
        picked_views(final(out)@) == picked_views(old(out)@) + without_callbacks(
            top_level(target_views(targets@)),
        ),
{
    let ghost before = picked_views(out@);
    let ghost tops = top_level(target_views(targets@));
    let mut i: usize = 0;
    assert(tops.take(0) =~= Seq::<CallableView>::empty());
    assert(before + Seq::<CallableView>::empty() =~= before);
    proof {
        reveal_with_fuel(Seq::filter, 2);
    }
    while i < targets.len()
        invariant
            i <= targets@.len(),
            before == picked_views(old(out)@),
            tops == top_level(target_views(targets@)),
            picked_views(out@) == before + without_callbacks(tops.take(i as int)),
        decreases targets@.len() - i,
    {
        let target: &'a Target<'a> = &targets[i];
        let ghost held = out@;
        let ghost so_far = without_callbacks(tops.take(i as int));
        proof {
            reveal_with_fuel(Seq::filter, 2);
            assert(tops.take(i + 1).drop_last() =~= tops.take(i as int));
        }
        if !target.has_callbacks {
            out.push(target);
            assert(picked_views(out@) =~= picked_views(held).push(target.callable_view()));
            assert(picked_views(out@) =~= before + so_far.push(target.callable_view()));
        }
        i += 1;
    }
    assert(tops.take(i as int) =~= tops);
}

/// The symbols that `selection` selects among `targets`, when its selectors select `included` and
/// exclude `excluded`.
pub fn selected_symbols<'a>(
    selection: &JspiSelection,
    targets: &'a [Target<'a>],
    included: &Vec<&'a Target<'a>>,
    excluded: &Vec<&'a Target<'a>>,
) -> (r: NameSet)
    ensures
        r@ == symbols(
            taken(*selection, target_views(targets@), picked_views(included@)),
            all_exports(picked_views(excluded@)),
        ),
{
    let ghost views = target_views(targets@);
    let ghost chosen = picked_views(included@);
    let mut base: Vec<&'a Target<'a>> = Vec::new();
    let mut automatic: Vec<Export<'a>> = Vec::new();
    let ghost none = Seq::<CallableView>::empty();
    assert(picked_views(base@) =~= none);
    assert(export_views(automatic@) =~= Seq::<ExportView>::empty());
    assert(none + without_callbacks(top_level(views)) =~= without_callbacks(top_level(views)));
    match selection {
        JspiSelection::All(all) => {
            if *all {
                push_suspendable(targets, &mut base);
            }
        },
        JspiSelection::Named(_) => {},
        JspiSelection::Options(options) => {
            if !options.rust_async && options.included.len() == 0 && options.excluded.len() > 0 {
                push_suspendable(targets, &mut base);
            } else if options.rust_async {
                automatic = rust_async_exports(targets);
            }
        },
    }
    proof {
        lemma_all_exports_add(picked_views(base@), chosen);
    }
    let mut exports = list_exports(&base);
    append_exports(&list_exports(included), &mut exports);
    append_exports(&automatic, &mut exports);
    let without = list_exports(excluded);
    collect_symbols(&exports, &without)
}

/// The symbols that `selection` selects among `targets`. Only a web build selects any.
pub fn select<'a>(selection: &JspiSelection, targets: &'a [Target<'a>], is_web: bool) -> (r: Result<
    NameSet,
    SelectError,
>)
    ensures
        !is_web ==> (r matches Ok(set) && set@ == Set::<Seq<char>>::empty()),
        is_web ==> match r {
            Ok(set) => selected(*selection, target_views(targets@)) == Ok::<
                Set<Seq<char>>,
                SelectErrorView,
            >(set@),
            Err(e) => selected(*selection, target_views(targets@)) == Err::<
                Set<Seq<char>>,
                SelectErrorView,
            >(e@),
        },
{
    if !is_web {
        return Ok(NameSet::new());
    }
    let ghost views = target_views(targets@);
    let ghost none = Seq::<CallableView>::empty();
    let mut included: Vec<&'a Target<'a>> = Vec::new();
    let mut excluded: Vec<&'a Target<'a>> = Vec::new();
    assert(picked_views(included@) =~= none);
    proof {
        let chosen = resolved_all(selection.included_selectors(), views).chosen;
        assert(none + chosen =~= chosen);
        let left_out = resolved_all(selection.excluded_selectors(), views).chosen;
        assert(none + left_out =~= left_out);
    }
    match selection {
        JspiSelection::All(_) => {},
        JspiSelection::Named(names) => {
            if let Err(e) = select_named(names.as_slice(), targets, &mut included) {
                return Err(e);
            }
        },
        JspiSelection::Options(options) => {
            if let Err(e) = select_named(options.included.as_slice(), targets, &mut included) {
                return Err(e);
            }
            if let Err(e) = select_named(options.excluded.as_slice(), targets, &mut excluded) {
                return Err(e);
            }
        },
    }
    Ok(selected_symbols(selection, targets, &included, &excluded))
}

/// The symbols that `selection` selects among `targets` for a wasm2 build.
pub fn select_wasm2<'a>(selection: &JspiSelection, targets: &'a [Target<'a>]) -> (r: Result<
    NameSet,
    Wasm2SelectError,
>)
    ensures
        match r {
            Ok(set) => selected(*selection, target_views(targets@)) == Ok::<
                Set<Seq<char>>,
                SelectErrorView,
            >(set@),
            Err(e) => selected(*selection, target_views(targets@)) == Err::<
                Set<Seq<char>>,
                SelectErrorView,
            >(e.cause@),
        },
{
    match select(selection, targets, true) {
        Ok(set) => Ok(set),
        Err(cause) => Err(Wasm2SelectError { cause }),
    }
}

} // verus!
