//! What a selection means, in terms of the targets that it ranges over.

use vstd::prelude::*;

use crate::case::upper_camel_case;
use crate::jspi::exports::{async_exports_of, lemma_all_exports_add, symbols, yields};
use crate::jspi::laws::{
    is_written_as, law_parsing_takes_selectors_apart, lemma_all_exports, lemma_polled,
    lemma_sole_is_sole, lemma_without_callbacks,
};
use crate::jspi::select::{selected, taken};
use crate::jspi::selection::{JspiSelection, SelectError, SelectErrorView};
use crate::jspi::selector::{
    callable_choice, callable_hits, is_sole, member_choice, name_hits, names_target, owner_choice,
    parsed, resolved, resolved_all, same_name, sole, top_level, Picks, Selector, SelectorView,
};
use crate::jspi::target::{
    all_callables, all_exports, callable_views, export_view, export_views, picked_views, polled,
    target_views, without_callbacks, CallableView, Export, ExportView, Target, TargetView,
};
use crate::text::texts;

verus! {

/// Names are the same if `heck` makes the same of them in `UpperCamelCase`.
pub proof fn law_names_are_compared_in_upper_camel_case(a: Seq<char>, b: Seq<char>)
    ensures
        same_name(a, b) <==> upper_camel_case(a) == upper_camel_case(b),
{
}

/// Whether the target at `i` has the name `owner`, whatever the case convention.
pub open spec fn has_name(targets: Seq<TargetView>, owner: Seq<char>, i: int) -> bool {
    0 <= i < targets.len() && upper_camel_case(targets[i].name) == upper_camel_case(owner)
}

/// Whether the target at `i` is the one that `owner` means: the only one of the name, or the only
/// one of the name that exports anything.
pub open spec fn is_owner(targets: Seq<TargetView>, owner: Seq<char>, i: int) -> bool {
    &&& has_name(targets, owner, i)
    &&& {
        ||| forall|j: int| #[trigger] has_name(targets, owner, j) ==> j == i
        ||| targets[i].exports.len() > 0 && forall|j: int| #[trigger]
            has_name(targets, owner, j) && targets[j].exports.len() > 0 ==> j == i
    }
}

/// Whether the member at `j` has the name `member`, whatever the case convention.
pub open spec fn has_member(target: TargetView, member: Seq<char>, j: int) -> bool {
    0 <= j < target.members.len() && upper_camel_case(target.members[j].name) == upper_camel_case(
        member,
    )
}

proof fn lemma_is_owner(
    selector: Seq<char>,
    owner: Seq<char>,
    targets: Seq<TargetView>,
    i: int,
)
    requires
        is_owner(targets, owner, i),
    ensures
        owner_choice(selector, owner, targets, name_hits(top_level(targets), owner)) == Ok::<
            int,
            SelectErrorView,
        >(i),
{
    let hits = name_hits(top_level(targets), owner);
    let callable = callable_hits(targets, hits);
    assert(hits[i]);
    assert(hits.contains(true));
    lemma_sole_is_sole(hits);
    lemma_sole_is_sole(callable);
    assert forall|j: int| 0 <= j < targets.len() implies (#[trigger] hits[j] <==> has_name(
        targets,
        owner,
        j,
    )) by {
        assert(top_level(targets)[j].name == targets[j].name);
    }
    if targets[i].exports.len() > 0 && forall|j: int| #[trigger]
        has_name(targets, owner, j) && targets[j].exports.len() > 0 ==> j == i {
        assert forall|j: int| 0 <= j < callable.len() && callable[j] implies j == i by {
            assert(hits[j]);
            assert(has_name(targets, owner, j));
        }
        assert(is_sole(callable, i));
    } else {
        assert forall|j: int| 0 <= j < hits.len() && hits[j] implies j == i by {
            assert(has_name(targets, owner, j));
        }
        assert(is_sole(hits, i));
        if let Some(k) = sole(callable) {
            assert(callable[k] && hits[k]);
            assert(has_name(targets, owner, k));
        }
    }
}

proof fn lemma_no_owner(
    selector: Seq<char>,
    owner: Seq<char>,
    targets: Seq<TargetView>,
)
    ensures
        (forall|i: int| !(#[trigger] has_name(targets, owner, i))) ==> owner_choice(
            selector,
            owner,
            targets,
            name_hits(top_level(targets), owner),
        ) == Err::<int, SelectErrorView>(SelectErrorView::UnknownOwner { selector, owner }),
        (exists|i: int| #[trigger] has_name(targets, owner, i)) && (forall|i: int|
            !(#[trigger] is_owner(targets, owner, i))) ==> owner_choice(
            selector,
            owner,
            targets,
            name_hits(top_level(targets), owner),
        ) == Err::<int, SelectErrorView>(SelectErrorView::AmbiguousOwner { selector, owner }),
{
    let hits = name_hits(top_level(targets), owner);
    let callable = callable_hits(targets, hits);
    lemma_sole_is_sole(hits);
    lemma_sole_is_sole(callable);
    assert forall|j: int| 0 <= j < targets.len() implies (#[trigger] hits[j] <==> has_name(
        targets,
        owner,
        j,
    )) by {
        assert(top_level(targets)[j].name == targets[j].name);
    }
    if forall|i: int| !(#[trigger] has_name(targets, owner, i)) {
        assert(!hits.contains(true)) by {
            if hits.contains(true) {
                let k = choose|k: int| 0 <= k < hits.len() && hits[k] == true;
                assert(hits[k]);
            }
        }
    }
    if (exists|i: int| #[trigger] has_name(targets, owner, i)) && (forall|i: int|
        !(#[trigger] is_owner(targets, owner, i))) {
        let i = choose|i: int| #[trigger] has_name(targets, owner, i);
        assert(hits[i]);
        assert(hits.contains(true));
        if let Some(k) = sole(callable) {
            assert(callable[k] && hits[k]);
            assert forall|j: int| #[trigger]
                has_name(targets, owner, j) && targets[j].exports.len() > 0 implies j == k by {
                assert(hits[j] && callable[j]);
            }
            assert(is_owner(targets, owner, k));
        }
        if let Some(k) = sole(hits) {
            assert forall|j: int| #[trigger] has_name(targets, owner, j) implies j == k by {
                assert(hits[j]);
            }
            assert(is_owner(targets, owner, k));
        }
    }
}

proof fn lemma_member(
    selector: Seq<char>,
    owner: Seq<char>,
    member: Seq<char>,
    target: TargetView,
)
    ensures
        (forall|j: int| !(#[trigger] has_member(target, member, j))) ==> member_choice(
            selector,
            owner,
            member,
            name_hits(target.members, member),
        ) == Err::<int, SelectErrorView>(
            SelectErrorView::UnknownMember { selector, owner, member },
        ),
        forall|j: int|
            (#[trigger] has_member(target, member, j) && forall|k: int| #[trigger]
                has_member(target, member, k) ==> k == j) ==> member_choice(
                selector,
                owner,
                member,
                name_hits(target.members, member),
            ) == Ok::<int, SelectErrorView>(j),
        forall|j: int, k: int|
            j != k && #[trigger] has_member(target, member, j) && #[trigger] has_member(
                target,
                member,
                k,
            ) ==> member_choice(selector, owner, member, name_hits(target.members, member))
                == Err::<int, SelectErrorView>(SelectErrorView::AmbiguousMember { selector }),
{
    let hits = name_hits(target.members, member);
    lemma_sole_is_sole(hits);
    assert forall|j: int| 0 <= j < hits.len() implies (#[trigger] hits[j] <==> has_member(
        target,
        member,
        j,
    )) by {}
    if forall|j: int| !(#[trigger] has_member(target, member, j)) {
        if hits.contains(true) {
            let k = choose|k: int| 0 <= k < hits.len() && hits[k] == true;
            assert(hits[k]);
        }
    }
    assert forall|j: int|
        (#[trigger] has_member(target, member, j) && forall|k: int| #[trigger]
            has_member(target, member, k) ==> k == j) implies member_choice(
        selector,
        owner,
        member,
        hits,
    ) == Ok::<int, SelectErrorView>(j) by {
        assert(hits[j]);
        assert(hits.contains(true));
        assert forall|k: int| 0 <= k < hits.len() && hits[k] implies k == j by {
            assert(has_member(target, member, k));
        }
        assert(is_sole(hits, j));
    }
    assert forall|j: int, k: int|
        j != k && #[trigger] has_member(target, member, j) && #[trigger] has_member(
            target,
            member,
            k,
        ) implies member_choice(selector, owner, member, hits) == Err::<int, SelectErrorView>(
        SelectErrorView::AmbiguousMember { selector },
    ) by {
        assert(hits[j] && hits[k]);
        assert(hits.contains(true));
    }
}

/// A text that is neither an owner nor an owner and a member is an invalid selector.
pub proof fn law_other_texts_are_invalid_selectors(selector: Seq<char>, targets: Seq<TargetView>)
    requires
        forall|parts: SelectorView| !(#[trigger] is_written_as(selector, parts)),
    ensures
        resolved(selector, targets) == Err::<CallableView, SelectErrorView>(
            SelectErrorView::Invalid { selector },
        ),
{
    if let Some(parts) = parsed(selector) {
        law_parsing_takes_selectors_apart(selector, parts);
    }
}

/// A selector finds its owner among all targets: it is unknown where none has the name, and
/// ambiguous where several have it and not just one of them exports anything.
pub proof fn law_owners_are_found_by_name(
    selector: Seq<char>,
    parts: SelectorView,
    targets: Seq<TargetView>,
)
    requires
        is_written_as(selector, parts),
    ensures
        (forall|i: int| !(#[trigger] has_name(targets, parts.owner, i))) ==> resolved(
            selector,
            targets,
        ) == Err::<CallableView, SelectErrorView>(
            SelectErrorView::UnknownOwner { selector, owner: parts.owner },
        ),
        (exists|i: int| #[trigger] has_name(targets, parts.owner, i)) && (forall|i: int|
            !(#[trigger] is_owner(targets, parts.owner, i))) ==> resolved(selector, targets)
            == Err::<CallableView, SelectErrorView>(
            SelectErrorView::AmbiguousOwner { selector, owner: parts.owner },
        ),
{
    law_parsing_takes_selectors_apart(selector, parts);
    lemma_no_owner(selector, parts.owner, targets);
}

/// A selector without a member selects its owner as a whole, unless that may call back.
pub proof fn law_owners_are_selected_whole(
    selector: Seq<char>,
    parts: SelectorView,
    targets: Seq<TargetView>,
    i: int,
)
    requires
        is_written_as(selector, parts),
        parts.member is None,
        is_owner(targets, parts.owner, i),
    ensures
        targets[i].has_callbacks ==> resolved(selector, targets) == Err::<
            CallableView,
            SelectErrorView,
        >(SelectErrorView::CallbackCapable { selector }),
        !targets[i].has_callbacks ==> resolved(selector, targets) == Ok::<
            CallableView,
            SelectErrorView,
        >(
            CallableView {
                name: targets[i].name,
                has_callbacks: false,
                exports: targets[i].exports,
            },
        ),
{
    law_parsing_takes_selectors_apart(selector, parts);
    lemma_is_owner(selector, parts.owner, targets, i);
}

/// A selector with a member selects the one of that name of its owner, unless that may call back,
/// and whatever the owner may do. It is unknown where there is none, and ambiguous where there are
/// several.
pub proof fn law_members_are_found_by_name(
    selector: Seq<char>,
    parts: SelectorView,
    targets: Seq<TargetView>,
    i: int,
    j: int,
)
    requires
        is_written_as(selector, parts),
        parts.member is Some,
        is_owner(targets, parts.owner, i),
    ensures
        (forall|k: int| !(#[trigger] has_member(targets[i], parts.member->0, k))) ==> resolved(
            selector,
            targets,
        ) == Err::<CallableView, SelectErrorView>(
            SelectErrorView::UnknownMember {
                selector,
                owner: parts.owner,
                member: parts.member->0,
            },
        ),
        has_member(targets[i], parts.member->0, j) && (exists|k: int|
            k != j && #[trigger] has_member(targets[i], parts.member->0, k)) ==> resolved(
            selector,
            targets,
        ) == Err::<CallableView, SelectErrorView>(SelectErrorView::AmbiguousMember { selector }),
        has_member(targets[i], parts.member->0, j) && (forall|k: int| #[trigger]
            has_member(targets[i], parts.member->0, k) ==> k == j) ==> resolved(selector, targets)
            == if targets[i].members[j].has_callbacks {
            Err::<CallableView, SelectErrorView>(SelectErrorView::CallbackCapable { selector })
        } else {
            Ok(targets[i].members[j])
        },
{
    law_parsing_takes_selectors_apart(selector, parts);
    lemma_is_owner(selector, parts.owner, targets, i);
    lemma_member(selector, parts.owner, parts.member->0, targets[i]);
}

/// Selectors are taken from first to last. The first that fails is the error, and what comes after
/// it is not looked at.
pub proof fn law_selectors_are_taken_from_first_to_last(
    first: Seq<char>,
    rest: Seq<Seq<char>>,
    targets: Seq<TargetView>,
)
    ensures
        resolved_all(Seq::empty(), targets) == (Picks { chosen: Seq::empty(), error: None }),
        resolved_all(seq![first] + rest, targets) == match resolved(first, targets) {
            Err(e) => Picks { chosen: Seq::empty(), error: Some(e) },
            Ok(c) => Picks {
                chosen: seq![c] + resolved_all(rest, targets).chosen,
                error: resolved_all(rest, targets).error,
            },
        },
    decreases rest.len(),
{
    let all = seq![first] + rest;
    if rest.len() == 0 {
        assert(all.drop_last() =~= Seq::<Seq<char>>::empty());
        reveal_with_fuel(resolved_all, 2);
        if let Ok(c) = resolved(first, targets) {
            assert(resolved_all(all, targets).chosen =~= seq![c] + resolved_all(
                rest,
                targets,
            ).chosen);
        }
    } else {
        law_selectors_are_taken_from_first_to_last(first, rest.drop_last(), targets);
        assert(all.drop_last() =~= seq![first] + rest.drop_last());
        assert(all.last() == rest.last());
        if let Ok(c) = resolved(first, targets) {
            assert(resolved_all(all, targets).chosen =~= seq![c] + resolved_all(
                rest,
                targets,
            ).chosen);
        }
    }
}

/// Whether a callable that `selection` starts from exports `e`: a target that can suspend, where it
/// selects everything or only excludes, and a callable that is `async` in Rust, where it asks for
/// these. A target with members offers these in its place.
pub open spec fn starts_with_export(
    selection: JspiSelection,
    targets: Seq<TargetView>,
    e: ExportView,
) -> bool {
    let everything = exists|i: int|
        0 <= i < targets.len() && !(#[trigger] targets[i]).has_callbacks
            && targets[i].exports.contains(e);
    let rust_async = e.poll is Some && exists|i: int|
        0 <= i < targets.len() && {
            ||| (#[trigger] targets[i]).members.len() == 0 && !targets[i].has_callbacks
                && targets[i].exports.contains(e)
            ||| exists|j: int|
                0 <= j < targets[i].members.len() && !(
                #[trigger] targets[i].members[j]).has_callbacks
                    && targets[i].members[j].exports.contains(e)
        };
    match selection {
        JspiSelection::All(all) => all && everything,
        JspiSelection::Named(_) => false,
        JspiSelection::Options(options) => if options.rust_async {
            rust_async
        } else {
            options.included@.len() == 0 && options.excluded@.len() > 0 && everything
        },
    }
}

/// Whether one of `callables` exports `e`.
pub open spec fn is_exported_by(callables: Seq<CallableView>, e: ExportView) -> bool {
    exists|c: CallableView| #[trigger] callables.contains(c) && c.exports.contains(e)
}

proof fn lemma_exported_by(callables: Seq<CallableView>, e: ExportView)
    ensures
        all_exports(callables).contains(e) <==> is_exported_by(callables, e),
{
    lemma_all_exports(callables, e);
    if is_exported_by(callables, e) {
        let c = choose|c: CallableView| #[trigger] callables.contains(c) && c.exports.contains(e);
        let i = choose|i: int| 0 <= i < callables.len() && callables[i] == c;
        assert(callables[i].exports.contains(e));
    }
    if all_exports(callables).contains(e) {
        let i = choose|i: int|
            0 <= i < callables.len() && (#[trigger] callables[i]).exports.contains(e);
        assert(callables.contains(callables[i]));
    }
}

proof fn lemma_callables_of(targets: Seq<TargetView>, c: CallableView)
    ensures
        all_callables(targets).contains(c) <==> exists|i: int|
            0 <= i < targets.len() && (#[trigger] targets[i]).callables().contains(c),
    decreases targets.len(),
{
    if targets.len() > 0 {
        let fewer = targets.drop_last();
        let before = all_callables(fewer);
        let last = targets.last().callables();
        let all = all_callables(targets);
        lemma_callables_of(fewer, c);
        if before.contains(c) {
            let k = choose|k: int| 0 <= k < before.len() && before[k] == c;
            assert(all[k] == c);
            let i = choose|i: int|
                0 <= i < fewer.len() && (#[trigger] fewer[i]).callables().contains(c);
            assert(targets[i].callables().contains(c));
        }
        if last.contains(c) {
            let k = choose|k: int| 0 <= k < last.len() && last[k] == c;
            assert(all[before.len() + k] == c);
            assert(targets[targets.len() - 1].callables().contains(c));
        }
        if all.contains(c) {
            let k = choose|k: int| 0 <= k < all.len() && all[k] == c;
            if k < before.len() {
                assert(before[k] == c);
            } else {
                assert(last[k - before.len()] == c);
            }
        }
        if exists|i: int|
            0 <= i < targets.len() && (#[trigger] targets[i]).callables().contains(c) {
            let i = choose|i: int|
                0 <= i < targets.len() && (#[trigger] targets[i]).callables().contains(c);
            if i < fewer.len() {
                assert(fewer[i].callables().contains(c));
            }
        }
    }
}

proof fn lemma_automatic(targets: Seq<TargetView>, e: ExportView)
    ensures
        async_exports_of(all_callables(targets)).contains(e) <==> e.poll is Some && exists|i: int|
            0 <= i < targets.len() && {
                ||| (#[trigger] targets[i]).members.len() == 0 && !targets[i].has_callbacks
                    && targets[i].exports.contains(e)
                ||| exists|j: int|
                    0 <= j < targets[i].members.len() && !(
                    #[trigger] targets[i].members[j]).has_callbacks
                        && targets[i].members[j].exports.contains(e)
            },
{
    let callables = all_callables(targets);
    let open = without_callbacks(callables);
    lemma_polled(all_exports(open), e);
    lemma_exported_by(open, e);
    assert forall|c: CallableView| #[trigger] open.contains(c) <==> !c.has_callbacks && exists|
        i: int,
    |
        0 <= i < targets.len() && (#[trigger] targets[i]).callables().contains(c) by {
        lemma_without_callbacks(callables, c);
        lemma_callables_of(targets, c);
    }
    if is_exported_by(open, e) {
        let c = choose|c: CallableView| #[trigger] open.contains(c) && c.exports.contains(e);
        let i = choose|i: int|
            0 <= i < targets.len() && (#[trigger] targets[i]).callables().contains(c);
        let list = targets[i].callables();
        let j = choose|j: int| 0 <= j < list.len() && list[j] == c;
        if targets[i].members.len() > 0 {
            assert(targets[i].members[j] == c);
        }
    }
    if exists|i: int|
        0 <= i < targets.len() && {
            ||| (#[trigger] targets[i]).members.len() == 0 && !targets[i].has_callbacks
                && targets[i].exports.contains(e)
            ||| exists|j: int|
                0 <= j < targets[i].members.len() && !(
                #[trigger] targets[i].members[j]).has_callbacks
                    && targets[i].members[j].exports.contains(e)
        } {
        let i = choose|i: int|
            0 <= i < targets.len() && {
                ||| (#[trigger] targets[i]).members.len() == 0 && !targets[i].has_callbacks
                    && targets[i].exports.contains(e)
                ||| exists|j: int|
                    0 <= j < targets[i].members.len() && !(
                    #[trigger] targets[i].members[j]).has_callbacks
                        && targets[i].members[j].exports.contains(e)
            };
        if targets[i].members.len() == 0 {
            let c = targets[i].callable();
            assert(targets[i].callables()[0] == c);
            assert(targets[i].callables().contains(c));
            assert(open.contains(c));
        } else {
            let j = choose|j: int|
                0 <= j < targets[i].members.len() && !(
                #[trigger] targets[i].members[j]).has_callbacks
                    && targets[i].members[j].exports.contains(e);
            let c = targets[i].members[j];
            assert(targets[i].callables()[j] == c);
            assert(targets[i].callables().contains(c));
            assert(open.contains(c));
        }
    }
}

proof fn lemma_everything(targets: Seq<TargetView>, e: ExportView)
    ensures
        all_exports(without_callbacks(top_level(targets))).contains(e) <==> exists|i: int|
            0 <= i < targets.len() && !(#[trigger] targets[i]).has_callbacks
                && targets[i].exports.contains(e),
{
    let tops = top_level(targets);
    let open = without_callbacks(tops);
    lemma_exported_by(open, e);
    assert forall|c: CallableView| #[trigger] open.contains(c) <==> tops.contains(c)
        && !c.has_callbacks by {
        lemma_without_callbacks(tops, c);
    }
    if is_exported_by(open, e) {
        let c = choose|c: CallableView| #[trigger] open.contains(c) && c.exports.contains(e);
        let i = choose|i: int| 0 <= i < tops.len() && tops[i] == c;
        assert(targets[i].callable() == c);
    }
    if exists|i: int|
        0 <= i < targets.len() && !(#[trigger] targets[i]).has_callbacks
            && targets[i].exports.contains(e) {
        let i = choose|i: int|
            0 <= i < targets.len() && !(#[trigger] targets[i]).has_callbacks
                && targets[i].exports.contains(e);
        assert(tops[i] == targets[i].callable());
        assert(tops.contains(tops[i]));
        assert(open.contains(tops[i]));
    }
}

/// The selectors that a selection names, from the setting itself.
pub open spec fn names_of(selection: JspiSelection) -> Seq<Seq<char>> {
    match selection {
        JspiSelection::All(_) => Seq::empty(),
        JspiSelection::Named(names) => texts(names@),
        JspiSelection::Options(options) => texts(options.included@),
    }
}

/// The selectors that a selection excludes, from the setting itself.
pub open spec fn exclusions_of(selection: JspiSelection) -> Seq<Seq<char>> {
    match selection {
        JspiSelection::All(_) | JspiSelection::Named(_) => Seq::empty(),
        JspiSelection::Options(options) => texts(options.excluded@),
    }
}

/// A selection fails with the first error among the selectors that it names, else with the first
/// among those that it excludes.
pub proof fn law_names_fail_before_exclusions(selection: JspiSelection, targets: Seq<TargetView>)
    ensures
        resolved_all(names_of(selection), targets).error matches Some(e) ==> selected(
            selection,
            targets,
        ) == Err::<Set<Seq<char>>, SelectErrorView>(e),
        resolved_all(names_of(selection), targets).error is None ==> (resolved_all(
            exclusions_of(selection),
            targets,
        ).error matches Some(e) ==> selected(selection, targets) == Err::<
            Set<Seq<char>>,
            SelectErrorView,
        >(e)),
        resolved_all(names_of(selection), targets).error is None && resolved_all(
            exclusions_of(selection),
            targets,
        ).error is None ==> selected(selection, targets) is Ok,
{
    assert(selection.included_selectors() =~= names_of(selection));
    assert(selection.excluded_selectors() =~= exclusions_of(selection));
}

/// A selection selects the symbol of an export, and with it the adapter of its poll symbol, exactly
/// if the selection starts from the export or names it, and does not exclude it.
pub proof fn law_exports_are_selected_with_their_poll_adapters(
    selection: JspiSelection,
    targets: Seq<TargetView>,
    s: Seq<char>,
)
    requires
        selected(selection, targets) is Ok,
    ensures
        selected(selection, targets)->Ok_0.contains(s) <==> exists|e: ExportView|
            {
                &&& #[trigger] starts_with_export(selection, targets, e) || is_exported_by(
                    resolved_all(names_of(selection), targets).chosen,
                    e,
                )
                &&& !is_exported_by(resolved_all(exclusions_of(selection), targets).chosen, e)
                &&& s == e.symbol || (e.poll matches Some(poll) && s == poll + "_jspi"@)
            },
{
    let included = resolved_all(names_of(selection), targets).chosen;
    let excluded = resolved_all(exclusions_of(selection), targets).chosen;
    assert(selection.included_selectors() =~= names_of(selection));
    assert(selection.excluded_selectors() =~= exclusions_of(selection));
    let set = selected(selection, targets)->Ok_0;
    let exports = taken(selection, targets, included);
    let without = all_exports(excluded);
    assert(set == symbols(exports, without));
    assert forall|e: ExportView| #[trigger] exports.contains(e) <==> (starts_with_export(
        selection,
        targets,
        e,
    ) || is_exported_by(included, e)) by {
        lemma_taken_means(selection, targets, included, e);
    }
    assert forall|e: ExportView| #[trigger] without.contains(e) <==> is_exported_by(
        excluded,
        e,
    ) by {
        lemma_exported_by(excluded, e);
    }
    if set.contains(s) {
        let e = choose|e: ExportView|
            exports.contains(e) && !without.contains(e) && #[trigger] yields(e, s);
        assert(starts_with_export(selection, targets, e) || is_exported_by(included, e));
    }
    if exists|e: ExportView|
        {
            &&& #[trigger] starts_with_export(selection, targets, e) || is_exported_by(included, e)
            &&& !is_exported_by(excluded, e)
            &&& s == e.symbol || (e.poll matches Some(poll) && s == poll + "_jspi"@)
        } {
        let e = choose|e: ExportView|
            {
                &&& #[trigger] starts_with_export(selection, targets, e) || is_exported_by(
                    included,
                    e,
                )
                &&& !is_exported_by(excluded, e)
                &&& s == e.symbol || (e.poll matches Some(poll) && s == poll + "_jspi"@)
            };
        assert(exports.contains(e) && !without.contains(e) && yields(e, s));
    }
}

proof fn lemma_taken_means(
    selection: JspiSelection,
    targets: Seq<TargetView>,
    included: Seq<CallableView>,
    e: ExportView,
)
    requires
        selection is All ==> included.len() == 0,
    ensures
        taken(selection, targets, included).contains(e) <==> starts_with_export(
            selection,
            targets,
            e,
        ) || is_exported_by(included, e),
{
    let base = if selection.starts_from_all() {
        without_callbacks(top_level(targets))
    } else {
        Seq::empty()
    };
    let automatic = if selection.adds_rust_async() {
        async_exports_of(all_callables(targets))
    } else {
        Seq::empty()
    };
    let first = all_exports(base + included);
    let whole = taken(selection, targets, included);
    lemma_everything(targets, e);
    lemma_automatic(targets, e);
    lemma_all_exports_add(base, included);
    lemma_exported_by(included, e);
    assert(first == all_exports(base) + all_exports(included));
    assert(whole == first + automatic);
    let a = all_exports(base);
    let b = all_exports(included);
    assert(whole.contains(e) <==> a.contains(e) || b.contains(e) || automatic.contains(e)) by {
        if a.contains(e) {
            let k = choose|k: int| 0 <= k < a.len() && a[k] == e;
            assert(whole[k] == e);
        }
        if b.contains(e) {
            let k = choose|k: int| 0 <= k < b.len() && b[k] == e;
            assert(whole[a.len() + k] == e);
        }
        if automatic.contains(e) {
            let k = choose|k: int| 0 <= k < automatic.len() && automatic[k] == e;
            assert(whole[a.len() + b.len() + k] == e);
        }
        if whole.contains(e) {
            let k = choose|k: int| 0 <= k < whole.len() && whole[k] == e;
            if k < a.len() {
                assert(a[k] == e);
            } else if k < a.len() + b.len() {
                assert(b[k - a.len()] == e);
            } else {
                assert(automatic[k - a.len() - b.len()] == e);
            }
        }
    }
}

/// What is seen of a target is its name, whether it may call back, and the symbols that it and its
/// members export, each with its poll symbol.
pub proof fn law_targets_are_seen_as_they_are(target: Target<'_>, export: Export<'_>)
    ensures
        export_view(export).symbol == export.0@,
        export.1 is None ==> export_view(export).poll is None,
        export.1 matches Some(poll) ==> export_view(export).poll == Some(poll@),
        target@.name == target.name@,
        target@.has_callbacks == target.has_callbacks,
        target@.exports.len() == target.exports@.len(),
        forall|i: int|
            0 <= i < target.exports@.len() ==> #[trigger] target@.exports[i] == export_view(
                target.exports@[i],
            ),
        target@.members.len() == target.members@.len(),
        forall|i: int|
            0 <= i < target.members@.len() ==> {
                let member = #[trigger] target@.members[i];
                &&& member.name == target.members@[i].name@
                &&& member.has_callbacks == target.members@[i].has_callbacks
                &&& member.exports == target.members@[i]@.exports
            },
        target.callable_view() == (CallableView {
            name: target@.name,
            has_callbacks: target@.has_callbacks,
            exports: target@.exports,
        }),
{
}

/// What is seen of a selector is its owner and its member.
pub proof fn law_selectors_are_seen_as_they_are(selector: Selector<'_>)
    ensures
        selector@.owner == selector.owner@,
        selector.member is None ==> selector@.member is None,
        selector.member matches Some(member) ==> selector@.member == Some(member@),
{
}

/// What is seen of an error is what it carries.
pub proof fn law_errors_are_seen_as_they_are(error: SelectError)
    ensures
        error matches SelectError::Invalid { selector } ==> error@ == (SelectErrorView::Invalid {
            selector: selector@,
        }),
        error matches SelectError::UnknownOwner { selector, owner } ==> error@ == (
        SelectErrorView::UnknownOwner { selector: selector@, owner: owner@ }),
        error matches SelectError::AmbiguousOwner { selector, owner } ==> error@ == (
        SelectErrorView::AmbiguousOwner { selector: selector@, owner: owner@ }),
        error matches SelectError::UnknownMember { selector, owner, member } ==> error@ == (
        SelectErrorView::UnknownMember {
            selector: selector@,
            owner: owner@,
            member: member@,
        }),
        error matches SelectError::AmbiguousMember { selector } ==> error@ == (
        SelectErrorView::AmbiguousMember { selector: selector@ }),
        error matches SelectError::CallbackCapable { selector } ==> error@ == (
        SelectErrorView::CallbackCapable { selector: selector@ }),
{
}

/// Every message quotes the selector, and names the owner and the member that it is about.
pub proof fn law_messages_quote_their_selectors(
    selector: Seq<char>,
    owner: Seq<char>,
    member: Seq<char>,
)
    ensures
        (SelectErrorView::Invalid { selector }).message() == "invalid jspi selector `"@ + selector
            + "`: expected a function, type, or Type.member (Type.constructor for the primary constructor)"@,
        (SelectErrorView::UnknownOwner { selector, owner }).message()
            == "unknown jspi selection `"@ + selector
            + "`: no top-level function or object/record/enum type matches `"@ + owner + "`"@,
        (SelectErrorView::AmbiguousOwner { selector, owner }).message()
            == "ambiguous jspi selection `"@ + selector
            + "`: multiple top-level functions or types match `"@ + owner + "`"@,
        (SelectErrorView::UnknownMember { selector, owner, member }).message()
            == "unknown jspi selection `"@ + selector + "`: no method or constructor matches `"@
            + member + "` on `"@ + owner
            + "` (use Type.constructor for the primary constructor)"@,
        (SelectErrorView::AmbiguousMember { selector }).message() == "ambiguous jspi selection `"@
            + selector + "`: multiple methods or constructors match after name normalization"@,
        (SelectErrorView::CallbackCapable { selector }).message() == "jspi selection `"@ + selector
            + "` is callback-capable or has an unsupported ABI; suspending inbound callback interfaces is not supported"@,
{
}

/// A list of targets is seen target by target, and so is one of references and one of exports.
pub proof fn law_lists_are_seen_one_by_one(
    targets: Seq<Target<'_>>,
    picked: Seq<&Target<'_>>,
    exports: Seq<Export<'_>>,
)
    ensures
        target_views(targets).len() == targets.len(),
        forall|i: int| 0 <= i < targets.len() ==> #[trigger] target_views(targets)[i] == targets[i]@,
        callable_views(targets).len() == targets.len(),
        forall|i: int|
            0 <= i < targets.len() ==> #[trigger] callable_views(targets)[i]
                == targets[i].callable_view(),
        picked_views(picked).len() == picked.len(),
        forall|i: int|
            0 <= i < picked.len() ==> #[trigger] picked_views(picked)[i]
                == picked[i].callable_view(),
        export_views(exports).len() == exports.len(),
        forall|i: int|
            0 <= i < exports.len() ==> #[trigger] export_views(exports)[i] == export_view(
                exports[i],
            ),
{
}

/// A position is the only one exactly if its flag is set and no other is.
pub proof fn law_the_only_one_has_no_other(flags: Seq<bool>, i: int)
    ensures
        sole(flags) == Some(i) <==> 0 <= i < flags.len() && flags[i] && forall|j: int|
            0 <= j < flags.len() && j != i ==> !(#[trigger] flags[j]),
{
    lemma_sole_is_sole(flags);
    if 0 <= i < flags.len() && flags[i] && forall|j: int|
        0 <= j < flags.len() && j != i ==> !(#[trigger] flags[j]) {
        assert(is_sole(flags, i));
    }
    if sole(flags) == Some(i) {
        assert(is_sole(flags, i));
    }
}

/// An owner is chosen among those that the flags mark: the only one, or the only one that exports
/// anything. It is unknown where none is marked, and otherwise ambiguous.
pub proof fn law_an_owner_is_chosen_among_the_marked(
    selector: Seq<char>,
    owner: Seq<char>,
    targets: Seq<TargetView>,
    marked: Seq<bool>,
    i: int,
)
    requires
        marked.len() == targets.len(),
    ensures
        (forall|j: int| 0 <= j < marked.len() ==> !(#[trigger] marked[j])) ==> owner_choice(
            selector,
            owner,
            targets,
            marked,
        ) == Err::<int, SelectErrorView>(SelectErrorView::UnknownOwner { selector, owner }),
        owner_choice(selector, owner, targets, marked) == Ok::<int, SelectErrorView>(i) <==> 0 <= i
            < marked.len() && marked[i] && {
            ||| forall|j: int| 0 <= j < marked.len() && j != i ==> !(#[trigger] marked[j])
            ||| targets[i].exports.len() > 0 && forall|j: int|
                0 <= j < marked.len() && j != i && (#[trigger] marked[j])
                    ==> targets[j].exports.len() == 0
        },
        owner_choice(selector, owner, targets, marked) is Err && (exists|j: int|
            0 <= j < marked.len() && #[trigger] marked[j]) ==> owner_choice(
            selector,
            owner,
            targets,
            marked,
        ) == Err::<int, SelectErrorView>(SelectErrorView::AmbiguousOwner { selector, owner }),
{
    let callable = callable_hits(targets, marked);
    law_the_only_one_has_no_other(marked, i);
    law_the_only_one_has_no_other(callable, i);
    lemma_sole_is_sole(callable);
    lemma_sole_is_sole(marked);
    if marked.contains(true) {
        let k = choose|k: int| 0 <= k < marked.len() && marked[k] == true;
        assert(marked[k]);
    }
    if exists|j: int| 0 <= j < marked.len() && #[trigger] marked[j] {
        let j = choose|j: int| 0 <= j < marked.len() && #[trigger] marked[j];
        assert(marked[j] == true);
        assert(marked.contains(true));
    }
    assert forall|j: int| 0 <= j < targets.len() implies (#[trigger] callable[j] <==> marked[j]
        && targets[j].exports.len() > 0) by {}
    if 0 <= i < marked.len() && marked[i] {
        assert(marked.contains(true)) by {
            assert(marked[i] == true);
        }
        if targets[i].exports.len() > 0 && forall|j: int|
            0 <= j < marked.len() && j != i && (#[trigger] marked[j]) ==> targets[j].exports.len()
                == 0 {
            assert forall|j: int| 0 <= j < callable.len() && j != i implies !(
            #[trigger] callable[j]) by {
                assert(callable[j] ==> marked[j]);
            }
        } else if forall|j: int| 0 <= j < marked.len() && j != i ==> !(#[trigger] marked[j]) {
            if let Some(k) = sole(callable) {
                assert(callable[k]);
                assert(marked[k]);
            }
        }
    }
    if owner_choice(selector, owner, targets, marked) == Ok::<int, SelectErrorView>(i) {
        if sole(callable) == Some(i) {
            assert forall|j: int|
                0 <= j < marked.len() && j != i && (#[trigger] marked[j]) implies
                targets[j].exports.len() == 0 by {
                assert(!callable[j]);
            }
        }
    }
}

/// A member is chosen among those that the flags mark if it is the only one. It is unknown where
/// none is marked, and otherwise ambiguous.
pub proof fn law_a_member_is_chosen_among_the_marked(
    selector: Seq<char>,
    owner: Seq<char>,
    member: Seq<char>,
    marked: Seq<bool>,
    i: int,
)
    ensures
        (forall|j: int| 0 <= j < marked.len() ==> !(#[trigger] marked[j])) ==> member_choice(
            selector,
            owner,
            member,
            marked,
        ) == Err::<int, SelectErrorView>(
            SelectErrorView::UnknownMember { selector, owner, member },
        ),
        member_choice(selector, owner, member, marked) == Ok::<int, SelectErrorView>(i) <==> 0 <= i
            < marked.len() && marked[i] && forall|j: int|
            0 <= j < marked.len() && j != i ==> !(#[trigger] marked[j]),
        member_choice(selector, owner, member, marked) is Err && (exists|j: int|
            0 <= j < marked.len() && #[trigger] marked[j]) ==> member_choice(
            selector,
            owner,
            member,
            marked,
        ) == Err::<int, SelectErrorView>(SelectErrorView::AmbiguousMember { selector }),
{
    law_the_only_one_has_no_other(marked, i);
    lemma_sole_is_sole(marked);
    if marked.contains(true) {
        let k = choose|k: int| 0 <= k < marked.len() && marked[k] == true;
        assert(marked[k]);
    }
    if exists|j: int| 0 <= j < marked.len() && #[trigger] marked[j] {
        let j = choose|j: int| 0 <= j < marked.len() && #[trigger] marked[j];
        assert(marked[j] == true);
        assert(marked.contains(true));
    }
    if 0 <= i < marked.len() && marked[i] {
        assert(marked[i] == true);
        assert(marked.contains(true));
    }
}

/// What is chosen is the owner itself, or its member where the selector has one, and it must not
/// call back.
pub proof fn law_what_may_call_back_is_not_chosen(
    selector: Seq<char>,
    parts: SelectorView,
    target: TargetView,
    marked: Seq<bool>,
)
    ensures
        parts.member is None ==> callable_choice(selector, parts, target, marked)
            == if target.has_callbacks {
            Err::<CallableView, SelectErrorView>(SelectErrorView::CallbackCapable { selector })
        } else {
            Ok(
                CallableView {
                    name: target.name,
                    has_callbacks: false,
                    exports: target.exports,
                },
            )
        },
        parts.member matches Some(member) ==> match member_choice(
            selector,
            parts.owner,
            member,
            marked,
        ) {
            Err(e) => callable_choice(selector, parts, target, marked) == Err::<
                CallableView,
                SelectErrorView,
            >(e),
            Ok(j) => callable_choice(selector, parts, target, marked)
                == if target.members[j].has_callbacks {
                Err::<CallableView, SelectErrorView>(SelectErrorView::CallbackCapable { selector })
            } else {
                Ok(target.members[j])
            },
        },
{
}

/// The exports of callables come callable by callable.
pub proof fn law_exports_come_callable_by_callable(
    callables: Seq<CallableView>,
    callable: CallableView,
)
    ensures
        all_exports(Seq::empty()).len() == 0,
        all_exports(callables.push(callable)) == all_exports(callables) + callable.exports,
{
    assert(callables.push(callable).drop_last() =~= callables);
}

/// The exports that are `async` in Rust come target by target. A target with members offers theirs in
/// place of its own. What may call back offers none, and what is not polled is left out.
pub proof fn law_rust_async_exports_come_target_by_target(
    targets: Seq<TargetView>,
    target: TargetView,
    callables: Seq<CallableView>,
    callable: CallableView,
)
    ensures
        all_callables(Seq::empty()).len() == 0,
        all_callables(targets.push(target)) == all_callables(targets) + if target.members.len()
            == 0 {
            seq![
                CallableView {
                    name: target.name,
                    has_callbacks: target.has_callbacks,
                    exports: target.exports,
                },
            ]
        } else {
            target.members
        },
        async_exports_of(Seq::empty()).len() == 0,
        callable.has_callbacks ==> async_exports_of(callables.push(callable)) == async_exports_of(
            callables,
        ),
        !callable.has_callbacks ==> async_exports_of(callables.push(callable)) == async_exports_of(
            callables,
        ) + callable.exports.filter(|e: ExportView| e.poll is Some),
{
    reveal(Seq::filter);
    assert(targets.push(target).drop_last() =~= targets);
    let more = callables.push(callable);
    assert(more.drop_last() =~= callables);
    assert(async_exports_of(Seq::empty()) =~= Seq::<ExportView>::empty());
    if !callable.has_callbacks {
        let open = without_callbacks(callables);
        assert(without_callbacks(more) =~= open.push(callable));
        assert(open.push(callable).drop_last() =~= open);
        Seq::filter_distributes_over_add(
            all_exports(open),
            callable.exports,
            |e: ExportView| e.poll is Some,
        );
        assert(polled(all_exports(open) + callable.exports) =~= polled(all_exports(open))
            + callable.exports.filter(|e: ExportView| e.poll is Some));
    }
}

/// A list of exports selects the symbol of each that is not excluded, with the adapter of its poll
/// symbol.
pub proof fn law_exports_select_symbols_and_adapters(
    exports: Seq<ExportView>,
    excluded: Seq<ExportView>,
    s: Seq<char>,
)
    ensures
        symbols(exports, excluded).contains(s) <==> exists|e: ExportView| #[trigger]
            exports.contains(e) && !excluded.contains(e) && (s == e.symbol || (
            e.poll matches Some(poll) && s == poll + "_jspi"@)),
{
    if symbols(exports, excluded).contains(s) {
        let e = choose|e: ExportView|
            exports.contains(e) && !excluded.contains(e) && #[trigger] yields(e, s);
        assert(exports.contains(e));
    }
    if exists|e: ExportView| #[trigger]
        exports.contains(e) && !excluded.contains(e) && (s == e.symbol || (e.poll matches Some(poll)
            && s == poll + "_jspi"@)) {
        let e = choose|e: ExportView| #[trigger]
            exports.contains(e) && !excluded.contains(e) && (s == e.symbol || (
            e.poll matches Some(poll) && s == poll + "_jspi"@));
        assert(yields(e, s));
    }
}

/// What a selector names is one of the targets themselves, or a member of one: the one whose name it
/// is, whole and with all that belongs to it.
pub proof fn law_what_is_named_is_one_of_the_targets(
    selector: Seq<char>,
    parts: SelectorView,
    targets: Seq<Target<'_>>,
    chosen: Target<'_>,
)
    requires
        is_written_as(selector, parts),
        names_target(selector, targets, chosen),
    ensures
        parts.member is None ==> exists|i: int|
            0 <= i < targets.len() && #[trigger] targets[i] == chosen && upper_camel_case(
                targets[i].name@,
            ) == upper_camel_case(parts.owner),
        parts.member matches Some(member) ==> exists|i: int, j: int|
            0 <= i < targets.len() && 0 <= j < targets[i].members@.len()
                && #[trigger] targets[i].members@[j] == chosen && upper_camel_case(
                targets[i].name@,
            ) == upper_camel_case(parts.owner) && upper_camel_case(chosen.name@)
                == upper_camel_case(member),
{
    law_parsing_takes_selectors_apart(selector, parts);
    let views = target_views(targets);
    let hits = name_hits(top_level(views), parts.owner);
    let callable = callable_hits(views, hits);
    lemma_sole_is_sole(hits);
    lemma_sole_is_sole(callable);
    let i = owner_choice(selector, parts.owner, views, hits)->Ok_0;
    assert(hits[i]) by {
        if sole(callable) == Some(i) {
            assert(callable[i]);
        }
    }
    assert(views[i].name == targets[i].name@);
    if let Some(member) = parts.member {
        let among = name_hits(views[i].members, member);
        lemma_sole_is_sole(among);
        let j = member_choice(selector, parts.owner, member, among)->Ok_0;
        assert(among[j]);
        assert(views[i].members[j] == targets[i].members@[j].callable_view());
        assert(targets[i].members@[j] == chosen);
    } else {
        assert(targets[i] == chosen);
    }
}

} // verus!
