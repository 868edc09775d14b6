//! What holds of every selection.

use vstd::prelude::*;

use crate::jspi::exports::{async_exports_of, symbols, yields};
use crate::jspi::select::{selected, taken};
use crate::jspi::selection::{JspiOptions, JspiSelection, SelectErrorView};
use crate::jspi::selector::{
    callable_hits, is_sole, member_choice, name_hits, owner_choice, parsed, resolved,
    resolved_all, same_name, sole, top_level, SelectorView,
};
use crate::jspi::target::{
    all_callables, all_exports, polled, without_callbacks, CallableView, ExportView, TargetView,
};
use crate::text::{blank, texts};

verus! {

/// Whether `callable` is one of `targets` or one of their members.
pub open spec fn offers(targets: Seq<TargetView>, callable: CallableView) -> bool {
    ||| exists|i: int| 0 <= i < targets.len() && (#[trigger] targets[i]).callable() == callable
    ||| exists|i: int|
        0 <= i < targets.len() && (#[trigger] targets[i]).members.contains(callable)
}

/// Whether `export` is one of a callable that `targets` offer and that can suspend.
pub open spec fn suspendable_export(targets: Seq<TargetView>, export: ExportView) -> bool {
    exists|c: CallableView| #[trigger]
        offers(targets, c) && !c.has_callbacks && c.exports.contains(export)
}

pub(crate) proof fn lemma_filter<A>(s: Seq<A>, keep: spec_fn(A) -> bool, x: A)
    ensures
        s.filter(keep).contains(x) <==> s.contains(x) && keep(x),
    decreases s.len(),
{
    reveal(Seq::filter);
    if s.len() > 0 {
        let fewer = s.drop_last();
        lemma_filter(fewer, keep, x);
        let kept = s.filter(keep);
        if fewer.contains(x) {
            let i = choose|i: int| 0 <= i < fewer.len() && fewer[i] == x;
            assert(s[i] == x);
        }
        if fewer.filter(keep).contains(x) {
            let i = choose|i: int|
                0 <= i < fewer.filter(keep).len() && fewer.filter(keep)[i] == x;
            assert(kept[i] == x);
        }
        if kept.contains(x) {
            let i = choose|i: int| 0 <= i < kept.len() && kept[i] == x;
            if i < fewer.filter(keep).len() {
                assert(fewer.filter(keep)[i] == x);
            } else {
                assert(s[s.len() - 1] == x);
            }
        }
        if s.contains(x) && keep(x) {
            let i = choose|i: int| 0 <= i < s.len() && s[i] == x;
            if i < fewer.len() {
                assert(fewer[i] == x);
            } else {
                assert(kept[kept.len() - 1] == x);
            }
        }
    }
}

pub(crate) proof fn lemma_without_callbacks(callables: Seq<CallableView>, c: CallableView)
    ensures
        without_callbacks(callables).contains(c) <==> callables.contains(c) && !c.has_callbacks,
{
    lemma_filter(callables, |c: CallableView| !c.has_callbacks, c);
}

pub(crate) proof fn lemma_polled(exports: Seq<ExportView>, e: ExportView)
    ensures
        polled(exports).contains(e) <==> exports.contains(e) && e.poll is Some,
{
    lemma_filter(exports, |e: ExportView| e.poll is Some, e);
}

pub(crate) proof fn lemma_all_exports(callables: Seq<CallableView>, e: ExportView)
    ensures
        all_exports(callables).contains(e) <==> exists|i: int|
            0 <= i < callables.len() && (#[trigger] callables[i]).exports.contains(e),
    decreases callables.len(),
{
    if callables.len() > 0 {
        let fewer = callables.drop_last();
        let last = callables.last().exports;
        lemma_all_exports(fewer, e);
        let all = all_exports(callables);
        if all.contains(e) {
            let k = choose|k: int| 0 <= k < all.len() && all[k] == e;
            if k < all_exports(fewer).len() {
                assert(all_exports(fewer)[k] == e);
                let i = choose|i: int|
                    0 <= i < fewer.len() && (#[trigger] fewer[i]).exports.contains(e);
                assert(callables[i].exports.contains(e));
            } else {
                assert(last[k - all_exports(fewer).len()] == e);
                assert(callables[callables.len() - 1].exports.contains(e));
            }
        }
        if exists|i: int| 0 <= i < callables.len() && (#[trigger] callables[i]).exports.contains(e) {
            let i = choose|i: int|
                0 <= i < callables.len() && (#[trigger] callables[i]).exports.contains(e);
            if i < fewer.len() {
                assert(fewer[i].exports.contains(e));
                let k = choose|k: int|
                    0 <= k < all_exports(fewer).len() && all_exports(fewer)[k] == e;
                assert(all[k] == e);
            } else {
                let k = choose|k: int| 0 <= k < last.len() && last[k] == e;
                assert(all[all_exports(fewer).len() + k] == e);
            }
        }
    }
}

proof fn lemma_all_callables(targets: Seq<TargetView>, c: CallableView)
    requires
        all_callables(targets).contains(c),
    ensures
        offers(targets, c),
    decreases targets.len(),
{
    if targets.len() > 0 {
        let fewer = targets.drop_last();
        let all = all_callables(targets);
        let k = choose|k: int| 0 <= k < all.len() && all[k] == c;
        let last = targets[targets.len() - 1];
        if k < all_callables(fewer).len() {
            assert(all_callables(fewer)[k] == c);
            lemma_all_callables(fewer, c);
            if exists|i: int| 0 <= i < fewer.len() && (#[trigger] fewer[i]).callable() == c {
                let i = choose|i: int|
                    0 <= i < fewer.len() && (#[trigger] fewer[i]).callable() == c;
                assert(targets[i].callable() == c);
            } else {
                let i = choose|i: int|
                    0 <= i < fewer.len() && (#[trigger] fewer[i]).members.contains(c);
                assert(targets[i].members.contains(c));
            }
        } else {
            assert(last.callables()[k - all_callables(fewer).len()] == c);
            if last.members.len() == 0 {
                assert(last.callable() == c);
            } else {
                assert(last.members.contains(c));
            }
        }
    }
}

pub(crate) proof fn lemma_sole_is_sole(flags: Seq<bool>)
    ensures
        match sole(flags) {
            Some(i) => is_sole(flags, i),
            None => forall|i: int| !is_sole(flags, i),
        },
{
}

/// What a selector selects is offered, and can suspend.
pub proof fn law_selectors_pick_what_can_suspend(selector: Seq<char>, targets: Seq<TargetView>)
    ensures
        resolved(selector, targets) matches Ok(c) ==> offers(targets, c) && !c.has_callbacks,
{
    if resolved(selector, targets) is Ok {
        let parts = parsed(selector)->0;
        let hits = name_hits(top_level(targets), parts.owner);
        lemma_sole_is_sole(callable_hits(targets, hits));
        lemma_sole_is_sole(hits);
        let i = owner_choice(selector, parts.owner, targets, hits)->Ok_0;
        assert(0 <= i < targets.len());
        match parts.member {
            None => {
                assert(targets[i].callable() == resolved(selector, targets)->Ok_0);
            },
            Some(member) => {
                let among = name_hits(targets[i].members, member);
                lemma_sole_is_sole(among);
                let j = member_choice(selector, parts.owner, member, among)->Ok_0;
                assert(targets[i].members[j] == resolved(selector, targets)->Ok_0);
                assert(targets[i].members.contains(targets[i].members[j]));
            },
        }
    }
}

proof fn lemma_resolved_all(selectors: Seq<Seq<char>>, targets: Seq<TargetView>)
    ensures
        ({
            let chosen = resolved_all(selectors, targets).chosen;
            forall|i: int|
                0 <= i < chosen.len() ==> offers(targets, #[trigger] chosen[i])
                    && !chosen[i].has_callbacks
        }),
    decreases selectors.len(),
{
    if selectors.len() > 0 {
        lemma_resolved_all(selectors.drop_last(), targets);
        law_selectors_pick_what_can_suspend(selectors.last(), targets);
    }
}

pub(crate) proof fn lemma_taken(
    selection: JspiSelection,
    targets: Seq<TargetView>,
    e: ExportView,
)
    requires
        taken(
            selection,
            targets,
            resolved_all(selection.included_selectors(), targets).chosen,
        ).contains(e),
    ensures
        suspendable_export(targets, e),
{
    let chosen = resolved_all(selection.included_selectors(), targets).chosen;
    let base = if selection.starts_from_all() {
        without_callbacks(top_level(targets))
    } else {
        Seq::empty()
    };
    let all = taken(selection, targets, chosen);
    let named = all_exports(base + chosen);
    let k = choose|k: int| 0 <= k < all.len() && all[k] == e;
    if k < named.len() {
        assert(named[k] == e);
        lemma_all_exports(base + chosen, e);
        let i = choose|i: int|
            0 <= i < (base + chosen).len() && (#[trigger] (base + chosen)[i]).exports.contains(e);
        let c = (base + chosen)[i];
        if i < base.len() {
            lemma_without_callbacks(top_level(targets), c);
            assert(base[i] == c);
            assert(without_callbacks(top_level(targets)).contains(c));
            let j = choose|j: int| 0 <= j < top_level(targets).len() && top_level(targets)[j] == c;
            assert(targets[j].callable() == c);
        } else {
            lemma_resolved_all(selection.included_selectors(), targets);
            assert(chosen[i - base.len()] == c);
        }
        assert(offers(targets, c));
    } else {
        let automatic = async_exports_of(all_callables(targets));
        assert(automatic[k - named.len()] == e);
        lemma_async_exports(targets, e);
    }
}

/// What the automatic selection takes is polled, and belongs to a callable that can suspend.
proof fn lemma_async_exports(targets: Seq<TargetView>, e: ExportView)
    requires
        async_exports_of(all_callables(targets)).contains(e),
    ensures
        suspendable_export(targets, e),
        e.poll is Some,
{
    let callables = all_callables(targets);
    let kept = without_callbacks(callables);
    lemma_polled(all_exports(kept), e);
    assert(polled(all_exports(kept)).contains(e));
    lemma_all_exports(kept, e);
    let i = choose|i: int| 0 <= i < kept.len() && (#[trigger] kept[i]).exports.contains(e);
    lemma_without_callbacks(callables, kept[i]);
    assert(without_callbacks(callables).contains(kept[i]));
    lemma_all_callables(targets, kept[i]);
}

/// Every selected symbol is that of an export, or the adapter that polls one, of a callable that
/// the targets offer and that can suspend. No other symbol of a library is ever selected.
pub proof fn law_selected_symbols_are_exports_that_can_suspend(
    selection: JspiSelection,
    targets: Seq<TargetView>,
    s: Seq<char>,
)
    ensures
        selected(selection, targets) matches Ok(set) ==> set.contains(s) ==> exists|e: ExportView|
            suspendable_export(targets, e) && #[trigger] yields(e, s),
{
    if selected(selection, targets) is Ok && selected(selection, targets)->Ok_0.contains(s) {
        let included = resolved_all(selection.included_selectors(), targets).chosen;
        let exports = taken(selection, targets, included);
        let without = all_exports(
            resolved_all(selection.excluded_selectors(), targets).chosen,
        );
        let e = choose|e: ExportView|
            exports.contains(e) && !without.contains(e) && #[trigger] yields(e, s);
        lemma_taken(selection, targets, e);
    }
}

/// What the excluded selectors select is not selected: a symbol stays out when every export that
/// would select it is excluded.
pub proof fn law_exclusions_subtract(
    selection: JspiSelection,
    targets: Seq<TargetView>,
    s: Seq<char>,
)
    requires
        forall|e: ExportView|
            suspendable_export(targets, e) && #[trigger] yields(e, s) ==> all_exports(
                resolved_all(selection.excluded_selectors(), targets).chosen,
            ).contains(e),
    ensures
        selected(selection, targets) matches Ok(set) ==> !set.contains(s),
{
    if selected(selection, targets) is Ok && selected(selection, targets)->Ok_0.contains(s) {
        let included = resolved_all(selection.included_selectors(), targets).chosen;
        let exports = taken(selection, targets, included);
        let without = all_exports(
            resolved_all(selection.excluded_selectors(), targets).chosen,
        );
        let e = choose|e: ExportView|
            exports.contains(e) && !without.contains(e) && #[trigger] yields(e, s);
        lemma_taken(selection, targets, e);
        assert(yields(e, s));
    }
}

/// Selecting everything never fails, and selects what each target that can suspend exports.
pub proof fn law_all_selects_every_suspendable_target(targets: Seq<TargetView>, s: Seq<char>)
    ensures
        selected(JspiSelection::All(true), targets) matches Ok(set) && (set.contains(s)
            <==> exists|i: int, e: ExportView|
            0 <= i < targets.len() && !targets[i].has_callbacks
                && #[trigger] targets[i].exports.contains(e) && #[trigger] yields(e, s)),
{
    let selection = JspiSelection::All(true);
    let none = Seq::<CallableView>::empty();
    let base = without_callbacks(top_level(targets));
    assert(selection.included_selectors() =~= Seq::<Seq<char>>::empty());
    assert(base + none =~= base);
    let exports = all_exports(base);
    assert(taken(selection, targets, none) =~= exports);
    assert(selected(selection, targets) == Ok::<Set<Seq<char>>, SelectErrorView>(
        symbols(exports, Seq::empty()),
    ));
    let set = symbols(exports, Seq::empty());
    if set.contains(s) {
        let e = choose|e: ExportView|
            exports.contains(e) && !Seq::<ExportView>::empty().contains(e) && #[trigger] yields(
                e,
                s,
            );
        lemma_all_exports(base, e);
        let k = choose|k: int| 0 <= k < base.len() && (#[trigger] base[k]).exports.contains(e);
        lemma_without_callbacks(top_level(targets), base[k]);
        assert(without_callbacks(top_level(targets)).contains(base[k]));
        let i = choose|i: int|
            0 <= i < top_level(targets).len() && top_level(targets)[i] == base[k];
        assert(targets[i].exports.contains(e) && yields(e, s));
    }
    if exists|i: int, e: ExportView|
        0 <= i < targets.len() && !targets[i].has_callbacks
            && #[trigger] targets[i].exports.contains(e) && #[trigger] yields(e, s) {
        let (i, e) = choose|i: int, e: ExportView|
            0 <= i < targets.len() && !targets[i].has_callbacks
                && #[trigger] targets[i].exports.contains(e) && #[trigger] yields(e, s);
        assert(top_level(targets)[i] == targets[i].callable());
        assert(top_level(targets).contains(targets[i].callable()));
        lemma_without_callbacks(top_level(targets), targets[i].callable());
        let k = choose|k: int| 0 <= k < base.len() && base[k] == targets[i].callable();
        assert(base[k].exports.contains(e));
        lemma_all_exports(base, e);
        assert(exports.contains(e) && !Seq::<ExportView>::empty().contains(e) && yields(e, s));
    }
}

/// Selecting nothing never fails, and selects nothing.
pub proof fn law_disabled_selects_nothing(selection: JspiSelection, targets: Seq<TargetView>)
    requires
        !selection.starts_from_all(),
        !selection.adds_rust_async(),
        selection.included_selectors().len() == 0,
        selection.excluded_selectors().len() == 0,
    ensures
        selected(selection, targets) == Ok::<Set<Seq<char>>, SelectErrorView>(Set::empty()),
{
    let none = Seq::<CallableView>::empty();
    assert(none + none =~= none);
    assert(taken(selection, targets, none) =~= Seq::<ExportView>::empty());
    assert(symbols(Seq::empty(), Seq::empty()) =~= Set::<Seq<char>>::empty());
}

/// With no selectors, asking for the callables that are `async` in Rust never fails, and every
/// symbol that it selects is that of a polled export, or the adapter that polls one.
pub proof fn law_rust_async_selects_polled_exports(
    selection: JspiSelection,
    targets: Seq<TargetView>,
    s: Seq<char>,
)
    requires
        selection.adds_rust_async(),
        selection.included_selectors().len() == 0,
        selection.excluded_selectors().len() == 0,
    ensures
        selected(selection, targets) matches Ok(set) && (set.contains(s) ==> exists|e: ExportView|
            suspendable_export(targets, e) && e.poll is Some && #[trigger] yields(e, s)),
{
    let none = Seq::<CallableView>::empty();
    let automatic = async_exports_of(all_callables(targets));
    assert(!selection.starts_from_all());
    assert(none + none =~= none);
    assert(taken(selection, targets, none) =~= automatic);
    let set = selected(selection, targets)->Ok_0;
    assert(set == symbols(automatic, all_exports(none)));
    if set.contains(s) {
        let e = choose|e: ExportView|
            automatic.contains(e) && !all_exports(none).contains(e) && #[trigger] yields(e, s);
        lemma_async_exports(targets, e);
    }
}

proof fn lemma_resolved_all_add(
    a: Seq<Seq<char>>,
    b: Seq<Seq<char>>,
    targets: Seq<TargetView>,
)
    requires
        resolved_all(a, targets).error is None,
    ensures
        resolved_all(a + b, targets).error == resolved_all(b, targets).error,
        resolved_all(a + b, targets).chosen == resolved_all(a, targets).chosen + resolved_all(
            b,
            targets,
        ).chosen,
    decreases b.len(),
{
    let chosen = resolved_all(a, targets).chosen;
    if b.len() == 0 {
        assert(a + b =~= a);
        assert(chosen + Seq::<CallableView>::empty() =~= chosen);
    } else {
        assert((a + b).drop_last() =~= a + b.drop_last());
        lemma_resolved_all_add(a, b.drop_last(), targets);
        let before = resolved_all(b.drop_last(), targets).chosen;
        if resolved(b.last(), targets) is Ok {
            let c = resolved(b.last(), targets)->Ok_0;
            assert((chosen + before).push(c) =~= chosen + before.push(c));
        }
    }
}

/// Naming selectors one after the other selects what naming them apart selects together. So their
/// order does not matter, nor that they overlap.
pub proof fn law_named_selections_unite(
    a: Vec<String>,
    b: Vec<String>,
    both: Vec<String>,
    targets: Seq<TargetView>,
)
    requires
        texts(both@) == texts(a@) + texts(b@),
        selected(JspiSelection::Named(a), targets) is Ok,
        selected(JspiSelection::Named(b), targets) is Ok,
    ensures
        selected(JspiSelection::Named(both), targets) == Ok::<Set<Seq<char>>, SelectErrorView>(
            selected(JspiSelection::Named(a), targets)->Ok_0.union(
                selected(JspiSelection::Named(b), targets)->Ok_0,
            ),
        ),
{
    let none = Seq::<CallableView>::empty();
    let empty = Seq::<ExportView>::empty();
    let x = resolved_all(texts(a@), targets).chosen;
    let y = resolved_all(texts(b@), targets).chosen;
    lemma_resolved_all_add(texts(a@), texts(b@), targets);
    assert(none + x =~= x && none + y =~= y && none + (x + y) =~= x + y);
    assert(taken(JspiSelection::Named(a), targets, x) =~= all_exports(x));
    assert(taken(JspiSelection::Named(b), targets, y) =~= all_exports(y));
    assert(taken(JspiSelection::Named(both), targets, x + y) =~= all_exports(x + y));
    let whole = symbols(all_exports(x + y), empty);
    let parts = symbols(all_exports(x), empty).union(symbols(all_exports(y), empty));
    assert forall|s: Seq<char>| whole.contains(s) == parts.contains(s) by {
        if whole.contains(s) {
            let e = choose|e: ExportView|
                all_exports(x + y).contains(e) && !empty.contains(e) && #[trigger] yields(e, s);
            lemma_all_exports(x + y, e);
            let i = choose|i: int|
                0 <= i < (x + y).len() && (#[trigger] (x + y)[i]).exports.contains(e);
            if i < x.len() {
                assert(x[i].exports.contains(e));
            } else {
                assert(y[i - x.len()].exports.contains(e));
            }
            lemma_all_exports(x, e);
            lemma_all_exports(y, e);
        }
        if symbols(all_exports(x), empty).contains(s) {
            let e = choose|e: ExportView|
                all_exports(x).contains(e) && !empty.contains(e) && #[trigger] yields(e, s);
            lemma_all_exports(x, e);
            let i = choose|i: int| 0 <= i < x.len() && (#[trigger] x[i]).exports.contains(e);
            assert((x + y)[i].exports.contains(e));
            lemma_all_exports(x + y, e);
        }
        if symbols(all_exports(y), empty).contains(s) {
            let e = choose|e: ExportView|
                all_exports(y).contains(e) && !empty.contains(e) && #[trigger] yields(e, s);
            lemma_all_exports(y, e);
            let i = choose|i: int| 0 <= i < y.len() && (#[trigger] y[i]).exports.contains(e);
            assert((x + y)[x.len() + i].exports.contains(e));
            lemma_all_exports(x + y, e);
        }
    }
    assert(whole =~= parts);
}

/// Selectors that differ only in the case convention of their parts select the same.
pub proof fn law_case_convention_does_not_matter(
    left: Seq<char>,
    right: Seq<char>,
    targets: Seq<TargetView>,
)
    requires
        parsed(left) is Some,
        parsed(right) is Some,
        same_name(parsed(left)->0.owner, parsed(right)->0.owner),
        match (parsed(left)->0.member, parsed(right)->0.member) {
            (Some(a), Some(b)) => same_name(a, b),
            (None, None) => true,
            _ => false,
        },
    ensures
        resolved(left, targets) is Ok ==> resolved(right, targets) == resolved(left, targets),
{
    let p = parsed(left)->0;
    let q = parsed(right)->0;
    assert(name_hits(top_level(targets), p.owner) =~= name_hits(top_level(targets), q.owner));
    if resolved(left, targets) is Ok {
        let hits = name_hits(top_level(targets), p.owner);
        let i = owner_choice(left, p.owner, targets, hits)->Ok_0;
        if let Some(a) = p.member {
            assert(name_hits(targets[i].members, a) =~= name_hits(targets[i].members, q.member->0));
        }
    }
}

/// A type that exports nothing leaves what a selector selects as it is, provided that the owner
/// which the selector means exports something.
pub proof fn law_data_only_type_makes_nothing_ambiguous(
    selector: Seq<char>,
    targets: Seq<TargetView>,
    data: TargetView,
)
    requires
        data.exports.len() == 0,
        parsed(selector) matches Some(parts) && owner_choice(
            selector,
            parts.owner,
            targets,
            name_hits(top_level(targets), parts.owner),
        ) matches Ok(i) && targets[i].exports.len() > 0,
    ensures
        resolved(selector, targets.push(data)) == resolved(selector, targets),
{
    let parts = parsed(selector)->0;
    let more = targets.push(data);
    let hits = name_hits(top_level(targets), parts.owner);
    let more_hits = name_hits(top_level(more), parts.owner);
    let i = owner_choice(selector, parts.owner, targets, hits)->Ok_0;
    lemma_sole_is_sole(hits);
    lemma_sole_is_sole(callable_hits(targets, hits));
    assert(forall|k: int| 0 <= k < hits.len() ==> more_hits[k] == hits[k]);
    assert(is_sole(callable_hits(targets, hits), i)) by {
        let callable = callable_hits(targets, hits);
        if !is_sole(callable, i) {
            assert(is_sole(hits, i));
            assert(callable[i]);
            assert(forall|j: int| 0 <= j < callable.len() && callable[j] ==> hits[j]);
        }
    }
    let callable = callable_hits(targets, hits);
    let more_callable = callable_hits(more, more_hits);
    assert forall|j: int| 0 <= j < more_callable.len() && more_callable[j] implies j == i by {
        if j < targets.len() {
            assert(callable[j]);
        }
    }
    assert(more_callable[i] == callable[i]);
    assert(is_sole(more_callable, i));
    lemma_sole_is_sole(more_callable);
    assert(more_hits[i]);
    assert(more_hits.contains(true));
    assert(more[i] == targets[i]);
}

/// Two targets of one name that both export something make the name ambiguous.
pub proof fn law_two_callable_owners_are_ambiguous(
    selector: Seq<char>,
    targets: Seq<TargetView>,
    i: int,
    j: int,
)
    requires
        0 <= i < j < targets.len(),
        parsed(selector) matches Some(parts) && same_name(targets[i].name, parts.owner)
            && same_name(targets[j].name, parts.owner),
        targets[i].exports.len() > 0,
        targets[j].exports.len() > 0,
    ensures
        resolved(selector, targets) == Err::<CallableView, SelectErrorView>(
            SelectErrorView::AmbiguousOwner { selector, owner: parsed(selector)->0.owner },
        ),
{
    let hits = name_hits(top_level(targets), parsed(selector)->0.owner);
    let callable = callable_hits(targets, hits);
    lemma_sole_is_sole(hits);
    lemma_sole_is_sole(callable);
    assert(hits[i] && hits[j] && callable[i] && callable[j]);
    assert(hits.contains(true));
}

/// A member is selected by what it is itself: whether its owner or its siblings can suspend does
/// not matter. `others` are targets of the same names and exports as `targets`.
pub proof fn law_members_are_selected_by_themselves(
    selector: Seq<char>,
    targets: Seq<TargetView>,
    others: Seq<TargetView>,
)
    requires
        parsed(selector) matches Some(parts) && parts.member is Some,
        targets.len() == others.len(),
        forall|i: int|
            0 <= i < targets.len() ==> {
                &&& (#[trigger] others[i]).name == targets[i].name
                &&& others[i].exports == targets[i].exports
                &&& others[i].members.len() == targets[i].members.len()
                &&& forall|j: int|
                    0 <= j < targets[i].members.len() ==> (#[trigger] others[i].members[j]).name
                        == targets[i].members[j].name
            },
        resolved(selector, targets) is Ok,
        forall|i: int, j: int|
            0 <= i < targets.len() && 0 <= j < targets[i].members.len() && targets[i].members[j]
                == resolved(selector, targets)->Ok_0 ==> #[trigger] others[i].members[j]
                == targets[i].members[j],
    ensures
        resolved(selector, others) == resolved(selector, targets),
{
    let parts = parsed(selector)->0;
    let member = parts.member->0;
    let hits = name_hits(top_level(targets), parts.owner);
    assert(name_hits(top_level(others), parts.owner) =~= hits);
    assert(callable_hits(others, hits) =~= callable_hits(targets, hits));
    lemma_sole_is_sole(hits);
    lemma_sole_is_sole(callable_hits(targets, hits));
    let i = owner_choice(selector, parts.owner, targets, hits)->Ok_0;
    let among = name_hits(targets[i].members, member);
    assert(others[i].members.len() == targets[i].members.len());
    assert(name_hits(others[i].members, member) =~= among);
    lemma_sole_is_sole(among);
    let j = member_choice(selector, parts.owner, member, among)->Ok_0;
    assert(others[i].members[j] == targets[i].members[j]);
}

/// A selection that only excludes selects what selecting everything would, less the symbols that
/// only excluded exports select.
pub proof fn law_excluding_starts_from_everything(
    selection: JspiSelection,
    targets: Seq<TargetView>,
)
    requires
        selection.starts_from_all(),
        selection.included_selectors().len() == 0,
    ensures
        ({
            let excluded = resolved_all(selection.excluded_selectors(), targets);
            excluded.error is None ==> selected(selection, targets) == Ok::<
                Set<Seq<char>>,
                SelectErrorView,
            >(
                symbols(
                    all_exports(without_callbacks(top_level(targets))),
                    all_exports(excluded.chosen),
                ),
            )
        }),
{
    let none = Seq::<CallableView>::empty();
    let base = without_callbacks(top_level(targets));
    assert(base + none =~= base);
    assert(!selection.adds_rust_async());
    assert(taken(selection, targets, none) =~= all_exports(base));
}

/// Without exclusions, asking for the callables that are `async` in Rust adds to what the included
/// selectors select on their own.
pub proof fn law_rust_async_unites_with_the_included(
    selection: JspiSelection,
    named: Vec<String>,
    automatic: JspiSelection,
    targets: Seq<TargetView>,
)
    requires
        selection.adds_rust_async(),
        selection.excluded_selectors().len() == 0,
        selection.included_selectors() == texts(named@),
        automatic.adds_rust_async(),
        automatic.excluded_selectors().len() == 0,
        automatic.included_selectors().len() == 0,
        selected(JspiSelection::Named(named), targets) is Ok,
    ensures
        selected(selection, targets) == Ok::<Set<Seq<char>>, SelectErrorView>(
            selected(JspiSelection::Named(named), targets)->Ok_0.union(
                selected(automatic, targets)->Ok_0,
            ),
        ),
{
    let none = Seq::<CallableView>::empty();
    let empty = Seq::<ExportView>::empty();
    let chosen = resolved_all(texts(named@), targets).chosen;
    let a = all_exports(chosen);
    let b = async_exports_of(all_callables(targets));
    assert(!selection.starts_from_all() && !automatic.starts_from_all());
    assert(none + chosen =~= chosen && none + none =~= none);
    assert(taken(JspiSelection::Named(named), targets, chosen) =~= a);
    assert(taken(automatic, targets, none) =~= b);
    assert(taken(selection, targets, chosen) =~= a + b);
    assert(all_exports(none) =~= empty);
    let whole = symbols(a + b, empty);
    let parts = symbols(a, empty).union(symbols(b, empty));
    assert forall|s: Seq<char>| whole.contains(s) == parts.contains(s) by {
        if whole.contains(s) {
            let e = choose|e: ExportView|
                (a + b).contains(e) && !empty.contains(e) && #[trigger] yields(e, s);
            let i = choose|i: int| 0 <= i < (a + b).len() && (a + b)[i] == e;
            if i < a.len() {
                assert(a[i] == e);
            } else {
                assert(b[i - a.len()] == e);
            }
        }
        if symbols(a, empty).contains(s) {
            let e = choose|e: ExportView|
                a.contains(e) && !empty.contains(e) && #[trigger] yields(e, s);
            let i = choose|i: int| 0 <= i < a.len() && a[i] == e;
            assert((a + b)[i] == e);
        }
        if symbols(b, empty).contains(s) {
            let e = choose|e: ExportView|
                b.contains(e) && !empty.contains(e) && #[trigger] yields(e, s);
            let i = choose|i: int| 0 <= i < b.len() && b[i] == e;
            assert((a + b)[a.len() + i] == e);
        }
    }
    assert(whole =~= parts);
}

/// Whether `selector` is written as `parts`: the owner, or owner and member with a dot between,
/// none of them blank or with a dot of its own.
pub open spec fn is_written_as(selector: Seq<char>, parts: SelectorView) -> bool {
    &&& !blank(parts.owner)
    &&& !parts.owner.contains('.')
    &&& match parts.member {
        None => selector == parts.owner,
        Some(member) => {
            &&& !blank(member)
            &&& !member.contains('.')
            &&& selector == parts.owner + seq!['.'] + member
        },
    }
}

/// Parsing takes apart exactly the texts that are written as an owner, or as owner and member.
pub proof fn law_parsing_takes_selectors_apart(selector: Seq<char>, parts: SelectorView)
    ensures
        parsed(selector) == Some(parts) <==> is_written_as(selector, parts),
{
    selector.index_of_first_ensures('.');
    let dot = selector.index_of_first('.');
    if is_written_as(selector, parts) {
        match parts.member {
            None => {},
            Some(member) => {
                let at = parts.owner.len() as int;
                assert(selector[at] == '.');
                assert(forall|i: int| 0 <= i < at ==> selector[i] == parts.owner[i]);
                assert(dot == Some(at));
                assert(selector.take(at) =~= parts.owner);
                assert(selector.skip(at + 1) =~= member);
            },
        }
    }
    if parsed(selector) == Some(parts) {
        if let Some(at) = dot {
            assert(selector =~= parts.owner + seq!['.'] + parts.member->0);
            assert(!parts.owner.contains('.')) by {
                if parts.owner.contains('.') {
                    let i = choose|i: int| 0 <= i < parts.owner.len() && parts.owner[i] == '.';
                    assert(selector[i] == '.');
                }
            }
        }
    }
}

/// Options that only include select what their selectors select as a list.
pub proof fn law_including_alone_is_naming(
    options: JspiOptions,
    names: Vec<String>,
    targets: Seq<TargetView>,
)
    requires
        !options.rust_async,
        options.excluded@.len() == 0,
        texts(options.included@) == texts(names@),
    ensures
        selected(JspiSelection::Options(options), targets) == selected(
            JspiSelection::Named(names),
            targets,
        ),
{
    assert(texts(options.excluded@) =~= Seq::<Seq<char>>::empty());
}

} // verus!
