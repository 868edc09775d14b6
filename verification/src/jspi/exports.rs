//! Collecting exports and the symbols that they select.

use vstd::prelude::*;

use crate::jspi::target::{
    all_callables, all_exports, callable_views, export_view, export_views, picked_views, polled,
    target_views, without_callbacks, CallableView, Export, ExportView, Target, TargetView,
};
use crate::name_set::NameSet;
use crate::text::{concat, same_text};

verus! {

pub(crate) proof fn lemma_all_exports_add(a: Seq<CallableView>, b: Seq<CallableView>)
    ensures
        all_exports(a + b) == all_exports(a) + all_exports(b),
    decreases b.len(),
{
    if b.len() == 0 {
        assert(a + b =~= a);
        assert(all_exports(a) + Seq::<ExportView>::empty() =~= all_exports(a));
    } else {
        assert((a + b).drop_last() =~= a + b.drop_last());
        lemma_all_exports_add(a, b.drop_last());
        assert(all_exports(a) + all_exports(b.drop_last()) + b.last().exports =~= all_exports(a) + (
        all_exports(b.drop_last()) + b.last().exports));
    }
}

/// Appends to `out` those exports of `target` that are polled, unless it may call back.
fn push_async_exports<'a>(target: &Target<'a>, out: &mut Vec<Export<'a>>)
    ensures
        export_views(final(out)@) == export_views(old(out)@) + async_exports_of(
            seq![target.callable_view()],
        ),
{
    let ghost before = export_views(out@);
    let ghost exports = export_views(target.exports@);
    proof {
        reveal_with_fuel(Seq::filter, 2);
        reveal_with_fuel(all_exports, 2);
        let one = seq![target.callable_view()];
        assert(one.drop_last() =~= Seq::<CallableView>::empty());
        if target.has_callbacks {
            assert(without_callbacks(one) =~= Seq::<CallableView>::empty());
        } else {
            assert(without_callbacks(one) =~= one);
            assert(all_exports(one) =~= exports);
        }
        assert(before + Seq::<ExportView>::empty() =~= before);
    }
    if target.has_callbacks {
        return;
    }
    let mut i: usize = 0;
    assert(exports.take(0) =~= Seq::<ExportView>::empty());
    while i < target.exports.len()
        invariant
            i <= target.exports@.len(),
            exports == export_views(target.exports@),
            before == export_views(old(out)@),
            export_views(out@) == before + polled(exports.take(i as int)),
        decreases target.exports@.len() - i,
    {
        let export: Export<'a> = target.exports[i];
        let ghost held = out@;
        let ghost so_far = polled(exports.take(i as int));
        proof {
            reveal_with_fuel(Seq::filter, 2);
            assert(exports.take(i + 1).drop_last() =~= exports.take(i as int));
        }
        if export.1.is_some() {
            out.push(export);
            assert(export_views(out@) =~= export_views(held).push(export_view(export)));
            assert(export_views(out@) =~= before + so_far.push(export_view(export)));
        }
        i += 1;
    }
    assert(exports.take(i as int) =~= exports);
}

/// The polled exports of those of `callables` that can suspend.
pub open spec fn async_exports_of(callables: Seq<CallableView>) -> Seq<ExportView> {
    polled(all_exports(without_callbacks(callables)))
}

proof fn lemma_async_exports_add(a: Seq<CallableView>, b: Seq<CallableView>)
    ensures
        async_exports_of(a + b) == async_exports_of(a) + async_exports_of(b),
{
    let kept = |c: CallableView| !c.has_callbacks;
    let is_polled = |e: ExportView| e.poll is Some;
    Seq::filter_distributes_over_add(a, b, kept);
    assert(without_callbacks(a + b) =~= without_callbacks(a) + without_callbacks(b));
    lemma_all_exports_add(without_callbacks(a), without_callbacks(b));
    Seq::filter_distributes_over_add(
        all_exports(without_callbacks(a)),
        all_exports(without_callbacks(b)),
        is_polled,
    );
}

/// The exports of `targets` that are `async` in Rust and can suspend. A type with members offers
/// only theirs.
pub fn rust_async_exports<'a>(targets: &'a [Target<'a>]) -> (r: Vec<Export<'a>>)
    ensures
        export_views(r@) == async_exports_of(all_callables(target_views(targets@))),
{
    let ghost views = target_views(targets@);
    let mut exports: Vec<Export<'a>> = Vec::new();
    let mut i: usize = 0;
    assert(views.take(0) =~= Seq::<TargetView>::empty());
    assert(export_views(exports@) =~= async_exports_of(Seq::<CallableView>::empty()));
    while i < targets.len()
        invariant
            i <= targets@.len(),
            views == target_views(targets@),
            export_views(exports@) == async_exports_of(all_callables(views.take(i as int))),
        decreases targets@.len() - i,
    {
        let target: &'a Target<'a> = &targets[i];
        let ghost done = all_callables(views.take(i as int));
        assert(views.take(i + 1).drop_last() =~= views.take(i as int));
        if target.members.len() == 0 {
            proof {
                lemma_async_exports_add(done, seq![target.callable_view()]);
            }
            push_async_exports(target, &mut exports);
        } else {
            let ghost members = callable_views(target.members@);
            let mut j: usize = 0;
            assert(done + members.take(0) =~= done);
            while j < target.members.len()
                invariant
                    j <= target.members@.len(),
                    members == callable_views(target.members@),
                    export_views(exports@) == async_exports_of(done + members.take(j as int)),
                decreases target.members@.len() - j,
            {
                proof {
                    lemma_async_exports_add(
                        done + members.take(j as int),
                        seq![target.members@[j as int].callable_view()],
                    );
                    assert(done + members.take(j as int) + seq![
                        target.members@[j as int].callable_view(),
                    ] =~= done + members.take(j + 1));
                }
                push_async_exports(&target.members[j], &mut exports);
                j += 1;
            }
            assert(members.take(j as int) =~= members);
        }
        i += 1;
    }
    assert(views.take(i as int) =~= views);
    exports
}

/// Whether taking `export` selects the symbol `s`: its own, or the adapter that polls it.
pub open spec fn yields(export: ExportView, s: Seq<char>) -> bool {
    ||| s == export.symbol
    ||| export.poll matches Some(poll) && s == poll + "_jspi"@
}

/// The symbols that `exports` select, less those that only the exports in `excluded` select.
pub open spec fn symbols(exports: Seq<ExportView>, excluded: Seq<ExportView>) -> Set<Seq<char>> {
    Set::new(
        |s: Seq<char>|
            exists|e: ExportView|
                exports.contains(e) && !excluded.contains(e) && #[trigger] yields(e, s),
    )
}

fn same_export(a: Export<'_>, b: Export<'_>) -> (r: bool)
    ensures
        r == (export_view(a) == export_view(b)),
{
    if !same_text(a.0, b.0) {
        return false;
    }
    match (a.1, b.1) {
        (Some(p), Some(q)) => same_text(p, q),
        (None, None) => true,
        _ => false,
    }
}

fn has_export(exports: &Vec<Export<'_>>, export: Export<'_>) -> (r: bool)
    ensures
        r == export_views(exports@).contains(export_view(export)),
{
    let ghost views = export_views(exports@);
    let mut i: usize = 0;
    while i < exports.len()
        invariant
            i <= exports@.len(),
            views == export_views(exports@),
            forall|j: int| 0 <= j < i ==> views[j] != export_view(export),
        decreases exports@.len() - i,
    {
        if same_export(exports[i], export) {
            assert(views[i as int] == export_view(export));
            return true;
        }
        i += 1;
    }
    false
}

/// The symbols that `exports` select without those in `excluded`.
pub fn collect_symbols(exports: &Vec<Export<'_>>, excluded: &Vec<Export<'_>>) -> (r: NameSet)
    ensures
        r@ == symbols(export_views(exports@), export_views(excluded@)),
{
    let ghost views = export_views(exports@);
    let ghost without = export_views(excluded@);
    let mut r = NameSet::new();
    let mut i: usize = 0;
    assert(r@ =~= symbols(views.take(0), without));
    while i < exports.len()
        invariant
            i <= exports@.len(),
            views == export_views(exports@),
            without == export_views(excluded@),
            r@ == symbols(views.take(i as int), without),
        decreases exports@.len() - i,
    {
        let export = exports[i];
        let ghost e = export_view(export);
        let ghost before = r@;
        proof {
            lemma_symbols_push(views.take(i as int), e, without);
            assert(views.take(i + 1) =~= views.take(i as int).push(e));
        }
        if !has_export(excluded, export) {
            r.insert(export.0.to_owned());
            if let Some(poll) = export.1 {
                r.insert(concat(poll, "_jspi"));
                assert(r@ =~= before.union(Set::new(|s: Seq<char>| yields(e, s))));
            } else {
                assert(r@ =~= before.union(Set::new(|s: Seq<char>| yields(e, s))));
            }
            assert(r@ =~= symbols(views.take(i + 1), without));
        }
        i += 1;
    }
    assert(views.take(i as int) =~= views);
    r
}

proof fn lemma_symbols_push(exports: Seq<ExportView>, e: ExportView, excluded: Seq<ExportView>)
    ensures
        forall|s: Seq<char>| #[trigger]
            symbols(exports.push(e), excluded).contains(s) == (symbols(exports, excluded).contains(
                s,
            ) || (!excluded.contains(e) && yields(e, s))),
        excluded.contains(e) ==> symbols(exports.push(e), excluded) == symbols(exports, excluded),
{
    let more = exports.push(e);
    assert forall|s: Seq<char>| #[trigger]
        symbols(more, excluded).contains(s) == (symbols(exports, excluded).contains(s) || (
        !excluded.contains(e) && yields(e, s))) by {
        if symbols(more, excluded).contains(s) {
            let x = choose|x: ExportView|
                more.contains(x) && !excluded.contains(x) && #[trigger] yields(x, s);
            let i = choose|i: int| 0 <= i < more.len() && more[i] == x;
            if i < exports.len() {
                assert(exports[i] == x);
            }
        }
        if symbols(exports, excluded).contains(s) {
            let x = choose|x: ExportView|
                exports.contains(x) && !excluded.contains(x) && #[trigger] yields(x, s);
            let i = choose|i: int| 0 <= i < exports.len() && exports[i] == x;
            assert(more[i] == x);
        }
        assert(more[exports.len() as int] == e);
    }
    if excluded.contains(e) {
        assert(symbols(more, excluded) =~= symbols(exports, excluded));
    }
}

/// The exports of `targets`, in order.
pub fn list_exports<'a>(targets: &Vec<&'a Target<'a>>) -> (r: Vec<Export<'a>>)
    ensures
        export_views(r@) == all_exports(picked_views(targets@)),
{
    let ghost views = picked_views(targets@);
    let mut r: Vec<Export<'a>> = Vec::new();
    let mut i: usize = 0;
    assert(views.take(0) =~= Seq::<CallableView>::empty());
    assert(export_views(r@) =~= Seq::<ExportView>::empty());
    while i < targets.len()
        invariant
            i <= targets@.len(),
            views == picked_views(targets@),
            export_views(r@) == all_exports(views.take(i as int)),
        decreases targets@.len() - i,
    {
        assert(views.take(i + 1).drop_last() =~= views.take(i as int));
        append_exports(&targets[i].exports, &mut r);
        i += 1;
    }
    assert(views.take(i as int) =~= views);
    r
}

/// Appends `exports` to `out`.
pub fn append_exports<'a>(exports: &Vec<Export<'a>>, out: &mut Vec<Export<'a>>)
    ensures
        export_views(final(out)@) == export_views(old(out)@) + export_views(exports@),
{
    let ghost before = out@;
    let mut i: usize = 0;
    assert(before + exports@.take(0) =~= before);
    while i < exports.len()
        invariant
            i <= exports@.len(),
            before == old(out)@,
            out@ == before + exports@.take(i as int),
        decreases exports@.len() - i,
    {
        assert(exports@.take(i + 1) =~= exports@.take(i as int).push(exports@[i as int]));
        out.push(exports[i]);
        assert(out@ =~= before + exports@.take(i + 1));
        i += 1;
    }
    assert(exports@.take(i as int) =~= exports@);
    assert(export_views(out@) =~= export_views(before) + export_views(exports@));
}

} // verus!
