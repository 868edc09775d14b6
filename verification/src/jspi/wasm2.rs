//! The selection of a wasm2 build, which only suspends functions with a supported ABI.

use vstd::prelude::*;

use crate::jspi::namespace::{namespace_targets, FfiDefinition, FfiFunction, FfiType, Namespace};
use crate::jspi::select::{select_wasm2, selected};
use crate::jspi::selection::{JspiSelection, SelectErrorView, Wasm2SelectError};
use crate::jspi::target::{
    callable_views, export_views, target_views, CallableView, ExportView, Target, TargetView,
};
use crate::name_set::NameSet;

verus! {

impl FfiType {
    /// Whether a value of the type crosses a suspending call: a number, a handle or a buffer.
    pub open spec fn crosses(self) -> bool {
        match self {
            FfiType::UInt8 | FfiType::Int8 | FfiType::UInt16 | FfiType::Int16 | FfiType::UInt32
            | FfiType::Int32 | FfiType::UInt64 | FfiType::Int64 | FfiType::Float32
            | FfiType::Float64 | FfiType::Handle | FfiType::RustBuffer => true,
            FfiType::ForeignBytes | FfiType::Function | FfiType::Struct | FfiType::RustCallStatus
            | FfiType::Reference | FfiType::MutReference | FfiType::VoidPointer => false,
        }
    }

    pub fn is_supported(&self) -> (r: bool)
        ensures
            r == self.crosses(),
    {
        matches!(
            self,
            FfiType::UInt8
                | FfiType::Int8
                | FfiType::UInt16
                | FfiType::Int16
                | FfiType::UInt32
                | FfiType::Int32
                | FfiType::UInt64
                | FfiType::Int64
                | FfiType::Float32
                | FfiType::Float64
                | FfiType::Handle
                | FfiType::RustBuffer
        )
    }
}

impl FfiFunction {
    /// Whether all that the function takes and returns crosses a suspending call.
    pub open spec fn eligible(self) -> bool {
        &&& forall|i: int| 0 <= i < self.arguments@.len() ==> (#[trigger] self.arguments@[i]).crosses()
        &&& self.return_type matches Some(ty) ==> ty.crosses()
    }

    pub fn is_eligible(&self) -> (r: bool)
        ensures
            r == self.eligible(),
    {
        let mut i: usize = 0;
        while i < self.arguments.len()
            invariant
                i <= self.arguments@.len(),
                forall|j: int| 0 <= j < i ==> (#[trigger] self.arguments@[j]).crosses(),
            decreases self.arguments@.len() - i,
        {
            if !self.arguments[i].is_supported() {
                return false;
            }
            i += 1;
        }
        match &self.return_type {
            Some(ty) => ty.is_supported(),
            None => true,
        }
    }
}

/// Whether `definition` is an eligible function that is exported as `symbol`.
pub open spec fn defines_eligible(definition: FfiDefinition, symbol: Seq<char>) -> bool {
    definition matches FfiDefinition::RustFunction(f) && f.eligible() && f.name@ == symbol
}

/// The symbols of the eligible functions among `definitions`.
pub open spec fn eligible_symbols(definitions: Seq<FfiDefinition>) -> Set<Seq<char>> {
    Set::new(
        |s: Seq<char>|
            exists|i: int|
                0 <= i < definitions.len() && #[trigger] defines_eligible(definitions[i], s),
    )
}

/// The exported functions whose signature wasm2 can pass.
pub fn find_eligible(definitions: &Vec<FfiDefinition>) -> (r: NameSet)
    ensures
        r@ == eligible_symbols(definitions@),
{
    let mut r = NameSet::new();
    let mut i: usize = 0;
    assert(r@ =~= eligible_symbols(definitions@.take(0)));
    while i < definitions.len()
        invariant
            i <= definitions@.len(),
            r@ == eligible_symbols(definitions@.take(i as int)),
        decreases definitions@.len() - i,
    {
        let ghost before = r@;
        if let FfiDefinition::RustFunction(f) = &definitions[i] {
            if f.is_eligible() {
                r.insert(f.name.clone());
            }
        }
        proof {
            let done = definitions@.take(i as int);
            let more = definitions@.take(i + 1);
            assert forall|s: Seq<char>|
                eligible_symbols(more).contains(s) == (before.contains(s) || defines_eligible(
                    definitions@[i as int],
                    s,
                )) by {
                if eligible_symbols(more).contains(s) {
                    let k = choose|k: int| 0 <= k < more.len() && defines_eligible(more[k], s);
                    if k < i {
                        assert(defines_eligible(done[k], s));
                    }
                }
                if before.contains(s) {
                    let k = choose|k: int| 0 <= k < done.len() && defines_eligible(done[k], s);
                    assert(defines_eligible(more[k], s));
                }
                assert(more[i as int] == definitions@[i as int]);
            }
            assert(r@ =~= eligible_symbols(more));
        }
        i += 1;
    }
    assert(definitions@.take(i as int) =~= definitions@);
    r
}

/// Whether every one of `exports` is an eligible function.
pub open spec fn all_eligible(exports: Seq<ExportView>, eligible: Set<Seq<char>>) -> bool {
    forall|i: int| 0 <= i < exports.len() ==> eligible.contains((#[trigger] exports[i]).symbol)
}

impl CallableView {
    /// The callable, barred from suspension unless all that it exports is eligible.
    pub open spec fn restricted(self, eligible: Set<Seq<char>>) -> CallableView {
        CallableView {
            has_callbacks: self.has_callbacks || !all_eligible(self.exports, eligible),
            ..self
        }
    }
}

impl TargetView {
    /// The target, with itself and each member barred unless all that it exports is eligible.
    pub open spec fn restricted(self, eligible: Set<Seq<char>>) -> TargetView {
        TargetView {
            has_callbacks: self.has_callbacks || !all_eligible(self.exports, eligible),
            members: restricted_callables(self.members, eligible),
            ..self
        }
    }
}

pub open spec fn restricted_callables(
    callables: Seq<CallableView>,
    eligible: Set<Seq<char>>,
) -> Seq<CallableView> {
    callables.map_values(|c: CallableView| c.restricted(eligible))
}

pub open spec fn restricted_targets(
    targets: Seq<TargetView>,
    eligible: Set<Seq<char>>,
) -> Seq<TargetView> {
    targets.map_values(|t: TargetView| t.restricted(eligible))
}

fn restrict_callable(target: &mut Target<'_>, eligible: &NameSet)
    ensures
        final(target).callable_view() == old(target).callable_view().restricted(eligible@),
        final(target).members == old(target).members,
{
    let ghost exports = export_views(target.exports@);
    let mut i: usize = 0;
    let mut barred = target.has_callbacks;
    while i < target.exports.len()
        invariant
            i <= target.exports@.len(),
            *target == *old(target),
            exports == export_views(target.exports@),
            barred == (target.has_callbacks || !all_eligible(exports.take(i as int), eligible@)),
        decreases target.exports@.len() - i,
    {
        let known = eligible.contains(target.exports[i].0);
        proof {
            let done = exports.take(i as int);
            let more = exports.take(i + 1);
            assert(more =~= done.push(exports[i as int]));
            if all_eligible(more, eligible@) {
                assert forall|k: int| 0 <= k < done.len() implies eligible@.contains(
                    (#[trigger] done[k]).symbol,
                ) by {
                    assert(more[k] == done[k]);
                }
                assert(eligible@.contains(more[i as int].symbol));
            }
        }
        if !known {
            barred = true;
        }
        i += 1;
    }
    assert(exports.take(i as int) =~= exports);
    target.has_callbacks = barred;
}

fn restrict_target(target: &mut Target<'_>, eligible: &NameSet)
    ensures
        final(target)@ == old(target)@.restricted(eligible@),
{
    let ghost members = callable_views(target.members@);
    let mut i: usize = 0;
    while i < target.members.len()
        invariant
            i <= target.members@.len(),
            members == callable_views(old(target).members@),
            target.members@.len() == members.len(),
            target.callable_view() == old(target).callable_view(),
            forall|k: int|
                0 <= k < i ==> (#[trigger] target.members@[k]).callable_view()
                    == members[k].restricted(eligible@),
            forall|k: int|
                i <= k < members.len() ==> (#[trigger] target.members@[k]).callable_view()
                    == members[k],
        decreases target.members@.len() - i,
    {
        restrict_callable(&mut target.members[i], eligible);
        i += 1;
    }
    assert(callable_views(target.members@) =~= restricted_callables(members, eligible@));
    restrict_callable(target, eligible);
}

fn restrict_targets(targets: &mut Vec<Target<'_>>, eligible: &NameSet)
    ensures
        target_views(final(targets)@) == restricted_targets(target_views(old(targets)@), eligible@),
{
    let ghost views = target_views(targets@);
    let mut i: usize = 0;
    while i < targets.len()
        invariant
            i <= targets@.len(),
            views == target_views(old(targets)@),
            targets@.len() == views.len(),
            forall|k: int|
                0 <= k < i ==> (#[trigger] targets@[k])@ == views[k].restricted(eligible@),
            forall|k: int| i <= k < views.len() ==> (#[trigger] targets@[k])@ == views[k],
        decreases targets@.len() - i,
    {
        restrict_target(&mut targets[i], eligible);
        i += 1;
    }
    assert(target_views(targets@) =~= restricted_targets(views, eligible@));
}

impl Namespace {
    /// What the selection of a wasm2 build ranges over.
    pub open spec fn wasm2_targets(self) -> Seq<TargetView> {
        restricted_targets(self.targets(), eligible_symbols(self.ffi_definitions@))
    }
}

/// The symbols that `selection` selects in `namespace` for a wasm2 build.
pub fn resolve_wasm2(selection: &JspiSelection, namespace: &Namespace) -> (r: Result<
    NameSet,
    Wasm2SelectError,
>)
    ensures
        match r {
            Ok(set) => selected(*selection, namespace.wasm2_targets()) == Ok::<
                Set<Seq<char>>,
                SelectErrorView,
            >(set@),
            Err(e) => selected(*selection, namespace.wasm2_targets()) == Err::<
                Set<Seq<char>>,
                SelectErrorView,
            >(e.cause@),
        },
{
    let eligible = find_eligible(&namespace.ffi_definitions);
    let mut targets = namespace_targets(namespace);
    restrict_targets(&mut targets, &eligible);
    select_wasm2(selection, targets.as_slice())
}

} // verus!
