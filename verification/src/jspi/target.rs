//! The callables that a selection ranges over.

use vstd::prelude::*;

verus! {

/// An exported symbol, and the poll symbol that it shares with others when it is `async`.
pub type Export<'a> = (&'a str, Option<&'a str>);

/// A top-level function, a type with its members, or a member.
#[derive(Debug)]
pub struct Target<'a> {
    pub name: &'a str,
    pub has_callbacks: bool,
    pub members: Vec<Target<'a>>,
    pub exports: Vec<Export<'a>>,
}

pub struct ExportView {
    pub symbol: Seq<char>,
    pub poll: Option<Seq<char>>,
}

/// What a selector resolves to.
pub struct CallableView {
    pub name: Seq<char>,
    pub has_callbacks: bool,
    pub exports: Seq<ExportView>,
}

pub struct TargetView {
    pub name: Seq<char>,
    pub has_callbacks: bool,
    pub members: Seq<CallableView>,
    pub exports: Seq<ExportView>,
}

pub open spec fn export_view(export: Export<'_>) -> ExportView {
    ExportView {
        symbol: export.0@,
        poll: match export.1 {
            Some(poll) => Some(poll@),
            None => None,
        },
    }
}

pub open spec fn export_views(exports: Seq<Export<'_>>) -> Seq<ExportView> {
    exports.map_values(|e: Export<'_>| export_view(e))
}

impl<'a> Target<'a> {
    /// The target without its members.
    pub open spec fn callable_view(self) -> CallableView {
        CallableView {
            name: self.name@,
            has_callbacks: self.has_callbacks,
            exports: export_views(self.exports@),
        }
    }
}

impl<'a> View for Target<'a> {
    type V = TargetView;

    open spec fn view(&self) -> TargetView {
        TargetView {
            name: self.name@,
            has_callbacks: self.has_callbacks,
            members: callable_views(self.members@),
            exports: export_views(self.exports@),
        }
    }
}

pub open spec fn callable_views(targets: Seq<Target<'_>>) -> Seq<CallableView> {
    targets.map_values(|t: Target<'_>| t.callable_view())
}

/// The views of targets that are held by reference.
pub open spec fn picked_views(targets: Seq<&Target<'_>>) -> Seq<CallableView> {
    targets.map_values(|t: &Target<'_>| t.callable_view())
}

pub open spec fn target_views(targets: Seq<Target<'_>>) -> Seq<TargetView> {
    targets.map_values(|t: Target<'_>| t@)
}

impl TargetView {
    /// The target without its members.
    pub open spec fn callable(self) -> CallableView {
        CallableView { name: self.name, has_callbacks: self.has_callbacks, exports: self.exports }
    }

    /// What the target offers to be called: its members, or itself where it has none.
    pub open spec fn callables(self) -> Seq<CallableView> {
        if self.members.len() == 0 {
            seq![self.callable()]
        } else {
            self.members
        }
    }
}

/// The exports of all of `callables`, in order.
pub open spec fn all_exports(callables: Seq<CallableView>) -> Seq<ExportView>
    decreases callables.len(),
{
    if callables.len() == 0 {
        Seq::empty()
    } else {
        all_exports(callables.drop_last()) + callables.last().exports
    }
}

/// The callables of all of `targets`, in order.
pub open spec fn all_callables(targets: Seq<TargetView>) -> Seq<CallableView>
    decreases targets.len(),
{
    if targets.len() == 0 {
        Seq::empty()
    } else {
        all_callables(targets.drop_last()) + targets.last().callables()
    }
}

/// Those of `callables` that can suspend.
pub open spec fn without_callbacks(callables: Seq<CallableView>) -> Seq<CallableView> {
    callables.filter(|c: CallableView| !c.has_callbacks)
}

/// Those of `exports` that are polled.
pub open spec fn polled(exports: Seq<ExportView>) -> Seq<ExportView> {
    exports.filter(|e: ExportView| e.poll is Some)
}

} // verus!
