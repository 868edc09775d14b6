//! A namespace of the general UniFFI pipeline, as far as a selection reads it.

use vstd::prelude::*;

use crate::jspi::select::{select, selected};
use crate::jspi::selection::{JspiSelection, SelectError, SelectErrorView};
use crate::jspi::target::{
    callable_views, export_views, target_views, CallableView, Export, ExportView, Target,
    TargetView,
};
use crate::name_set::NameSet;

verus! {

/// A type at the FFI, without what it refers to.
#[derive(Clone, Copy, Debug, PartialEq, Eq, Structural)]
pub enum FfiType {
    UInt8,
    Int8,
    UInt16,
    Int16,
    UInt32,
    Int32,
    UInt64,
    Int64,
    Float32,
    Float64,
    RustBuffer,
    ForeignBytes,
    Function,
    Struct,
    Handle,
    RustCallStatus,
    Reference,
    MutReference,
    VoidPointer,
}

/// A function that the Rust library exports.
#[derive(Debug)]
pub struct FfiFunction {
    pub name: String,
    pub arguments: Vec<FfiType>,
    pub return_type: Option<FfiType>,
}

#[derive(Debug)]
pub enum FfiDefinition {
    RustFunction(FfiFunction),
    FunctionType,
    Struct,
}

#[derive(Debug)]
pub struct AsyncData {
    pub ffi_rust_future_poll: String,
}

#[derive(Clone, Copy, Debug, PartialEq, Eq, Structural)]
pub enum CallableKind {
    Function,
    Method,
    Constructor { primary: bool },
    VTableMethod,
}

#[derive(Debug)]
pub struct Callable {
    pub name: String,
    pub async_data: Option<AsyncData>,
    pub kind: CallableKind,
    pub ffi_func: String,
}

/// The methods that stand for built-in traits.
#[derive(Debug)]
pub struct UniffiTraitMethods {
    pub debug_fmt: Option<Callable>,
    pub display_fmt: Option<Callable>,
    pub eq_eq: Option<Callable>,
    pub eq_ne: Option<Callable>,
    pub hash_hash: Option<Callable>,
    pub ord_cmp: Option<Callable>,
}

#[derive(Clone, Copy, Debug, PartialEq, Eq, Structural)]
pub enum ObjectImpl {
    Struct,
    Trait,
    CallbackTrait,
}

#[derive(Debug)]
pub struct Interface {
    pub name: String,
    pub constructors: Vec<Callable>,
    pub methods: Vec<Callable>,
    pub uniffi_trait_methods: UniffiTraitMethods,
    pub imp: ObjectImpl,
}

#[derive(Debug)]
pub struct Record {
    pub name: String,
    pub constructors: Vec<Callable>,
    pub methods: Vec<Callable>,
    pub uniffi_trait_methods: UniffiTraitMethods,
}

#[derive(Debug)]
pub struct Enum {
    pub name: String,
    pub constructors: Vec<Callable>,
    pub methods: Vec<Callable>,
    pub uniffi_trait_methods: UniffiTraitMethods,
}

#[derive(Debug)]
pub struct CallbackInterface {
    pub name: String,
}

#[derive(Debug)]
pub enum TypeDefinition {
    Interface(Interface),
    Record(Record),
    Enum(Enum),
    CallbackInterface(CallbackInterface),
    /// A type without callables of its own.
    Other,
}

#[derive(Debug)]
pub struct Namespace {
    pub functions: Vec<Callable>,
    pub type_definitions: Vec<TypeDefinition>,
    pub ffi_definitions: Vec<FfiDefinition>,
}

impl ObjectImpl {
    /// Whether foreign code can implement the object.
    pub fn has_callback_interface(&self) -> (r: bool)
        ensures
            r == (*self == ObjectImpl::CallbackTrait),
    {
        matches!(self, ObjectImpl::CallbackTrait)
    }
}

impl Callable {
    pub open spec fn export(self) -> ExportView {
        ExportView {
            symbol: self.ffi_func@,
            poll: match self.async_data {
                Some(data) => Some(data.ffi_rust_future_poll@),
                None => None,
            },
        }
    }

    /// The callable as something to select by `name`.
    pub open spec fn member(self, name: Seq<char>, has_callbacks: bool) -> CallableView {
        CallableView { name, has_callbacks, exports: seq![self.export()] }
    }

    /// The name that selects a constructor: `constructor` for the primary one.
    pub open spec fn constructor_name(self) -> Seq<char> {
        if self.kind == (CallableKind::Constructor { primary: true }) {
            "constructor"@
        } else {
            self.name@
        }
    }
}

pub open spec fn callable_exports(callables: Seq<Callable>) -> Seq<ExportView> {
    callables.map_values(|c: Callable| c.export())
}

pub open spec fn constructor_members(
    constructors: Seq<Callable>,
    has_callbacks: bool,
) -> Seq<CallableView> {
    constructors.map_values(|c: Callable| c.member(c.constructor_name(), has_callbacks))
}

pub open spec fn method_members(methods: Seq<Callable>, has_callbacks: bool) -> Seq<CallableView> {
    methods.map_values(|c: Callable| c.member(c.name@, has_callbacks))
}

pub open spec fn if_any(callable: Option<Callable>) -> Seq<Callable> {
    match callable {
        Some(c) => seq![c],
        None => Seq::empty(),
    }
}

impl UniffiTraitMethods {
    pub open spec fn callables(self) -> Seq<Callable> {
        if_any(self.display_fmt) + if_any(self.debug_fmt) + if_any(self.eq_eq) + if_any(self.eq_ne)
            + if_any(self.hash_hash) + if_any(self.ord_cmp)
    }
}

/// A type as something to select: whole, with the methods of built-in traits, or by member,
/// without them.
pub open spec fn type_target(
    name: Seq<char>,
    constructors: Seq<Callable>,
    methods: Seq<Callable>,
    traits: UniffiTraitMethods,
    has_callbacks: bool,
) -> TargetView {
    TargetView {
        name,
        has_callbacks,
        members: constructor_members(constructors, has_callbacks) + method_members(
            methods,
            has_callbacks,
        ),
        exports: callable_exports(constructors + methods + traits.callables()),
    }
}

impl TypeDefinition {
    pub open spec fn target(self) -> Option<TargetView> {
        match self {
            TypeDefinition::Interface(i) => Some(
                type_target(
                    i.name@,
                    i.constructors@,
                    i.methods@,
                    i.uniffi_trait_methods,
                    i.imp == ObjectImpl::CallbackTrait,
                ),
            ),
            TypeDefinition::Record(r) => Some(
                type_target(
                    r.name@,
                    r.constructors@,
                    r.methods@,
                    r.uniffi_trait_methods,
                    false,
                ),
            ),
            TypeDefinition::Enum(e) => Some(
                type_target(
                    e.name@,
                    e.constructors@,
                    e.methods@,
                    e.uniffi_trait_methods,
                    false,
                ),
            ),
            TypeDefinition::CallbackInterface(c) => Some(
                TargetView {
                    name: c.name@,
                    has_callbacks: true,
                    members: Seq::empty(),
                    exports: Seq::empty(),
                },
            ),
            TypeDefinition::Other => None,
        }
    }
}

/// A top-level function as something to select.
pub open spec fn function_target(function: Callable) -> TargetView {
    TargetView {
        name: function.name@,
        has_callbacks: false,
        members: Seq::empty(),
        exports: seq![function.export()],
    }
}

pub open spec fn function_targets(functions: Seq<Callable>) -> Seq<TargetView> {
    functions.map_values(|f: Callable| function_target(f))
}

pub open spec fn type_targets(definitions: Seq<TypeDefinition>) -> Seq<TargetView> {
    definitions.filter_map(|d: TypeDefinition| d.target())
}

impl Namespace {
    /// What a selection ranges over: the functions, then the types.
    pub open spec fn targets(self) -> Seq<TargetView> {
        function_targets(self.functions@) + type_targets(self.type_definitions@)
    }
}

/// Appends the export of `callable` to `out`.
fn push_export<'a>(callable: &'a Callable, out: &mut Vec<Export<'a>>)
    ensures
        export_views(final(out)@) == export_views(old(out)@).push(callable.export()),
{
    let poll = match &callable.async_data {
        Some(data) => Some(data.ffi_rust_future_poll.as_str()),
        None => None,
    };
    let ghost before = out@;
    out.push((callable.ffi_func.as_str(), poll));
    assert(export_views(out@) =~= export_views(before).push(callable.export()));
}

fn push_exports<'a>(callables: &'a Vec<Callable>, out: &mut Vec<Export<'a>>)
    ensures
        export_views(final(out)@) == export_views(old(out)@) + callable_exports(callables@),
{
    let ghost before = export_views(out@);
    let ghost exports = callable_exports(callables@);
    let mut i: usize = 0;
    assert(before + exports.take(0) =~= before);
    while i < callables.len()
        invariant
            i <= callables@.len(),
            before == export_views(old(out)@),
            exports == callable_exports(callables@),
            export_views(out@) == before + exports.take(i as int),
        decreases callables@.len() - i,
    {
        push_export(&callables[i], out);
        assert(before + exports.take(i + 1) =~= (before + exports.take(i as int)).push(
            exports[i as int],
        ));
        i += 1;
    }
    assert(exports.take(i as int) =~= exports);
}

fn push_any_export<'a>(callable: &'a Option<Callable>, out: &mut Vec<Export<'a>>)
    ensures
        export_views(final(out)@) == export_views(old(out)@) + callable_exports(if_any(*callable)),
{
    let ghost before = export_views(out@);
    match callable {
        Some(c) => {
            push_export(c, out);
            assert(before.push(c.export()) =~= before + callable_exports(if_any(*callable)));
        },
        None => {
            assert(before =~= before + callable_exports(if_any(*callable)));
        },
    }
}

proof fn lemma_callable_exports_add(a: Seq<Callable>, b: Seq<Callable>)
    ensures
        callable_exports(a + b) == callable_exports(a) + callable_exports(b),
{
    assert(callable_exports(a + b) =~= callable_exports(a) + callable_exports(b));
}

/// The exports of a type, one kind of callable after the other.
proof fn lemma_type_exports(
    constructors: Seq<Callable>,
    methods: Seq<Callable>,
    traits: UniffiTraitMethods,
)
    ensures
        callable_exports(constructors + methods + traits.callables()) == Seq::<ExportView>::empty()
            + callable_exports(constructors) + callable_exports(methods) + callable_exports(
            if_any(traits.display_fmt),
        ) + callable_exports(if_any(traits.debug_fmt)) + callable_exports(if_any(traits.eq_eq))
            + callable_exports(if_any(traits.eq_ne)) + callable_exports(if_any(traits.hash_hash))
            + callable_exports(if_any(traits.ord_cmp)),
{
    let display = if_any(traits.display_fmt);
    let debug = if_any(traits.debug_fmt);
    let eq = if_any(traits.eq_eq);
    let ne = if_any(traits.eq_ne);
    let hash = if_any(traits.hash_hash);
    let order = if_any(traits.ord_cmp);
    let own = constructors + methods;
    assert(own + traits.callables() =~= own + display + debug + eq + ne + hash + order);
    assert(Seq::<ExportView>::empty() + callable_exports(constructors) =~= callable_exports(
        constructors,
    ));
    lemma_callable_exports_add(constructors, methods);
    lemma_callable_exports_add(own, display);
    lemma_callable_exports_add(own + display, debug);
    lemma_callable_exports_add(own + display + debug, eq);
    lemma_callable_exports_add(own + display + debug + eq, ne);
    lemma_callable_exports_add(own + display + debug + eq + ne, hash);
    lemma_callable_exports_add(own + display + debug + eq + ne + hash, order);
}

impl<'a> Target<'a> {
    /// The target of one callable.
    pub fn callable(name: &'a str, callable: &'a Callable, has_callbacks: bool) -> (r: Self)
        ensures
            r.callable_view() == callable.member(name@, has_callbacks),
            r.members@.len() == 0,
    {
        let mut exports: Vec<Export<'a>> = Vec::new();
        assert(export_views(exports@) =~= Seq::<ExportView>::empty());
        push_export(callable, &mut exports);
        assert(export_views(exports@) =~= seq![callable.export()]);
        Target { name, has_callbacks, members: Vec::new(), exports }
    }

    /// The target of a type, with its constructors and methods as members.
    pub fn type_(
        name: &'a str,
        constructors: &'a Vec<Callable>,
        methods: &'a Vec<Callable>,
        traits: &'a UniffiTraitMethods,
        has_callbacks: bool,
    ) -> (r: Self)
        ensures
            r@ == type_target(name@, constructors@, methods@, *traits, has_callbacks),
            forall|i: int|
                0 <= i < r.members@.len() ==> (#[trigger] r.members@[i]).members@.len() == 0,
    {
        let mut exports: Vec<Export<'a>> = Vec::new();
        assert(export_views(exports@) =~= Seq::<ExportView>::empty());
        push_exports(constructors, &mut exports);
        push_exports(methods, &mut exports);
        push_any_export(&traits.display_fmt, &mut exports);
        push_any_export(&traits.debug_fmt, &mut exports);
        push_any_export(&traits.eq_eq, &mut exports);
        push_any_export(&traits.eq_ne, &mut exports);
        push_any_export(&traits.hash_hash, &mut exports);
        push_any_export(&traits.ord_cmp, &mut exports);
        proof {
            lemma_type_exports(constructors@, methods@, *traits);
        }
        let members = type_members(constructors, methods, has_callbacks);
        Target { name, has_callbacks, members, exports }
    }
}

/// The constructors, then the methods of a type as its members.
fn type_members<'a>(
    constructors: &'a Vec<Callable>,
    methods: &'a Vec<Callable>,
    has_callbacks: bool,
) -> (r: Vec<Target<'a>>)
    ensures
        callable_views(r@) == constructor_members(constructors@, has_callbacks) + method_members(
            methods@,
            has_callbacks,
        ),
        forall|i: int| 0 <= i < r@.len() ==> (#[trigger] r@[i]).members@.len() == 0,
{
    let mut members: Vec<Target<'a>> = Vec::new();
    let ghost first = constructor_members(constructors@, has_callbacks);
    let ghost second = method_members(methods@, has_callbacks);
    let mut i: usize = 0;
    assert(callable_views(members@) =~= first.take(0));
    while i < constructors.len()
        invariant
            i <= constructors@.len(),
            first == constructor_members(constructors@, has_callbacks),
            callable_views(members@) == first.take(i as int),
            forall|k: int|
                0 <= k < members@.len() ==> (#[trigger] members@[k]).members@.len() == 0,
        decreases constructors@.len() - i,
    {
        let c = &constructors[i];
        let name = match c.kind {
            CallableKind::Constructor { primary: true } => "constructor",
            _ => c.name.as_str(),
        };
        let ghost before = members@;
        members.push(Target::callable(name, c, has_callbacks));
        assert(callable_views(members@) =~= callable_views(before).push(
            members@.last().callable_view(),
        ));
        assert(callable_views(members@) =~= first.take(i + 1));
        i += 1;
    }
    assert(callable_views(members@) =~= first + second.take(0));
    i = 0;
    while i < methods.len()
        invariant
            i <= methods@.len(),
            second == method_members(methods@, has_callbacks),
            callable_views(members@) == first + second.take(i as int),
            forall|k: int|
                0 <= k < members@.len() ==> (#[trigger] members@[k]).members@.len() == 0,
        decreases methods@.len() - i,
    {
        let c = &methods[i];
        let ghost before = members@;
        members.push(Target::callable(c.name.as_str(), c, has_callbacks));
        assert(callable_views(members@) =~= callable_views(before).push(
            members@.last().callable_view(),
        ));
        assert(callable_views(members@) =~= first + second.take(i + 1));
        i += 1;
    }
    assert(second.take(i as int) =~= second);
    members
}

/// What a selection ranges over in `namespace`.
pub fn namespace_targets<'a>(namespace: &'a Namespace) -> (r: Vec<Target<'a>>)
    ensures
        target_views(r@) == namespace.targets(),
        forall|i: int, j: int|
            0 <= i < r@.len() && 0 <= j < r@[i].members@.len() ==> (
            #[trigger] r@[i].members@[j]).members@.len() == 0,
{
    let mut targets: Vec<Target<'a>> = Vec::new();
    let ghost first = function_targets(namespace.functions@);
    let mut i: usize = 0;
    assert(target_views(targets@) =~= first.take(0));
    while i < namespace.functions.len()
        invariant
            i <= namespace.functions@.len(),
            first == function_targets(namespace.functions@),
            target_views(targets@) == first.take(i as int),
            forall|x: int, y: int|
                0 <= x < targets@.len() && 0 <= y < targets@[x].members@.len() ==> (
                #[trigger] targets@[x].members@[y]).members@.len() == 0,
        decreases namespace.functions@.len() - i,
    {
        let f = &namespace.functions[i];
        let ghost before = targets@;
        let target = Target::callable(f.name.as_str(), f, false);
        assert(target@.callable() == target.callable_view());
        assert(target@ == function_target(*f)) by {
            assert(target@.members =~= Seq::<CallableView>::empty());
        }
        targets.push(target);
        assert(target_views(targets@) =~= target_views(before).push(target@));
        assert(target_views(targets@) =~= first.take(i + 1));
        i += 1;
    }
    assert(first.take(i as int) =~= first);

    let ghost definitions = namespace.type_definitions@;
    let mut j: usize = 0;
    assert(definitions.take(0) =~= Seq::<TypeDefinition>::empty());
    assert(target_views(targets@) =~= first + type_targets(definitions.take(0))) by {
        reveal_with_fuel(Seq::filter_map, 2);
    }
    while j < namespace.type_definitions.len()
        invariant
            j <= namespace.type_definitions@.len(),
            definitions == namespace.type_definitions@,
            target_views(targets@) == first + type_targets(definitions.take(j as int)),
            forall|x: int, y: int|
                0 <= x < targets@.len() && 0 <= y < targets@[x].members@.len() ==> (
                #[trigger] targets@[x].members@[y]).members@.len() == 0,
        decreases namespace.type_definitions@.len() - j,
    {
        let definition = &namespace.type_definitions[j];
        let ghost before = targets@;
        let ghost so_far = type_targets(definitions.take(j as int));
        proof {
            reveal_with_fuel(Seq::filter_map, 2);
            assert(definitions.take(j + 1).drop_last() =~= definitions.take(j as int));
        }
        let target = match definition {
            TypeDefinition::Interface(i) => Some(
                Target::type_(
                    i.name.as_str(),
                    &i.constructors,
                    &i.methods,
                    &i.uniffi_trait_methods,
                    i.imp.has_callback_interface(),
                ),
            ),
            TypeDefinition::Record(r) => Some(
                Target::type_(
                    r.name.as_str(),
                    &r.constructors,
                    &r.methods,
                    &r.uniffi_trait_methods,
                    false,
                ),
            ),
            TypeDefinition::Enum(e) => Some(
                Target::type_(
                    e.name.as_str(),
                    &e.constructors,
                    &e.methods,
                    &e.uniffi_trait_methods,
                    false,
                ),
            ),
            TypeDefinition::CallbackInterface(c) => {
                let target = Target {
                    name: c.name.as_str(),
                    has_callbacks: true,
                    members: Vec::new(),
                    exports: Vec::new(),
                };
                assert(target@.members =~= Seq::<CallableView>::empty());
                assert(target@.exports =~= Seq::<ExportView>::empty());
                Some(target)
            },
            TypeDefinition::Other => None,
        };
        if let Some(target) = target {
            assert(definition.target() == Some(target@));
            targets.push(target);
            assert(target_views(targets@) =~= target_views(before).push(target@));
            assert(target_views(targets@) =~= first + so_far.push(target@));
        }
        j += 1;
    }
    assert(definitions.take(j as int) =~= definitions);
    targets
}

/// The symbols that `selection` selects in `namespace`. Only a web build selects any.
pub fn resolve(selection: &JspiSelection, namespace: &Namespace, is_web: bool) -> (r: Result<
    NameSet,
    SelectError,
>)
    ensures
        !is_web ==> (r matches Ok(set) && set@ == Set::<Seq<char>>::empty()),
        is_web ==> match r {
            Ok(set) => selected(*selection, namespace.targets()) == Ok::<
                Set<Seq<char>>,
                SelectErrorView,
            >(set@),
            Err(e) => selected(*selection, namespace.targets()) == Err::<
                Set<Seq<char>>,
                SelectErrorView,
            >(e@),
        },
{
    let targets = namespace_targets(namespace);
    select(selection, targets.as_slice(), is_web)
}

} // verus!
