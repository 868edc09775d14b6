//! What is declared does not depend on the order in which it is defined.

use vstd::multiset::Multiset;
use vstd::prelude::*;
use vstd::seq_lib::lemma_multiset_commutative;

use crate::ffi::definitions::{
    callback_index, callback_part, declared, declares_callback, declares_struct, methods,
    module_names, needs_callback, needs_struct, own_callbacks, struct_definitions, struct_index,
    struct_part, DefinitionView, Traffic,
};
use crate::ffi::laws::lemma_callback_index;
use crate::ffi::roles::{FfiDefinition, FfiField};
use crate::jspi::laws::lemma_filter;

verus! {

/// Those of `definitions` that can be declared: all but the functions.
pub open spec fn declarable(definitions: Seq<FfiDefinition>) -> Seq<FfiDefinition> {
    definitions.filter(|d: FfiDefinition| !(d is Function))
}

/// Whether two definitions are callbacks of one name, or structs of one name.
pub open spec fn clash(a: FfiDefinition, b: FfiDefinition) -> bool {
    match (a, b) {
        (FfiDefinition::CallbackFunction(x), FfiDefinition::CallbackFunction(y)) => x.name@
            == y.name@,
        (FfiDefinition::Struct(x), FfiDefinition::Struct(y)) => x.name@ == y.name@,
        _ => false,
    }
}

/// Whether no two callbacks share a name, and no two structs.
pub open spec fn names_are_distinct(definitions: Seq<FfiDefinition>) -> bool {
    forall|i: int, j: int|
        0 <= i < j < definitions.len() ==> !clash(
            #[trigger] definitions[i],
            #[trigger] definitions[j],
        )
}

proof fn lemma_declarable_contains(definitions: Seq<FfiDefinition>, d: FfiDefinition)
    ensures
        declarable(definitions).contains(d) <==> definitions.contains(d) && !(d is Function),
{
    lemma_filter(definitions, |d: FfiDefinition| !(d is Function), d);
}

proof fn lemma_declarable_step(definitions: Seq<FfiDefinition>)
    requires
        definitions.len() > 0,
    ensures
        declarable(definitions) == if definitions.last() is Function {
            declarable(definitions.drop_last())
        } else {
            declarable(definitions.drop_last()).push(definitions.last())
        },
{
    reveal(Seq::filter);
}

/// Functions have no part in whether names are distinct.
proof fn lemma_distinct_declarable(definitions: Seq<FfiDefinition>)
    ensures
        names_are_distinct(definitions) <==> names_are_distinct(declarable(definitions)),
    decreases definitions.len(),
{
    reveal(Seq::filter);
    if definitions.len() > 0 {
        let fewer = definitions.drop_last();
        let last = definitions.last();
        let kept = declarable(definitions);
        let before = declarable(fewer);
        lemma_distinct_declarable(fewer);
        lemma_declarable_step(definitions);
        assert(forall|i: int| 0 <= i < fewer.len() ==> definitions[i] == fewer[i]);
        if names_are_distinct(definitions) {
            assert(names_are_distinct(fewer));
            if !(last is Function) {
                assert forall|i: int, j: int| 0 <= i < j < kept.len() implies !clash(
                    #[trigger] kept[i],
                    #[trigger] kept[j],
                ) by {
                    if j < before.len() {
                        assert(!clash(before[i], before[j]));
                    } else {
                        lemma_declarable_contains(fewer, before[i]);
                        assert(before.contains(before[i]));
                        let k = choose|k: int| 0 <= k < fewer.len() && fewer[k] == before[i];
                        assert(!clash(definitions[k], definitions[definitions.len() - 1]));
                    }
                }
            }
        }
        if names_are_distinct(kept) {
            assert(names_are_distinct(before)) by {
                assert(forall|i: int| 0 <= i < before.len() ==> kept[i] == before[i]);
            }
            assert forall|i: int, j: int| 0 <= i < j < definitions.len() implies !clash(
                #[trigger] definitions[i],
                #[trigger] definitions[j],
            ) by {
                if j < fewer.len() {
                    assert(!clash(fewer[i], fewer[j]));
                } else if !(last is Function) && !(fewer[i] is Function) {
                    lemma_declarable_contains(fewer, fewer[i]);
                    assert(fewer.contains(fewer[i]));
                    let k = choose|k: int| 0 <= k < before.len() && before[k] == fewer[i];
                    assert(!clash(kept[k], kept[before.len() as int]));
                }
            }
        }
    }
}

/// Reordering keeps names distinct.
proof fn lemma_distinct_reordered(a: Seq<FfiDefinition>, b: Seq<FfiDefinition>)
    requires
        a.to_multiset() == b.to_multiset(),
        names_are_distinct(a),
        forall|d: FfiDefinition| a.contains(d) ==> !(d is Function),
    ensures
        names_are_distinct(b),
{
    a.to_multiset_ensures();
    b.to_multiset_ensures();
    assert forall|i: int, j: int| 0 <= i < a.len() && 0 <= j < a.len() && i != j implies a[i]
        != a[j] by {
        assert(a.contains(a[i]));
        if i < j {
            assert(!clash(a[i], a[j]));
        } else {
            assert(!clash(a[j], a[i]));
        }
    }
    a.lemma_multiset_has_no_duplicates();
    b.lemma_multiset_has_no_duplicates_conv();
    assert forall|i: int, j: int| 0 <= i < j < b.len() implies !clash(
        #[trigger] b[i],
        #[trigger] b[j],
    ) by {
        assert(b.contains(b[i]) && b.contains(b[j]));
        assert(a.to_multiset().count(b[i]) > 0 && a.to_multiset().count(b[j]) > 0);
        let k = choose|k: int| 0 <= k < a.len() && a[k] == b[i];
        let m = choose|m: int| 0 <= m < a.len() && a[m] == b[j];
        if k < m {
            assert(!clash(a[k], a[m]));
        } else if m < k {
            assert(!clash(a[m], a[k]));
        }
    }
}

/// With distinct names, a definition is the one that counts of its name.
proof fn lemma_only_of_its_name(definitions: Seq<FfiDefinition>, i: int)
    requires
        names_are_distinct(definitions),
        0 <= i < definitions.len(),
    ensures
        definitions[i] matches FfiDefinition::CallbackFunction(cb) ==> callback_index(
            definitions,
            cb.name@,
        ) == Some(i),
        definitions[i] matches FfiDefinition::Struct(st) ==> struct_index(definitions, st.name@)
            == Some(i),
    decreases definitions.len(),
{
    if i < definitions.len() - 1 {
        let fewer = definitions.drop_last();
        assert(names_are_distinct(fewer)) by {
            assert(forall|k: int| 0 <= k < fewer.len() ==> definitions[k] == fewer[k]);
        }
        lemma_only_of_its_name(fewer, i);
        assert(fewer[i] == definitions[i]);
        assert(!clash(definitions[i], definitions[definitions.len() - 1]));
    }
}

/// Whether `a` and `b` have the same callbacks and structs, of distinct names.
spec fn same_declarable(a: Seq<FfiDefinition>, b: Seq<FfiDefinition>) -> bool {
    &&& names_are_distinct(a)
    &&& names_are_distinct(b)
    &&& forall|d: FfiDefinition|
        !(d is Function) ==> (#[trigger] a.contains(d) <==> b.contains(d))
}

proof fn lemma_same_callback(a: Seq<FfiDefinition>, b: Seq<FfiDefinition>, name: Seq<char>)
    requires
        same_declarable(a, b),
    ensures
        match callback_index(a, name) {
            Some(i) => {
                &&& 0 <= i < a.len()
                &&& callback_index(b, name) matches Some(j) && 0 <= j < b.len() && a[i] == b[j]
            },
            None => callback_index(b, name) is None,
        },
{
    lemma_callback_index(a, name);
    lemma_callback_index(b, name);
    if let Some(i) = callback_index(a, name) {
        assert(a.contains(a[i]));
        let j = choose|j: int| 0 <= j < b.len() && b[j] == a[i];
        lemma_only_of_its_name(b, j);
    } else if let Some(j) = callback_index(b, name) {
        assert(b.contains(b[j]));
        assert(a.contains(b[j]));
        let i = choose|i: int| 0 <= i < a.len() && a[i] == b[j];
        lemma_only_of_its_name(a, i);
    }
}

proof fn lemma_same_fields(
    fields: Seq<FfiField>,
    struct_module: Seq<char>,
    a: Seq<FfiDefinition>,
    b: Seq<FfiDefinition>,
)
    requires
        same_declarable(a, b),
    ensures
        methods(fields, struct_module, a, module_names(a)) == methods(
            fields,
            struct_module,
            b,
            module_names(b),
        ),
        own_callbacks(fields, struct_module, a, module_names(a)) == own_callbacks(
            fields,
            struct_module,
            b,
            module_names(b),
        ),
    decreases fields.len(),
{
    if fields.len() > 0 {
        lemma_same_fields(fields.drop_last(), struct_module, a, b);
        if fields.last().type_ is Callback {
            lemma_same_callback(a, b, fields.last().type_->Callback_0@);
        }
    }
}

/// What `definition` adds to the structs that are declared for `definitions` with distinct names.
spec fn struct_share(
    definition: FfiDefinition,
    definitions: Seq<FfiDefinition>,
    traffic: Traffic,
) -> Multiset<DefinitionView> {
    match definition {
        FfiDefinition::Struct(st) => if needs_struct(st, traffic) {
            own_callbacks(
                st.fields@,
                definition.module_name(),
                definitions,
                module_names(definitions),
            ).push(
                DefinitionView::Struct {
                    ffi_struct: st,
                    methods: methods(
                        st.fields@,
                        definition.module_name(),
                        definitions,
                        module_names(definitions),
                    ),
                },
            ).to_multiset()
        } else {
            Multiset::empty()
        },
        _ => Multiset::empty(),
    }
}

/// What `definition` adds to the callbacks that are declared where names are distinct.
spec fn callback_share(definition: FfiDefinition, traffic: Traffic) -> Multiset<DefinitionView> {
    match definition {
        FfiDefinition::CallbackFunction(callback) => if needs_callback(callback, traffic) {
            let module_ident = definition.module_name();
            if callback.is_function_literal {
                Multiset::singleton(DefinitionView::FunctionLiteral { module_ident, callback })
            } else {
                Multiset::singleton(DefinitionView::CallbackFunction { module_ident, callback })
            }
        } else {
            Multiset::empty()
        },
        _ => Multiset::empty(),
    }
}

spec fn share(
    definition: FfiDefinition,
    definitions: Seq<FfiDefinition>,
    traffic: Traffic,
) -> Multiset<DefinitionView> {
    struct_share(definition, definitions, traffic).add(callback_share(definition, traffic))
}

/// What the definitions in `part` add to what is declared for `definitions`.
spec fn shares(
    part: Seq<FfiDefinition>,
    definitions: Seq<FfiDefinition>,
    traffic: Traffic,
) -> Multiset<DefinitionView>
    decreases part.len(),
{
    if part.len() == 0 {
        Multiset::empty()
    } else {
        shares(part.drop_last(), definitions, traffic).add(
            share(part.last(), definitions, traffic),
        )
    }
}

proof fn lemma_declared_is_shares(
    n: nat,
    definitions: Seq<FfiDefinition>,
    traffic: Traffic,
)
    requires
        n <= definitions.len(),
        names_are_distinct(definitions),
    ensures
        struct_part(n, definitions, module_names(definitions), traffic).to_multiset().add(
            callback_part(n, definitions, module_names(definitions), traffic).to_multiset(),
        ) == shares(definitions.take(n as int), definitions, traffic),
    decreases n,
{
    let modules = module_names(definitions);
    if n == 0 {
        struct_part(n, definitions, modules, traffic).to_multiset_ensures();
        callback_part(n, definitions, modules, traffic).to_multiset_ensures();
        assert(struct_part(n, definitions, modules, traffic).to_multiset().add(
            callback_part(n, definitions, modules, traffic).to_multiset(),
        ) =~= Multiset::empty());
    } else {
        let i = n - 1;
        let d = definitions[i];
        let structs = struct_part(i as nat, definitions, modules, traffic);
        let callbacks = callback_part(i as nat, definitions, modules, traffic);
        lemma_declared_is_shares(i as nat, definitions, traffic);
        lemma_only_of_its_name(definitions, i);
        assert(definitions.take(n as int).drop_last() =~= definitions.take(i));
        assert(definitions.take(n as int).last() == d);
        assert(modules[i] == d.module_name());
        let more_structs = struct_part(n, definitions, modules, traffic);
        let more_callbacks = callback_part(n, definitions, modules, traffic);
        if declares_struct(definitions, traffic, i) {
            lemma_multiset_commutative(structs, struct_definitions(i, definitions, modules));
        } else {
            assert(struct_share(d, definitions, traffic) == Multiset::<DefinitionView>::empty());
        }
        assert(more_structs.to_multiset() =~= structs.to_multiset().add(
            struct_share(d, definitions, traffic),
        ));
        callbacks.to_multiset_ensures();
        assert(more_callbacks.to_multiset() =~= callbacks.to_multiset().add(
            callback_share(d, traffic),
        ));
        assert(more_structs.to_multiset().add(more_callbacks.to_multiset())
            =~= structs.to_multiset().add(callbacks.to_multiset()).add(
            share(d, definitions, traffic),
        ));
    }
}

/// Functions add nothing.
proof fn lemma_shares_of_declarable(
    part: Seq<FfiDefinition>,
    definitions: Seq<FfiDefinition>,
    traffic: Traffic,
)
    ensures
        shares(declarable(part), definitions, traffic) == shares(part, definitions, traffic),
    decreases part.len(),
{
    reveal(Seq::filter);
    if part.len() > 0 {
        let fewer = part.drop_last();
        lemma_shares_of_declarable(fewer, definitions, traffic);
        lemma_declarable_step(part);
        if part.last() is Function {
            assert(shares(part, definitions, traffic) =~= shares(fewer, definitions, traffic));
        } else {
            assert(declarable(part).drop_last() =~= declarable(fewer));
        }
    } else {
        assert(declarable(part) =~= part);
    }
}

proof fn lemma_shares_remove(
    part: Seq<FfiDefinition>,
    i: int,
    definitions: Seq<FfiDefinition>,
    traffic: Traffic,
)
    requires
        0 <= i < part.len(),
    ensures
        shares(part, definitions, traffic) == shares(part.remove(i), definitions, traffic).add(
            share(part[i], definitions, traffic),
        ),
    decreases part.len(),
{
    let fewer = part.drop_last();
    if i == part.len() - 1 {
        assert(part.remove(i) =~= fewer);
    } else {
        lemma_shares_remove(fewer, i, definitions, traffic);
        assert(part.remove(i).drop_last() =~= fewer.remove(i));
        assert(part.remove(i).last() == part.last());
        assert(shares(part, definitions, traffic) =~= shares(
            part.remove(i),
            definitions,
            traffic,
        ).add(share(part[i], definitions, traffic)));
    }
}

/// The order of the definitions does not matter to what they add.
proof fn lemma_shares_reordered(
    a: Seq<FfiDefinition>,
    b: Seq<FfiDefinition>,
    definitions: Seq<FfiDefinition>,
    traffic: Traffic,
)
    requires
        a.to_multiset() == b.to_multiset(),
    ensures
        shares(a, definitions, traffic) == shares(b, definitions, traffic),
    decreases a.len(),
{
    a.to_multiset_ensures();
    b.to_multiset_ensures();
    if a.len() > 0 {
        let last = a.last();
        assert(a.contains(a[a.len() - 1]));
        assert(b.to_multiset().count(last) > 0);
        let i = choose|i: int| 0 <= i < b.len() && b[i] == last;
        assert(a.remove(a.len() - 1) =~= a.drop_last());
        assert(a.drop_last().to_multiset() =~= b.remove(i).to_multiset());
        lemma_shares_reordered(a.drop_last(), b.remove(i), definitions, traffic);
        lemma_shares_remove(b, i, definitions, traffic);
    }
}

/// A definition adds the same among the same definitions.
proof fn lemma_shares_among(
    part: Seq<FfiDefinition>,
    a: Seq<FfiDefinition>,
    b: Seq<FfiDefinition>,
    traffic: Traffic,
)
    requires
        same_declarable(a, b),
    ensures
        shares(part, a, traffic) == shares(part, b, traffic),
    decreases part.len(),
{
    if part.len() > 0 {
        lemma_shares_among(part.drop_last(), a, b, traffic);
        if let FfiDefinition::Struct(st) = part.last() {
            lemma_same_fields(st.fields@, part.last().module_name(), a, b);
        }
    }
}

/// Where no two callbacks share a name and no two structs, what is declared does not depend on the
/// order of the definitions, nor on the functions among them.
pub proof fn law_order_of_definitions_does_not_matter(
    a: Seq<FfiDefinition>,
    b: Seq<FfiDefinition>,
    traffic: Traffic,
)
    requires
        names_are_distinct(a),
        declarable(a).to_multiset() == declarable(b).to_multiset(),
    ensures
        declared(a, module_names(a), traffic).to_multiset() == declared(
            b,
            module_names(b),
            traffic,
        ).to_multiset(),
{
    let kept_a = declarable(a);
    let kept_b = declarable(b);
    lemma_distinct_declarable(a);
    lemma_distinct_declarable(b);
    assert forall|d: FfiDefinition| kept_a.contains(d) implies !(d is Function) by {
        lemma_declarable_contains(a, d);
    }
    lemma_distinct_reordered(kept_a, kept_b);
    assert forall|d: FfiDefinition| !(d is Function) implies (#[trigger] a.contains(d)
        <==> b.contains(d)) by {
        lemma_declarable_contains(a, d);
        lemma_declarable_contains(b, d);
        kept_a.to_multiset_ensures();
        kept_b.to_multiset_ensures();
        assert(kept_a.contains(d) <==> kept_a.to_multiset().count(d) > 0);
        assert(kept_b.contains(d) <==> kept_b.to_multiset().count(d) > 0);
    }
    lemma_declared_is_shares(a.len(), a, traffic);
    lemma_declared_is_shares(b.len(), b, traffic);
    assert(a.take(a.len() as int) =~= a);
    assert(b.take(b.len() as int) =~= b);
    lemma_shares_of_declarable(a, a, traffic);
    lemma_shares_of_declarable(b, b, traffic);
    lemma_shares_reordered(kept_a, kept_b, a, traffic);
    lemma_shares_among(kept_b, a, b, traffic);
    lemma_multiset_commutative(
        struct_part(a.len(), a, module_names(a), traffic),
        callback_part(a.len(), a, module_names(a), traffic),
    );
    lemma_multiset_commutative(
        struct_part(b.len(), b, module_names(b), traffic),
        callback_part(b.len(), b, module_names(b), traffic),
    );
}

/// Whether a component with the traffic `more` does all that one with the traffic `less` does.
pub open spec fn at_least(more: Traffic, less: Traffic) -> bool {
    &&& less.has_async_calls ==> more.has_async_calls
    &&& less.has_callbacks ==> more.has_callbacks
    &&& less.has_async_callbacks ==> more.has_async_callbacks
}

proof fn lemma_more_traffic(
    n: nat,
    definitions: Seq<FfiDefinition>,
    modules: Seq<Seq<char>>,
    less: Traffic,
    more: Traffic,
)
    requires
        n <= definitions.len(),
        at_least(more, less),
    ensures
        struct_part(n, definitions, modules, less).to_multiset().subset_of(
            struct_part(n, definitions, modules, more).to_multiset(),
        ),
        callback_part(n, definitions, modules, less).to_multiset().subset_of(
            callback_part(n, definitions, modules, more).to_multiset(),
        ),
    decreases n,
{
    if n > 0 {
        let i = n - 1;
        lemma_more_traffic(i as nat, definitions, modules, less, more);
        let own = struct_definitions(i, definitions, modules);
        lemma_multiset_commutative(struct_part(i as nat, definitions, modules, less), own);
        lemma_multiset_commutative(struct_part(i as nat, definitions, modules, more), own);
        callback_part(i as nat, definitions, modules, less).to_multiset_ensures();
        callback_part(i as nat, definitions, modules, more).to_multiset_ensures();
        assert(declares_struct(definitions, less, i) ==> declares_struct(definitions, more, i));
        assert(declares_callback(definitions, less, i) ==> declares_callback(
            definitions,
            more,
            i,
        ));
    }
}

/// A component that does more across the FFI has everything declared that one that does less has.
pub proof fn law_more_traffic_declares_no_less(
    definitions: Seq<FfiDefinition>,
    modules: Seq<Seq<char>>,
    less: Traffic,
    more: Traffic,
)
    requires
        at_least(more, less),
    ensures
        declared(definitions, modules, less).to_multiset().subset_of(
            declared(definitions, modules, more).to_multiset(),
        ),
{
    let n = definitions.len();
    lemma_more_traffic(n, definitions, modules, less, more);
    lemma_multiset_commutative(
        struct_part(n, definitions, modules, less),
        callback_part(n, definitions, modules, less),
    );
    lemma_multiset_commutative(
        struct_part(n, definitions, modules, more),
        callback_part(n, definitions, modules, more),
    );
}

} // verus!
