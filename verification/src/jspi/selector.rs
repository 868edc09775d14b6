//! What a selector means among targets.

use vstd::prelude::*;
use vstd::string::*;

use crate::case::{to_upper_camel_case, upper_camel_case};
use crate::jspi::selection::{SelectError, SelectErrorView};
use crate::jspi::target::{
    callable_views, picked_views, target_views, CallableView, Target, TargetView,
};
use crate::text::{blank, find_char, is_blank, texts};

verus! {

/// Whether two names are the same up to their case convention.
pub open spec fn same_name(left: Seq<char>, right: Seq<char>) -> bool {
    upper_camel_case(left) == upper_camel_case(right)
}

/// Whether two names are the same, whatever their case convention.
pub fn normalized_eq(left: &str, right: &str) -> (r: bool)
    ensures
        r == same_name(left@, right@),
{
    to_upper_camel_case(left).eq(&to_upper_camel_case(right))
}

/// A selector taken apart: `owner`, or `owner.member`.
#[derive(Debug)]
pub struct Selector<'a> {
    pub owner: &'a str,
    pub member: Option<&'a str>,
}

pub struct SelectorView {
    pub owner: Seq<char>,
    pub member: Option<Seq<char>>,
}

impl<'a> View for Selector<'a> {
    type V = SelectorView;

    open spec fn view(&self) -> SelectorView {
        SelectorView {
            owner: self.owner@,
            member: match self.member {
                Some(member) => Some(member@),
                None => None,
            },
        }
    }
}

/// What `selector` names, or `None` where it has more than two parts or a blank one.
pub open spec fn parsed(selector: Seq<char>) -> Option<SelectorView> {
    match selector.index_of_first('.') {
        None => if blank(selector) {
            None
        } else {
            Some(SelectorView { owner: selector, member: None })
        },
        Some(dot) => {
            let owner = selector.take(dot);
            let member = selector.skip(dot + 1);
            if blank(owner) || blank(member) || member.contains('.') {
                None
            } else {
                Some(SelectorView { owner, member: Some(member) })
            }
        },
    }
}

/// Takes a selector apart.
pub fn parse_selector<'a>(selector: &'a str) -> (r: Option<Selector<'a>>)
    ensures
        match r {
            Some(s) => parsed(selector@) == Some(s@),
            None => parsed(selector@) is None,
        },
{
    proof {
        selector@.index_of_first_ensures('.');
    }
    match find_char(selector, '.') {
        None => if is_blank(selector) {
            None
        } else {
            Some(Selector { owner: selector, member: None })
        },
        Some(dot) => {
            let n: usize = selector.unicode_len();
            let owner = selector.substring_char(0, dot);
            let member = selector.substring_char(dot + 1, n);
            assert(selector@.index_of_first('.') == Some(dot as int)) by {
                let first = selector@.index_of_first('.')->0;
                if first < dot {
                    assert(selector@.take(dot as int)[first] == '.');
                }
            }
            assert(owner@ =~= selector@.take(dot as int));
            assert(member@ =~= selector@.skip(dot + 1));
            if is_blank(owner) || is_blank(member) || find_char(member, '.').is_some() {
                None
            } else {
                Some(Selector { owner, member: Some(member) })
            }
        },
    }
}

/// Whether `i` is the one position at which `flags` holds.
pub open spec fn is_sole(flags: Seq<bool>, i: int) -> bool {
    &&& 0 <= i < flags.len()
    &&& flags[i]
    &&& forall|j: int| 0 <= j < flags.len() && flags[j] ==> j == i
}

/// The one position at which `flags` holds, or `None` where there is none or several.
pub open spec fn sole(flags: Seq<bool>) -> Option<int> {
    if exists|i: int| is_sole(flags, i) {
        Some(choose|i: int| is_sole(flags, i))
    } else {
        None
    }
}

proof fn lemma_sole(flags: Seq<bool>, i: int)
    requires
        is_sole(flags, i),
    ensures
        sole(flags) == Some(i),
{
    let chosen = choose|j: int| is_sole(flags, j);
    assert(is_sole(flags, chosen));
    assert(flags[i]);
}

/// The position that [`sole`] gives.
pub fn find_sole(flags: &Vec<bool>) -> (r: Option<usize>)
    ensures
        match r {
            Some(i) => sole(flags@) == Some(i as int) && is_sole(flags@, i as int),
            None => sole(flags@) is None,
        },
{
    let mut found: Option<usize> = None;
    let mut i: usize = 0;
    while i < flags.len()
        invariant
            i <= flags@.len(),
            match found {
                Some(k) => k < i && flags@[k as int] && forall|j: int|
                    0 <= j < i && flags@[j] ==> j == k,
                None => forall|j: int| 0 <= j < i ==> !flags@[j],
            },
        decreases flags@.len() - i,
    {
        if flags[i] {
            if let Some(k) = found {
                proof {
                    if exists|s: int| is_sole(flags@, s) {
                        let s = choose|s: int| is_sole(flags@, s);
                        assert(flags@[k as int] && flags@[i as int]);
                        assert(false);
                    }
                }
                return None;
            }
            found = Some(i);
        }
        i += 1;
    }
    proof {
        match found {
            Some(k) => {
                lemma_sole(flags@, k as int);
            },
            None => {
                if exists|s: int| is_sole(flags@, s) {
                    let s = choose|s: int| is_sole(flags@, s);
                    assert(flags@[s]);
                }
            },
        }
    }
    found
}

/// Where `hits` holds for a target that exports something.
pub open spec fn callable_hits(targets: Seq<TargetView>, hits: Seq<bool>) -> Seq<bool> {
    Seq::new(targets.len(), |i: int| hits[i] && targets[i].exports.len() > 0)
}

/// Which of `targets` the owner part of `selector` means, when `hits` says whose names match it.
/// A data-only type has nothing to select, so the sole match that exports something wins over it.
pub open spec fn owner_choice(
    selector: Seq<char>,
    owner: Seq<char>,
    targets: Seq<TargetView>,
    hits: Seq<bool>,
) -> Result<int, SelectErrorView> {
    if !hits.contains(true) {
        Err(SelectErrorView::UnknownOwner { selector, owner })
    } else {
        match sole(callable_hits(targets, hits)) {
            Some(i) => Ok(i),
            None => match sole(hits) {
                Some(i) => Ok(i),
                None => Err(SelectErrorView::AmbiguousOwner { selector, owner }),
            },
        }
    }
}

fn any_hit(hits: &Vec<bool>) -> (r: bool)
    ensures
        r == hits@.contains(true),
{
    let mut i: usize = 0;
    while i < hits.len()
        invariant
            i <= hits@.len(),
            forall|j: int| 0 <= j < i ==> !hits@[j],
        decreases hits@.len() - i,
    {
        if hits[i] {
            assert(hits@[i as int] == true);
            return true;
        }
        i += 1;
    }
    false
}

/// The target that [`owner_choice`] picks.
pub fn choose_owner(selector: &str, owner: &str, targets: &[Target<'_>], hits: &Vec<bool>) -> (r:
    Result<usize, SelectError>)
    requires
        hits@.len() == targets@.len(),
    ensures
        match r {
            Ok(i) => {
                &&& i < targets@.len()
                &&& owner_choice(selector@, owner@, target_views(targets@), hits@) == Ok::<
                    int,
                    SelectErrorView,
                >(i as int)
            },
            Err(e) => owner_choice(selector@, owner@, target_views(targets@), hits@) == Err::<
                int,
                SelectErrorView,
            >(e@),
        },
{
    if !any_hit(hits) {
        return Err(
            SelectError::UnknownOwner { selector: selector.to_owned(), owner: owner.to_owned() },
        );
    }
    let mut callable: Vec<bool> = Vec::new();
    let mut i: usize = 0;
    while i < targets.len()
        invariant
            i <= targets@.len() == hits@.len(),
            callable@.len() == i,
            forall|j: int|
                0 <= j < i ==> callable@[j] == (hits@[j] && targets@[j].exports@.len() > 0),
        decreases targets@.len() - i,
    {
        callable.push(hits[i] && targets[i].exports.len() > 0);
        i += 1;
    }
    assert(callable@ =~= callable_hits(target_views(targets@), hits@));
    if let Some(k) = find_sole(&callable) {
        return Ok(k);
    }
    match find_sole(hits) {
        Some(k) => Ok(k),
        None => Err(
            SelectError::AmbiguousOwner { selector: selector.to_owned(), owner: owner.to_owned() },
        ),
    }
}

/// Which member of a type the member part of `selector` means, when `hits` says whose names match
/// it.
pub open spec fn member_choice(
    selector: Seq<char>,
    owner: Seq<char>,
    member: Seq<char>,
    hits: Seq<bool>,
) -> Result<int, SelectErrorView> {
    if !hits.contains(true) {
        Err(SelectErrorView::UnknownMember { selector, owner, member })
    } else {
        match sole(hits) {
            Some(i) => Ok(i),
            None => Err(SelectErrorView::AmbiguousMember { selector }),
        }
    }
}

/// The member that [`member_choice`] picks.
pub fn choose_member(selector: &str, owner: &str, member: &str, hits: &Vec<bool>) -> (r: Result<
    usize,
    SelectError,
>)
    ensures
        match r {
            Ok(i) => i < hits@.len() && member_choice(selector@, owner@, member@, hits@) == Ok::<
                int,
                SelectErrorView,
            >(i as int),
            Err(e) => member_choice(selector@, owner@, member@, hits@) == Err::<
                int,
                SelectErrorView,
            >(e@),
        },
{
    if !any_hit(hits) {
        return Err(
            SelectError::UnknownMember {
                selector: selector.to_owned(),
                owner: owner.to_owned(),
                member: member.to_owned(),
            },
        );
    }
    match find_sole(hits) {
        Some(k) => Ok(k),
        None => Err(SelectError::AmbiguousMember { selector: selector.to_owned() }),
    }
}

/// Which of `callables` have the name `name`.
pub open spec fn name_hits(callables: Seq<CallableView>, name: Seq<char>) -> Seq<bool> {
    Seq::new(callables.len(), |i: int| same_name(callables[i].name, name))
}

/// The targets without their members.
pub open spec fn top_level(targets: Seq<TargetView>) -> Seq<CallableView> {
    targets.map_values(|t: TargetView| t.callable())
}

fn find_names(targets: &[Target<'_>], name: &str) -> (r: Vec<bool>)
    ensures
        r@ == name_hits(callable_views(targets@), name@),
{
    let mut hits: Vec<bool> = Vec::new();
    let mut i: usize = 0;
    while i < targets.len()
        invariant
            i <= targets@.len(),
            hits@.len() == i,
            forall|j: int| 0 <= j < i ==> hits@[j] == same_name(targets@[j].name@, name@),
        decreases targets@.len() - i,
    {
        hits.push(normalized_eq(targets[i].name, name));
        i += 1;
    }
    hits
}

/// What `selector`, taken apart into `parts`, selects of its owner `target`, when `hits` says which
/// members match its member part. What may call back cannot be selected.
pub open spec fn callable_choice(
    selector: Seq<char>,
    parts: SelectorView,
    target: TargetView,
    hits: Seq<bool>,
) -> Result<CallableView, SelectErrorView> {
    let picked = match parts.member {
        None => Ok(target.callable()),
        Some(member) => match member_choice(selector, parts.owner, member, hits) {
            Err(e) => Err(e),
            Ok(j) => Ok(target.members[j]),
        },
    };
    match picked {
        Err(e) => Err(e),
        Ok(c) => if c.has_callbacks {
            Err(SelectErrorView::CallbackCapable { selector })
        } else {
            Ok(c)
        },
    }
}

/// Whether `chosen` is `target` itself, or the member of it that the member part of a selector
/// means.
pub open spec fn is_chosen(
    selector: Seq<char>,
    parts: SelectorView,
    target: Target<'_>,
    hits: Seq<bool>,
    chosen: Target<'_>,
) -> bool {
    match parts.member {
        None => chosen == target,
        Some(member) => member_choice(selector, parts.owner, member, hits) matches Ok(j) && 0 <= j
            < target.members@.len() && chosen == target.members@[j],
    }
}

/// The target that [`callable_choice`] picks.
pub fn choose_callable<'a>(
    selector: &str,
    parts: &Selector<'_>,
    target: &'a Target<'a>,
    hits: &Vec<bool>,
) -> (r: Result<&'a Target<'a>, SelectError>)
    requires
        parts.member is Some ==> hits@.len() == target.members@.len(),
    ensures
        match r {
            Ok(t) => callable_choice(selector@, parts@, target@, hits@) == Ok::<
                CallableView,
                SelectErrorView,
            >(t.callable_view()) && is_chosen(selector@, parts@, *target, hits@, *t),
            Err(e) => callable_choice(selector@, parts@, target@, hits@) == Err::<
                CallableView,
                SelectErrorView,
            >(e@),
        },
{
    let mut picked: &'a Target<'a> = target;
    if let Some(member) = parts.member {
        match choose_member(selector, parts.owner, member, hits) {
            Ok(j) => {
                picked = &target.members[j];
            },
            Err(e) => {
                return Err(e);
            },
        }
    }
    if picked.has_callbacks {
        return Err(SelectError::CallbackCapable { selector: selector.to_owned() });
    }
    Ok(picked)
}

/// Which members of `target` match the member part of a selector. None, where it has no such part.
pub open spec fn member_hits(parts: SelectorView, target: TargetView) -> Seq<bool> {
    match parts.member {
        Some(member) => name_hits(target.members, member),
        None => Seq::empty(),
    }
}

/// What `selector` selects among `targets`.
pub open spec fn resolved(selector: Seq<char>, targets: Seq<TargetView>) -> Result<
    CallableView,
    SelectErrorView,
> {
    match parsed(selector) {
        None => Err(SelectErrorView::Invalid { selector }),
        Some(parts) => match owner_choice(
            selector,
            parts.owner,
            targets,
            name_hits(top_level(targets), parts.owner),
        ) {
            Err(e) => Err(e),
            Ok(i) => callable_choice(selector, parts, targets[i], member_hits(parts, targets[i])),
        },
    }
}

/// Whether `chosen` is the one of `targets`, or of their members, that `selector` names.
pub open spec fn names_target(
    selector: Seq<char>,
    targets: Seq<Target<'_>>,
    chosen: Target<'_>,
) -> bool {
    let views = target_views(targets);
    parsed(selector) matches Some(parts) && owner_choice(
        selector,
        parts.owner,
        views,
        name_hits(top_level(views), parts.owner),
    ) matches Ok(i) && 0 <= i < targets.len() && is_chosen(
        selector,
        parts,
        targets[i],
        member_hits(parts, views[i]),
        chosen,
    )
}

/// The target or member that `selector` names.
pub fn resolve_selector<'a>(selector: &str, targets: &'a [Target<'a>]) -> (r: Result<
    &'a Target<'a>,
    SelectError,
>)
    ensures
        match r {
            Ok(t) => resolved(selector@, target_views(targets@)) == Ok::<
                CallableView,
                SelectErrorView,
            >(t.callable_view()) && names_target(selector@, targets@, *t),
            Err(e) => resolved(selector@, target_views(targets@)) == Err::<
                CallableView,
                SelectErrorView,
            >(e@),
        },
{
    let ghost views = target_views(targets@);
    let parts = match parse_selector(selector) {
        Some(parts) => parts,
        None => {
            return Err(SelectError::Invalid { selector: selector.to_owned() });
        },
    };
    let owners = find_names(targets, parts.owner);
    assert(owners@ =~= name_hits(top_level(views), parts.owner@));
    let i: usize = match choose_owner(selector, parts.owner, targets, &owners) {
        Ok(i) => i,
        Err(e) => {
            return Err(e);
        },
    };
    let members = match parts.member {
        Some(member) => find_names(targets[i].members.as_slice(), member),
        None => Vec::new(),
    };
    assert(members@ =~= member_hits(parts@, views[i as int]));
    choose_callable(selector, &parts, &targets[i], &members)
}

/// What selectors select when they are taken in order: all of it, or what came before the first
/// that fails, with the failure.
pub struct Picks {
    pub chosen: Seq<CallableView>,
    pub error: Option<SelectErrorView>,
}

/// What `selectors` select among `targets`, in order.
pub open spec fn resolved_all(selectors: Seq<Seq<char>>, targets: Seq<TargetView>) -> Picks
    decreases selectors.len(),
{
    if selectors.len() == 0 {
        Picks { chosen: Seq::empty(), error: None }
    } else {
        let before = resolved_all(selectors.drop_last(), targets);
        if before.error is Some {
            before
        } else {
            match resolved(selectors.last(), targets) {
                Ok(c) => Picks { chosen: before.chosen.push(c), error: None },
                Err(e) => Picks { chosen: before.chosen, error: Some(e) },
            }
        }
    }
}

/// Once a selector fails, those after it change nothing.
proof fn lemma_error_is_final(selectors: Seq<Seq<char>>, targets: Seq<TargetView>, n: int)
    requires
        0 <= n <= selectors.len(),
        resolved_all(selectors.take(n), targets).error is Some,
    ensures
        resolved_all(selectors, targets) == resolved_all(selectors.take(n), targets),
    decreases selectors.len() - n,
{
    if n == selectors.len() {
        assert(selectors.take(n) =~= selectors);
    } else {
        assert(selectors.take(n + 1).drop_last() =~= selectors.take(n));
        lemma_error_is_final(selectors, targets, n + 1);
    }
}

/// Appends to `selected` what each of `names` selects, up to the first that fails.
pub fn select_named<'a>(
    names: &[String],
    targets: &'a [Target<'a>],
    selected: &mut Vec<&'a Target<'a>>,
) -> (r: Result<(), SelectError>)
    ensures
        ({
            let picks = resolved_all(texts(names@), target_views(targets@));
            &&& picked_views(final(selected)@) == picked_views(old(selected)@) + picks.chosen
            &&& final(selected)@.len() == old(selected)@.len() + picks.chosen.len()
            &&& old(selected)@ == final(selected)@.take(old(selected)@.len() as int)
            &&& picks.chosen.len() <= names@.len()
            &&& forall|k: int|
                0 <= k < picks.chosen.len() ==> names_target(
                    names@[k]@,
                    targets@,
                    *#[trigger] final(selected)@[old(selected)@.len() + k],
                )
            &&& match r {
                Ok(_) => picks.error is None,
                Err(e) => picks.error == Some(e@),
            }
        }),
{
    let ghost all = texts(names@);
    let ghost views = target_views(targets@);
    let ghost before = picked_views(selected@);
    let mut i: usize = 0;
    assert(all.take(0) =~= Seq::<Seq<char>>::empty());
    assert(before + Seq::<CallableView>::empty() =~= before);
    while i < names.len()
        invariant
            i <= names@.len(),
            all == texts(names@),
            views == target_views(targets@),
            before == picked_views(old(selected)@),
            resolved_all(all.take(i as int), views).error is None,
            picked_views(selected@) == before + resolved_all(all.take(i as int), views).chosen,
            selected@.len() == old(selected)@.len() + i,
            resolved_all(all.take(i as int), views).chosen.len() == i,
            old(selected)@ == selected@.take(old(selected)@.len() as int),
            forall|k: int|
                0 <= k < i ==> names_target(
                    names@[k]@,
                    targets@,
                    *#[trigger] selected@[old(selected)@.len() + k],
                ),
        decreases names@.len() - i,
    {
        assert(all.take(i + 1).drop_last() =~= all.take(i as int));
        let ghost so_far = resolved_all(all.take(i as int), views).chosen;
        match resolve_selector(names[i].as_str(), targets) {
            Ok(target) => {
                let ghost held = selected@;
                selected.push(target);
                assert(picked_views(selected@) =~= picked_views(held).push(target.callable_view()));
                assert(picked_views(selected@) =~= before + so_far.push(target.callable_view()));
            },
            Err(e) => {
                proof {
                    assert(all.take(i + 1).last() == names@[i as int]@);
                    lemma_error_is_final(all, views, i + 1);
                    assert(resolved_all(all, views).chosen == so_far);
                    assert(resolved_all(all, views).error == Some(e@));
                }
                return Err(e);
            },
        }
        i += 1;
    }
    assert(all.take(i as int) =~= all);
    Ok(())
}

} // verus!
