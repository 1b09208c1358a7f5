//! What holds of the pass for every configuration and every module.

use vstd::prelude::*;
use crate::ast::{IdView, JSXAttrOrSpreadView, JSXOpeningElementView, ModuleItemView};
use crate::config::{InjectAttrConfigView, InjectAttrRule};
use crate::transform::{
    apply_refs, folded_element, folded_items, inject_all, injected_attr, items_refs, resolved,
    ImportedCompRefView, InjectPkgView,
};

verus! {

/// The attributes that a list of configured attributes makes, in the order
/// of the list.
pub open spec fn injected_attrs(cfgs: Seq<InjectAttrConfigView>) -> Seq<JSXAttrOrSpreadView> {
    cfgs.map_values(|c: InjectAttrConfigView| JSXAttrOrSpreadView::Injected(injected_attr(c)))
}

/// Whether every configured attribute of a list has the rule `rule`.
pub open spec fn all_have_rule(cfgs: Seq<InjectAttrConfigView>, rule: InjectAttrRule) -> bool {
    forall|i: int| 0 <= i < cfgs.len() ==> (#[trigger] cfgs[i]).rule == rule
}

/// Attributes that are all prepended end up in front of the attributes
/// that were there, in the reverse of their configured order: each one
/// lands ahead of the one before. So `[A, B]` gives `[B, A, ..attrs]`.
pub proof fn lemma_prepend_order(attrs: Seq<JSXAttrOrSpreadView>, cfgs: Seq<InjectAttrConfigView>)
    requires
        all_have_rule(cfgs, InjectAttrRule::Prepend),
    ensures
        inject_all(attrs, cfgs) == injected_attrs(cfgs).reverse() + attrs,
    decreases cfgs.len(),
{
    if cfgs.len() == 0 {
        assert(injected_attrs(cfgs).reverse() + attrs =~= attrs);
    } else {
        lemma_prepend_order(attrs, cfgs.drop_last());
        assert(cfgs.last().rule == InjectAttrRule::Prepend);
        assert(inject_all(attrs, cfgs) =~= injected_attrs(cfgs).reverse() + attrs) by {
            let before = injected_attrs(cfgs.drop_last()).reverse();
            let all = injected_attrs(cfgs).reverse();
            assert(all.len() == before.len() + 1);
            assert(all[0] == injected_attrs(cfgs)[cfgs.len() - 1]);
            assert forall|k: int| 0 <= k < before.len() implies all[k + 1] == before[k] by {
                assert(all[k + 1] == injected_attrs(cfgs)[cfgs.len() - 2 - k]);
                assert(before[k] == injected_attrs(cfgs.drop_last())[cfgs.len() - 2 - k]);
            }
        }
    }
}

/// Attributes that are all appended end up behind the attributes that were
/// there, in their configured order. So `[A, B]` gives `[..attrs, A, B]`.
pub proof fn lemma_append_order(attrs: Seq<JSXAttrOrSpreadView>, cfgs: Seq<InjectAttrConfigView>)
    requires
        all_have_rule(cfgs, InjectAttrRule::Append),
    ensures
        inject_all(attrs, cfgs) == attrs + injected_attrs(cfgs),
    decreases cfgs.len(),
{
    if cfgs.len() == 0 {
        assert(attrs + injected_attrs(cfgs) =~= attrs);
    } else {
        lemma_append_order(attrs, cfgs.drop_last());
        assert(cfgs.last().rule == InjectAttrRule::Append);
        assert(inject_all(attrs, cfgs) =~= attrs + injected_attrs(cfgs)) by {
            assert(injected_attrs(cfgs).drop_last() =~= injected_attrs(cfgs.drop_last()));
        }
    }
}

/// An element that no reference of the table is made for comes back as it
/// went in: one whose tag name stands for no binding, and one for whose
/// binding and member accesses the table has no reference that agrees in
/// both.
pub proof fn lemma_unmatched_element_unchanged(
    refs: Seq<ImportedCompRefView>,
    el: JSXOpeningElementView,
)
    requires
        resolved(el.name) matches Some((id, sub)) ==> forall|i: int|
            0 <= i < refs.len() ==> !((#[trigger] refs[i]).id == id && refs[i].sub == sub),
    ensures
        folded_element(refs, el) == el,
{
    match resolved(el.name) {
        Some((id, sub)) => {
            lemma_no_matching_ref(el.attrs, refs, id, sub);
        },
        None => {},
    }
}

/// A table without a reference for a binding and its accesses leaves an
/// attribute list as it is.
proof fn lemma_no_matching_ref(
    attrs: Seq<JSXAttrOrSpreadView>,
    refs: Seq<ImportedCompRefView>,
    id: IdView,
    sub: Seq<Seq<char>>,
)
    requires
        forall|i: int|
            0 <= i < refs.len() ==> !((#[trigger] refs[i]).id == id && refs[i].sub == sub),
    ensures
        apply_refs(attrs, refs, id, sub) == attrs,
    decreases refs.len(),
{
    if refs.len() > 0 {
        assert(!(refs[refs.len() - 1].id == id && refs[refs.len() - 1].sub == sub));
        lemma_no_matching_ref(attrs, refs.drop_last(), id, sub);
    }
}

/// A tag that names a binding of another scope than every reference of the
/// table comes back as it went in, whatever the name of the binding: a
/// local declaration that reuses the name of an import is not the import.
pub proof fn lemma_shadowing_binding_unchanged(
    refs: Seq<ImportedCompRefView>,
    el: JSXOpeningElementView,
)
    requires
        resolved(el.name) matches Some((id, sub)) ==> forall|i: int|
            0 <= i < refs.len() ==> (#[trigger] refs[i]).id.ctxt != id.ctxt,
    ensures
        folded_element(refs, el) == el,
{
    lemma_unmatched_element_unchanged(refs, el);
}

/// The table of a body that is two bodies put together is the two tables
/// put together.
pub proof fn lemma_items_refs_concat(
    pkgs: Seq<InjectPkgView>,
    a: Seq<ModuleItemView>,
    b: Seq<ModuleItemView>,
)
    ensures
        items_refs(pkgs, a + b) == items_refs(pkgs, a) + items_refs(pkgs, b),
    decreases b.len(),
{
    if b.len() == 0 {
        assert(a + b =~= a);
        assert(items_refs(pkgs, a) + items_refs(pkgs, b) =~= items_refs(pkgs, a));
    } else {
        lemma_items_refs_concat(pkgs, a, b.drop_last());
        assert((a + b).drop_last() =~= a + b.drop_last());
        assert((a + b).last() == b.last());
        assert(items_refs(pkgs, a + b) =~= items_refs(pkgs, a) + items_refs(pkgs, b));
    }
}

/// The table is made of the whole body before any element is folded: an
/// item that is no import can be moved to any place of the body, before
/// or behind the import declarations, and both the table and what the
/// item folds to stay the same. So an element that stands before the
/// import of its component receives what it would receive behind it.
pub proof fn lemma_forward_reference(
    pkgs: Seq<InjectPkgView>,
    items: Seq<ModuleItemView>,
    from: int,
    to: int,
)
    requires
        0 <= from < items.len(),
        0 <= to < items.len(),
        items[from] is Other,
    ensures
        items_refs(pkgs, items.remove(from).insert(to, items[from])) == items_refs(pkgs, items),
        folded_items(pkgs, items.remove(from).insert(to, items[from]))[to] == folded_items(
            pkgs,
            items,
        )[from],
{
    let item = items[from];
    let rest = items.remove(from);
    let moved = rest.insert(to, item);
    lemma_items_refs_without(pkgs, items, from);
    assert(moved.remove(to) =~= rest);
    lemma_items_refs_without(pkgs, moved, to);
}

/// An item that is no import adds nothing to the table.
proof fn lemma_items_refs_without(pkgs: Seq<InjectPkgView>, items: Seq<ModuleItemView>, at: int)
    requires
        0 <= at < items.len(),
        items[at] is Other,
    ensures
        items_refs(pkgs, items.remove(at)) == items_refs(pkgs, items),
{
    let head = items.take(at);
    let tail = items.skip(at + 1);
    let one = seq![items[at]];
    assert(items =~= head + one + tail);
    assert(items.remove(at) =~= head + tail);
    lemma_items_refs_concat(pkgs, head, one);
    lemma_items_refs_concat(pkgs, head + one, tail);
    lemma_items_refs_concat(pkgs, head, tail);
    assert(one.drop_last().len() == 0);
    assert(items_refs(pkgs, one.drop_last()) =~= Seq::<ImportedCompRefView>::empty());
    assert(one.last() is Other);
    assert(items_refs(pkgs, one) =~= Seq::<ImportedCompRefView>::empty());
    assert(items_refs(pkgs, head) + items_refs(pkgs, one) =~= items_refs(pkgs, head));
}

} // verus!
