//! Maps that keep the order in which their keys came.

use indexmap::IndexMap;
use std::hash::RandomState;
use vstd::prelude::*;

use crate::legacy::{LegacyNode, LegacyPage};
use crate::scene::{Node, NodeId, Page, PageId};

verus! {

/// A map with an order, of the crate `indexmap`.
#[verifier::external_type_specification]
#[verifier::external_body]
#[verifier::reject_recursive_types(K)]
#[verifier::reject_recursive_types(V)]
#[verifier::reject_recursive_types(S)]
pub struct ExIndexMap<K, V, S>(IndexMap<K, V, S>);

/// The entries of a map of pages, in their order.
pub uninterp spec fn page_entries(m: IndexMap<PageId, Page, RandomState>) -> Seq<(PageId, Page)>;

/// The entries of a map of nodes, in their order.
pub uninterp spec fn node_entries(m: IndexMap<NodeId, Node, RandomState>) -> Seq<(NodeId, Node)>;

/// The entries of a map of pages in an earlier format, in their order.
pub uninterp spec fn legacy_page_entries(m: IndexMap<PageId, LegacyPage, RandomState>) -> Seq<
    (PageId, LegacyPage),
>;

/// The entries of a map of nodes in an earlier format, in their order.
pub uninterp spec fn legacy_node_entries(m: IndexMap<NodeId, LegacyNode, RandomState>) -> Seq<
    (NodeId, LegacyNode),
>;

/// Whether no key occurs twice.
pub open spec fn keys_distinct<V>(entries: Seq<(u128, V)>) -> bool {
    forall|i: int, j: int|
        0 <= i < j < entries.len() ==> (#[trigger] entries[i]).0 != (#[trigger] entries[j]).0
}

/// `entries` with `entry` inserted: in the place of the entry with the same key
/// where there is one, else at the end.
pub open spec fn inserted<V>(entries: Seq<(u128, V)>, entry: (u128, V)) -> Seq<(u128, V)> {
    if exists|i: int| 0 <= i < entries.len() && (#[trigger] entries[i]).0 == entry.0 {
        entries.update(
            choose|i: int| 0 <= i < entries.len() && (#[trigger] entries[i]).0 == entry.0,
            entry,
        )
    } else {
        entries.push(entry)
    }
}

/// The entries of a map into which `entries` were inserted one after the other.
pub open spec fn collected<V>(entries: Seq<(u128, V)>) -> Seq<(u128, V)>
    decreases entries.len(),
{
    if entries.len() == 0 {
        entries
    } else {
        inserted(collected(entries.drop_last()), entries.last())
    }
}

/// Entries with distinct keys all stay, in their order.
pub proof fn lemma_collected_distinct<V>(entries: Seq<(u128, V)>)
    requires
        keys_distinct(entries),
    ensures
        collected(entries) == entries,
    decreases entries.len(),
{
    if entries.len() > 0 {
        let front = entries.drop_last();
        assert(keys_distinct(front)) by {
            assert forall|i: int, j: int| 0 <= i < j < front.len() implies (#[trigger] front[i]).0
                != (#[trigger] front[j]).0 by {
                assert(front[i] == entries[i] && front[j] == entries[j]);
            }
        }
        lemma_collected_distinct(front);
        assert forall|i: int| 0 <= i < front.len() implies (#[trigger] front[i]).0
            != entries.last().0 by {
            assert(front[i] == entries[i]);
            assert(entries.last() == entries[entries.len() - 1]);
        }
        assert(front.push(entries.last()) =~= entries);
    }
}

/// The entries that a list of references refers to.
pub open spec fn dereferenced<V>(refs: Seq<(&u128, &V)>) -> Seq<(u128, V)> {
    refs.map_values(|e: (&u128, &V)| (*e.0, *e.1))
}

/// `IndexMap::iter` walks the entries in their order, each key once.
#[verifier::external_body]
pub(crate) fn iter_pages(m: &IndexMap<PageId, Page>) -> (r: Vec<(&PageId, &Page)>)
    ensures
        dereferenced(r@) == page_entries(*m),
        keys_distinct(dereferenced(r@)),
{
    m.iter().collect()
}

/// `IndexMap::iter` walks the entries in their order, each key once.
#[verifier::external_body]
pub(crate) fn iter_nodes(m: &IndexMap<NodeId, Node>) -> (r: Vec<(&NodeId, &Node)>)
    ensures
        dereferenced(r@) == node_entries(*m),
        keys_distinct(dereferenced(r@)),
{
    m.iter().collect()
}

/// `IndexMap::from_iter` inserts the entries one after the other, each with
/// `IndexMap::insert`.
#[verifier::external_body]
pub(crate) fn collect_pages(entries: Vec<(PageId, Page)>) -> (r: IndexMap<PageId, Page>)
    ensures
        page_entries(r) == collected(entries@),
{
    entries.into_iter().collect()
}

/// `IndexMap::from_iter` inserts the entries one after the other, each with
/// `IndexMap::insert`.
#[verifier::external_body]
pub(crate) fn collect_nodes(entries: Vec<(NodeId, Node)>) -> (r: IndexMap<NodeId, Node>)
    ensures
        node_entries(r) == collected(entries@),
{
    entries.into_iter().collect()
}

/// `IndexMap::into_iter` hands the entries out in their order, each key once.
#[verifier::external_body]
pub(crate) fn take_legacy_pages(m: IndexMap<PageId, LegacyPage>) -> (r: Vec<(PageId, LegacyPage)>)
    ensures
        r@ == legacy_page_entries(m),
        keys_distinct(r@),
{
    m.into_iter().collect()
}

/// `IndexMap::into_iter` hands the entries out in their order, each key once.
#[verifier::external_body]
pub(crate) fn take_legacy_nodes(m: IndexMap<NodeId, LegacyNode>) -> (r: Vec<(NodeId, LegacyNode)>)
    ensures
        r@ == legacy_node_entries(m),
        keys_distinct(r@),
{
    m.into_iter().collect()
}

} // verus!
