//! Flags: switches in a flow description that keep or drop groups of nodes.

use crate::text::{copy_items, has_text, views};
use vstd::prelude::*;

verus! {

/// A named switch over a group of nodes. A node that is listed by a flag
/// that is off, and by no flag that is on, is left out of the compiled flow.
#[derive(Debug, PartialEq, Eq)]
pub struct Flag {
    pub id: String,
    pub toggle: bool,
    pub nodes: Vec<String>,
}

/// The mathematical value of a [`Flag`].
pub struct FlagView {
    pub id: Seq<char>,
    pub toggle: bool,
    pub nodes: Seq<Seq<char>>,
}

impl View for Flag {
    type V = FlagView;

    open spec fn view(&self) -> FlagView {
        FlagView { id: self.id@, toggle: self.toggle, nodes: views(self.nodes@) }
    }
}

impl Clone for Flag {
    fn clone(&self) -> (r: Self)
        ensures
            r@ == self@,
    {
        Flag { id: self.id.clone(), toggle: self.toggle, nodes: copy_items(&self.nodes) }
    }
}

/// Whether some flag of `flags` in state `toggle` lists `node`.
pub open spec fn listed(flags: Seq<FlagView>, toggle: bool, node: Seq<char>) -> bool {
    exists|i: int|
        0 <= i < flags.len() && (#[trigger] flags[i]).toggle == toggle && flags[i].nodes.contains(
            node,
        )
}

/// Whether `flags` remove `node`: a flag that is off lists it and no flag
/// that is on does.
pub open spec fn removes(flags: Seq<FlagView>, node: Seq<char>) -> bool {
    listed(flags, false, node) && !listed(flags, true, node)
}

/// The nodes that `flags` remove.
pub open spec fn removed_nodes(flags: Option<Seq<FlagView>>) -> Set<Seq<char>> {
    match flags {
        Some(f) => Set::new(|node: Seq<char>| removes(f, node)),
        None => Set::empty(),
    }
}

/// Whether a flag of `flags` in state `toggle` lists `node`.
fn is_listed(flags: &Vec<Flag>, toggle: bool, node: &String) -> (r: bool)
    ensures
        r == listed(views(flags@), toggle, node@),
{
    let mut i: usize = 0;
    while i < flags.len()
        invariant
            i <= flags@.len(),
            forall|j: int|
                0 <= j < i ==> !((#[trigger] views(flags@)[j]).toggle == toggle && views(
                    flags@,
                )[j].nodes.contains(node@)),
        decreases flags@.len() - i,
    {
        assert(views(flags@)[i as int] == flags@[i as int]@);
        if flags[i].toggle == toggle && has_text(&flags[i].nodes, node) {
            return true;
        }
        i += 1;
    }
    false
}

/// Collects the nodes that `flags` remove. The list may name a node more
/// than once.
pub fn get_nodes_to_remove(flags: &Vec<Flag>) -> (r: Vec<String>)
    ensures
        forall|node: Seq<char>| views(r@).contains(node) <==> removes(views(flags@), node),
{
    let mut out: Vec<String> = Vec::new();
    let mut i: usize = 0;
    while i < flags.len()
        invariant
            i <= flags@.len(),
            forall|node: Seq<char>| #[trigger]
                views(out@).contains(node) ==> removes(views(flags@), node),
            forall|j: int, node: Seq<char>|
                0 <= j < i && !(#[trigger] views(flags@)[j]).toggle && #[trigger] views(
                    flags@,
                )[j].nodes.contains(node) && !listed(views(flags@), true, node) ==> views(
                    out@,
                ).contains(node),
        decreases flags@.len() - i,
    {
        let ghost fv = views(flags@);
        assert(fv[i as int] == flags@[i as int]@);
        if !flags[i].toggle {
            let nodes = &flags[i].nodes;
            let mut k: usize = 0;
            while k < nodes.len()
                invariant
                    i < flags@.len(),
                    fv == views(flags@),
                    fv[i as int] == flags@[i as int]@,
                    !flags@[i as int].toggle,
                    nodes == &flags@[i as int].nodes,
                    k <= nodes@.len(),
                    forall|node: Seq<char>| #[trigger]
                        views(out@).contains(node) ==> removes(fv, node),
                    forall|j: int, node: Seq<char>|
                        0 <= j < i && !(#[trigger] fv[j]).toggle && #[trigger] fv[j].nodes.contains(
                            node,
                        ) && !listed(fv, true, node) ==> views(out@).contains(node),
                    forall|m: int|
                        0 <= m < k && !listed(fv, true, #[trigger] views(nodes@)[m]) ==> views(
                            out@,
                        ).contains(views(nodes@)[m]),
                decreases nodes@.len() - k,
            {
                let ghost before = out@;
                if !is_listed(flags, true, &nodes[k]) {
                    let name = nodes[k].clone();
                    proof {
                        crate::text::lemma_views_push(before, name);
                        assert(views(nodes@)[k as int] == name@);
                        assert(fv[i as int].nodes.contains(name@));
                        assert(listed(fv, false, name@));
                        assert forall|node: Seq<char>| #[trigger]
                            views(before.push(name)).contains(node) implies removes(fv, node) by {
                            let w = choose|w: int|
                                0 <= w < views(before.push(name)).len() && views(
                                    before.push(name),
                                )[w] == node;
                            if w < before.len() {
                                assert(views(before)[w] == node);
                                assert(views(before).contains(node));
                            }
                        }
                        assert forall|node: Seq<char>| #[trigger]
                            views(before).contains(node) implies views(before.push(name)).contains(
                            node,
                        ) by {
                            let w = choose|w: int|
                                0 <= w < views(before).len() && views(before)[w] == node;
                            assert(views(before.push(name))[w] == node);
                        }
                        assert(views(before.push(name))[before.len() as int] == name@);
                    }
                    out.push(name);
                }
                k += 1;
            }
            proof {
                assert forall|node: Seq<char>| #[trigger]
                    fv[i as int].nodes.contains(node) && !listed(fv, true, node) implies views(
                    out@,
                ).contains(node) by {
                    let m = choose|m: int|
                        0 <= m < fv[i as int].nodes.len() && fv[i as int].nodes[m] == node;
                    assert(views(nodes@)[m] == node);
                }
            }
        }
        i += 1;
    }
    proof {
        let fv = views(flags@);
        assert forall|node: Seq<char>| removes(fv, node) implies views(out@).contains(node) by {
            let j = choose|j: int|
                0 <= j < fv.len() && (#[trigger] fv[j]).toggle == false && fv[j].nodes.contains(
                    node,
                );
            assert(!fv[j].toggle && fv[j].nodes.contains(node));
        }
    }
    out
}

} // verus!
