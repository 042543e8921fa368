//! Nodes and the arena that owns them.
//!
//! Every parent-to-child edge is an entry of the parent's `children`; every
//! child-to-parent edge is a handle that owns nothing. Nodes live in a
//! `Forest` and are named by `InstanceId`.
//!
//! The arena only grows. A node is never released: a node that is detached
//! and that nobody holds a handle of stays in the arena, and its handle stays
//! valid, until the arena itself is dropped.

use crate::model::{
    attached, children_of, copy_view, detached, fresh_view, has, is_ancestor, parent_of,
    same_links, InstanceId, InstanceView,
};
use crate::model_lemmas::{
    lemma_attached_wf, lemma_detached_wf, lemma_parent_differs, lemma_pushed_wf, lemma_relabel_wf,
};
use crate::text::same_text;
use vstd::prelude::*;

verus! {

/// A node of the hierarchy.
pub struct Instance {
    parent: Option<InstanceId>,
    children: Vec<InstanceId>,
    name: String,
    archivable: bool,
    class_name: String,
}

impl View for Instance {
    type V = InstanceView;

    closed spec fn view(&self) -> InstanceView {
        InstanceView {
            parent: self.parent,
            children: self.children@,
            name: self.name@,
            class_name: self.class_name@,
            archivable: self.archivable,
        }
    }
}

impl Instance {
    fn fresh() -> (node: Instance)
        ensures
            node@ == fresh_view(),
    {
        Instance {
            parent: None,
            children: Vec::new(),
            name: "Instance".to_owned(),
            archivable: true,
            class_name: "Instance".to_owned(),
        }
    }

    /// The type tag.
    pub fn class_name(&self) -> (tag: &str)
        ensures
            tag@ == self@.class_name,
    {
        self.class_name.as_str()
    }

    pub fn set_class_name(&mut self, name: &str)
        ensures
            final(self)@ == (InstanceView { class_name: name@, ..old(self)@ }),
    {
        self.class_name = name.to_owned();
    }

    /// Whether the type tag is exactly `class_name`.
    pub fn is_a(&self, class_name: &str) -> (same: bool)
        ensures
            same == (self@.class_name == class_name@),
    {
        same_text(self.class_name.as_str(), class_name)
    }

    pub fn name(&self) -> (name: &str)
        ensures
            name@ == self@.name,
    {
        self.name.as_str()
    }

    pub fn set_name(&mut self, name: &str)
        ensures
            final(self)@ == (InstanceView { name: name@, ..old(self)@ }),
    {
        self.name = name.to_owned();
    }

    /// Whether the node takes part in saving and replication.
    pub fn archivable(&self) -> (flag: bool)
        ensures
            flag == self@.archivable,
    {
        self.archivable
    }

    pub fn set_archivable(&mut self, archivable: bool)
        ensures
            final(self)@ == (InstanceView { archivable, ..old(self)@ }),
    {
        self.archivable = archivable;
    }

    pub fn parent(&self) -> (parent: Option<InstanceId>)
        ensures
            parent == self@.parent,
    {
        self.parent
    }

    /// The children, in the order in which they were attached.
    pub fn children(&self) -> (children: &[InstanceId])
        ensures
            children@ == self@.children,
    {
        self.children.as_slice()
    }

    pub fn num_children(&self) -> (count: usize)
        ensures
            count == self@.children.len(),
    {
        self.children.len()
    }

    /// Whether `child` is one of the children of this node.
    pub fn contains(&self, child: &InstanceId) -> (found: bool)
        ensures
            found == self@.children.contains(*child),
    {
        let n = self.children.len();
        let mut i: usize = 0;
        while i < n
            invariant
                i <= n,
                n == self.children@.len(),
                forall|k: int| 0 <= k < i ==> self.children@[k] != *child,
            decreases n - i,
        {
            if self.children[i].index == child.index {
                return true;
            }
            i += 1;
        }
        false
    }
}

/// The arena of nodes: what listeners are shown of the hierarchy.
pub struct Forest {
    nodes: Vec<Instance>,
}

impl View for Forest {
    type V = Seq<InstanceView>;

    closed spec fn view(&self) -> Seq<InstanceView> {
        self.nodes@.map_values(|node: Instance| node@)
    }
}

impl Forest {
    /// The invariant of the hierarchy holds of this arena.
    pub open spec fn wf(&self) -> bool {
        crate::model::wf(self@)
    }

    pub fn new() -> (forest: Forest)
        ensures
            forest@ == Seq::<InstanceView>::empty(),
            forest.wf(),
    {
        let forest = Forest { nodes: Vec::new() };
        proof {
            assert(forest@ =~= Seq::<InstanceView>::empty());
            assert(crate::model::ranked(forest@, Seq::<nat>::empty(), 0));
        }
        forest
    }

    /// The number of nodes ever created in this arena.
    pub fn len(&self) -> (count: usize)
        ensures
            count == self@.len(),
    {
        self.nodes.len()
    }

    /// Whether `id` names a node of this arena.
    pub fn contains(&self, id: InstanceId) -> (known: bool)
        ensures
            known == has(self@, id),
    {
        id.index < self.nodes.len()
    }

    pub fn node(&self, id: InstanceId) -> (node: &Instance)
        requires
            has(self@, id),
        ensures
            node@ == self@[id.index as int],
    {
        &self.nodes[id.index]
    }

    /// The node `id`, to rename it or to set its tag or flag. Its links cannot
    /// be changed through the reference, so the invariant is kept.
    pub fn node_mut(&mut self, id: InstanceId) -> (node: &mut Instance)
        requires
            has(old(self)@, id),
        ensures
            node@ == old(self)@[id.index as int],
            final(self)@ =~= old(self)@.update(id.index as int, final(node)@),
            old(self).wf() && same_links(old(self)@[id.index as int], final(node)@)
                ==> crate::model::wf(old(self)@.update(id.index as int, final(node)@)),
    {
        proof {
            let s = self@;
            assert forall|v: InstanceView| crate::model::wf(s) && same_links(s[id.index as int], v)
                implies crate::model::wf(s.update(id.index as int, v)) by {
                lemma_relabel_wf(s, id, v);
            }
        }
        &mut self.nodes[id.index]
    }

    /// Adds a fresh, detached node and returns its handle.
    pub(crate) fn push_fresh(&mut self) -> (id: InstanceId)
        requires
            old(self).wf(),
        ensures
            id.index == old(self)@.len(),
            final(self)@ == old(self)@.push(fresh_view()),
            final(self).wf(),
    {
        let id = InstanceId { index: self.nodes.len() };
        let node = Instance::fresh();
        self.nodes.push(node);
        proof {
            assert(self@ =~= old(self)@.push(fresh_view()));
            lemma_pushed_wf(old(self)@, fresh_view());
        }
        id
    }

    /// Adds a detached copy of `source`: its name, tag and flag, no links.
    pub(crate) fn push_copy(&mut self, source: InstanceId) -> (id: InstanceId)
        requires
            old(self).wf(),
            has(old(self)@, source),
        ensures
            id.index == old(self)@.len(),
            final(self)@ == old(self)@.push(copy_view(old(self)@[source.index as int])),
            final(self).wf(),
    {
        let id = InstanceId { index: self.nodes.len() };
        let template = &self.nodes[source.index];
        let node = Instance {
            parent: None,
            children: Vec::new(),
            name: template.name.clone(),
            archivable: template.archivable,
            class_name: template.class_name.clone(),
        };
        self.nodes.push(node);
        proof {
            assert(self@ =~= old(self)@.push(copy_view(old(self)@[source.index as int])));
            lemma_pushed_wf(old(self)@, copy_view(old(self)@[source.index as int]));
        }
        id
    }

    /// Takes `c` out of its parent's children and clears its back-reference.
    pub(crate) fn unlink(&mut self, c: InstanceId)
        requires
            old(self).wf(),
            has(old(self)@, c),
        ensures
            final(self)@ == detached(old(self)@, c),
            final(self).wf(),
    {
        proof {
            lemma_detached_wf(self@, c);
        }
        let parent = self.nodes[c.index].parent;
        if let Some(p) = parent {
            proof {
                lemma_parent_differs(self@, c);
                assert(self@[c.index as int].parent == Some(p));
                assert(parent_of(self@, c) == Some(p));
                assert(has(self@, p));
                assert(children_of(self@, p).contains(c));
            }
            let ghost kids = self.nodes@[p.index as int].children@;
            assert(kids == children_of(self@, p));
            let n = self.nodes[p.index].children.len();
            let mut pos: usize = 0;
            while pos < n && self.nodes[p.index].children[pos].index != c.index
                invariant
                    pos <= n,
                    p.index < self.nodes@.len(),
                    self.nodes@[p.index as int].children@ == kids,
                    n == kids.len(),
                    kids.contains(c),
                    forall|k: int| 0 <= k < pos ==> kids[k] != c,
                decreases n - pos,
            {
                pos += 1;
            }
            assert(pos < n) by {
                let j = choose|j: int| 0 <= j < kids.len() && kids[j] == c;
                assert(kids[j] == c);
            }
            assert(kids[pos as int] == c);
            proof {
                kids.index_of_first_ensures(c);
                assert(kids.index_of_first(c) == Some(pos as int));
                assert(kids.remove_value(c) == kids.remove(pos as int));
            }
            self.nodes[p.index].children.remove(pos);
            self.nodes[c.index].parent = None;
            assert(self@ =~= detached(old(self)@, c));
        } else {
            assert(parent_of(self@, c) is None);
        }
    }

    /// Makes the detached node `c` the last child of `p`.
    pub(crate) fn link(&mut self, p: InstanceId, c: InstanceId)
        requires
            old(self).wf(),
            has(old(self)@, p),
            has(old(self)@, c),
            c != p,
            parent_of(old(self)@, c) is None,
            !is_ancestor(old(self)@, c, p),
        ensures
            final(self)@ == attached(old(self)@, p, c),
            final(self).wf(),
    {
        proof {
            lemma_attached_wf(self@, p, c);
        }
        self.nodes[p.index].children.push(c);
        self.nodes[c.index].parent = Some(p);
        assert(self@ =~= attached(old(self)@, p, c));
    }
}

} // verus!
