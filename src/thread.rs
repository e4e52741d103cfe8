//! Thread trees and the two shapes in which the service hands them out.
use vstd::prelude::*;

verus! {

/// One node of a reply tree. `nest` is the depth of the node, 0 at the root
/// of a thread; a node owns its replies in `children`.
#[derive(Debug)]
pub struct ThreadStruct {
    pub children: Vec<ThreadStruct>,
    pub tid: String,
    pub subject: String,
    pub tsubject: String,
    pub epoch: i64,
    pub nest: i32,
}

/// `a` and `b` hold the same fields and, in the same order, the same
/// replies.
pub open spec fn same_tree(a: ThreadStruct, b: ThreadStruct) -> bool
    decreases a,
{
    &&& a.tid == b.tid
    &&& a.subject == b.subject
    &&& a.tsubject == b.tsubject
    &&& a.epoch == b.epoch
    &&& a.nest == b.nest
    &&& a.children.len() == b.children.len()
    &&& forall|i: int| 0 <= i < a.children.len() ==> same_tree(#[trigger] a.children@[i], b.children@[i])
}

impl Clone for ThreadStruct {
    fn clone(&self) -> (r: Self)
        ensures
            same_tree(r, *self),
        decreases self,
    {
        let mut children: Vec<ThreadStruct> = Vec::new();
        let mut i: usize = 0;
        while i < self.children.len()
            invariant
                i <= self.children.len(),
                children.len() == i,
                forall|j: int| 0 <= j < i ==> same_tree(#[trigger] children@[j], self.children@[j]),
            decreases self.children.len() - i,
        {
            children.push(self.children[i].clone());
            i += 1;
        }
        ThreadStruct {
            children,
            tid: self.tid.clone(),
            subject: self.subject.clone(),
            tsubject: self.tsubject.clone(),
            epoch: self.epoch,
            nest: self.nest,
        }
    }
}

/// The top-level thread nodes, either in a list or as entries keyed by a
/// string that nothing reads.
#[derive(Clone, Debug)]
pub enum ThreadStructValue {
    Keyed(Vec<(String, ThreadStruct)>),
    Array(Vec<ThreadStruct>),
}

/// The thread nodes that `refs` points at.
pub open spec fn thread_targets(refs: Seq<&ThreadStruct>) -> Seq<ThreadStruct> {
    refs.map_values(|r: &ThreadStruct| *r)
}

/// The nodes of keyed entries, in the order of the entries.
pub open spec fn entry_nodes(entries: Seq<(String, ThreadStruct)>) -> Seq<ThreadStruct> {
    entries.map_values(|e: (String, ThreadStruct)| e.1)
}

impl ThreadStructValue {
    /// The top-level nodes as one ordered sequence.
    pub open spec fn nodes(&self) -> Seq<ThreadStruct> {
        match self {
            ThreadStructValue::Keyed(entries) => entry_nodes(entries@),
            ThreadStructValue::Array(nodes) => nodes@,
        }
    }

    /// The top-level nodes, in order.
    pub fn iter(&self) -> (r: Vec<&ThreadStruct>)
        ensures
            thread_targets(r@) == self.nodes(),
    {
        let mut out: Vec<&ThreadStruct> = Vec::new();
        match self {
            ThreadStructValue::Keyed(entries) => {
                let mut i: usize = 0;
                while i < entries.len()
                    invariant
                        i <= entries.len(),
                        thread_targets(out@) == entry_nodes(entries@.take(i as int)),
                    decreases entries.len() - i,
                {
                    let ghost prev = out@;
                    out.push(&entries[i].1);
                    assert(thread_targets(out@) =~= thread_targets(prev).push(entries@[i as int].1));
                    assert(entries@.take(i + 1) =~= entries@.take(i as int).push(entries@[i as int]));
                    i += 1;
                }
                assert(entries@.take(entries.len() as int) =~= entries@);
            },
            ThreadStructValue::Array(nodes) => {
                let mut i: usize = 0;
                while i < nodes.len()
                    invariant
                        i <= nodes.len(),
                        thread_targets(out@) == nodes@.take(i as int),
                    decreases nodes.len() - i,
                {
                    let ghost prev = out@;
                    out.push(&nodes[i]);
                    assert(thread_targets(out@) =~= thread_targets(prev).push(nodes@[i as int]));
                    assert(nodes@.take(i + 1) =~= nodes@.take(i as int).push(nodes@[i as int]));
                    i += 1;
                }
                assert(nodes@.take(nodes.len() as int) =~= nodes@);
            },
        }
        out
    }

    /// The top-level nodes, taken out in order.
    pub fn into_vec(self) -> (r: Vec<ThreadStruct>)
        ensures
            r@ == self.nodes(),
    {
        match self {
            ThreadStructValue::Keyed(entries) => {
                let ghost all = entries@;
                let mut out: Vec<ThreadStruct> = Vec::new();
                for entry in it: entries.into_iter()
                    invariant
                        it.seq() == all,
                        out@ =~= entry_nodes(all.take(it.index() as int)),
                {
                    out.push(entry.1);
                }
                assert(all.take(all.len() as int) =~= all);
                out
            },
            ThreadStructValue::Array(nodes) => nodes,
        }
    }

    /// How many top-level nodes there are.
    pub fn len(&self) -> (r: usize)
        ensures
            r == self.nodes().len(),
    {
        match self {
            ThreadStructValue::Keyed(entries) => entries.len(),
            ThreadStructValue::Array(nodes) => nodes.len(),
        }
    }

    /// Whether there is no top-level node.
    pub fn is_empty(&self) -> (r: bool)
        ensures
            r == (self.nodes().len() == 0),
    {
        match self {
            ThreadStructValue::Keyed(entries) => entries.len() == 0,
            ThreadStructValue::Array(nodes) => nodes.len() == 0,
        }
    }

    /// The list form holding `nodes`.
    pub fn from_vec(nodes: Vec<ThreadStruct>) -> (r: ThreadStructValue)
        ensures
            r == ThreadStructValue::Array(nodes),
    {
        ThreadStructValue::Array(nodes)
    }
}

impl Default for ThreadStructValue {
    /// An empty list of threads.
    fn default() -> (r: ThreadStructValue)
        ensures
            r.nodes().len() == 0,
            r is Array,
    {
        ThreadStructValue::Array(Vec::new())
    }
}

impl From<Vec<ThreadStruct>> for ThreadStructValue {
    fn from(nodes: Vec<ThreadStruct>) -> (r: ThreadStructValue) {
        ThreadStructValue::Array(nodes)
    }
}

impl vstd::std_specs::convert::FromSpecImpl<Vec<ThreadStruct>> for ThreadStructValue {
    open spec fn obeys_from_spec() -> bool {
        true
    }

    open spec fn from_spec(nodes: Vec<ThreadStruct>) -> ThreadStructValue {
        ThreadStructValue::Array(nodes)
    }
}

/// Someone who wrote to the list, with the number of emails they sent.
#[derive(Clone, Debug)]
pub struct Participant {
    pub email: String,
    pub name: String,
    pub count: i32,
    pub gravatar: String,
}

} // verus!
