//! When a script describes a tree: nodes nest, and the properties of a node
//! come before its children.

use vstd::prelude::*;

use crate::script::Op;

verus! {

/// The script of one node: its properties, then its children.
pub open spec fn node(name: Seq<char>, properties: Seq<Op>, children: Seq<Op>) -> Seq<Op> {
    seq![Op::BeginNode(name)] + properties + children + seq![Op::EndNode]
}

/// Scripts can be grouped at will.
pub proof fn lemma_grouping(first: Seq<Op>, second: Seq<Op>, third: Seq<Op>)
    ensures
        first + second + third == first + (second + third),
{
    assert(first + second + third =~= first + (second + third));
}

/// The step writes a property.
pub open spec fn is_property(op: Op) -> bool {
    !(op is BeginNode) && !(op is EndNode) && !(op is AndroidFstab)
}

/// Every step writes a property.
pub open spec fn all_properties(ops: Seq<Op>) -> bool {
    forall|i: int| 0 <= i < ops.len() ==> is_property(#[trigger] ops[i])
}

/// How far a script has come.
pub enum Place {
    /// Nothing has been written.
    Start,
    /// `depth` nodes are open. While `fresh` holds, the innermost has no child
    /// yet and still takes properties.
    Inside { depth: nat, fresh: bool },
    /// The root node has been closed.
    Done,
}

/// The place after one step, or `None` where the step is not allowed.
pub open spec fn step(place: Option<Place>, op: Op) -> Option<Place> {
    match place {
        None => None,
        Some(Place::Done) => None,
        Some(Place::Start) => if op is BeginNode {
            Some(Place::Inside { depth: 1, fresh: true })
        } else {
            None
        },
        Some(Place::Inside { depth, fresh }) => match op {
            Op::BeginNode(_) => Some(Place::Inside { depth: depth + 1, fresh: true }),
            Op::EndNode => if depth <= 1 {
                Some(Place::Done)
            } else {
                Some(Place::Inside { depth: (depth - 1) as nat, fresh: false })
            },
            Op::AndroidFstab => Some(Place::Inside { depth, fresh: false }),
            _ => if fresh {
                Some(Place::Inside { depth, fresh })
            } else {
                None
            },
        },
    }
}

/// The place after all steps of `ops`, or `None` where one is not allowed.
pub open spec fn walk(place: Option<Place>, ops: Seq<Op>) -> Option<Place>
    decreases ops.len(),
{
    if ops.len() == 0 {
        place
    } else {
        step(walk(place, ops.drop_last()), ops.last())
    }
}

/// The script writes one node with all that is below it, and nothing else.
pub open spec fn is_tree(ops: Seq<Op>) -> bool {
    walk(Some(Place::Start), ops) == Some(Place::Done)
}

/// The script can stand below any open node: it closes each node that it
/// opens, no other, and writes no property outside its own nodes.
pub open spec fn is_forest(ops: Seq<Op>) -> bool {
    forall|depth: nat, fresh: bool|
        depth >= 1 ==> #[trigger] walk(Some(Place::Inside { depth, fresh }), ops) == Some(
            Place::Inside { depth, fresh: fresh && ops.len() == 0 },
        )
}

/// Two scripts in a row are walked one after the other.
pub proof fn lemma_walk_concat(place: Option<Place>, first: Seq<Op>, second: Seq<Op>)
    ensures
        walk(place, first + second) == walk(walk(place, first), second),
    decreases second.len(),
{
    if second.len() == 0 {
        assert(first + second =~= first);
    } else {
        lemma_walk_concat(place, first, second.drop_last());
        assert((first + second).drop_last() =~= first + second.drop_last());
    }
}

/// Properties keep the place, as long as the node still takes them.
pub proof fn lemma_walk_properties(depth: nat, ops: Seq<Op>)
    requires
        all_properties(ops),
    ensures
        walk(Some(Place::Inside { depth, fresh: true }), ops) == Some(
            Place::Inside { depth, fresh: true },
        ),
    decreases ops.len(),
{
    if ops.len() > 0 {
        assert forall|i: int| 0 <= i < ops.drop_last().len() implies is_property(
            #[trigger] ops.drop_last()[i],
        ) by {
            assert(ops.drop_last()[i] == ops[i]);
        }
        lemma_walk_properties(depth, ops.drop_last());
        assert(is_property(ops[ops.len() - 1]));
    }
}

/// No step is a forest.
pub proof fn lemma_empty_is_forest()
    ensures
        is_forest(Seq::<Op>::empty()),
{
}

/// A request for the Android nodes is a forest.
pub proof fn lemma_android_is_forest()
    ensures
        is_forest(seq![Op::AndroidFstab]),
{
    assert forall|depth: nat, fresh: bool|
        depth >= 1 implies #[trigger] walk(
        Some(Place::Inside { depth, fresh }),
        seq![Op::AndroidFstab],
    ) == Some(Place::Inside { depth, fresh: false }) by {
        let start = Some(Place::Inside { depth, fresh });
        assert(seq![Op::AndroidFstab].drop_last() =~= Seq::<Op>::empty());
        assert(walk(start, seq![Op::AndroidFstab].drop_last()) == start);
    }
}

/// Two forests in a row are a forest.
pub proof fn lemma_forests_join(first: Seq<Op>, second: Seq<Op>)
    requires
        is_forest(first),
        is_forest(second),
    ensures
        is_forest(first + second),
{
    assert forall|depth: nat, fresh: bool|
        depth >= 1 implies #[trigger] walk(
        Some(Place::Inside { depth, fresh }),
        first + second,
    ) == Some(
        Place::Inside { depth, fresh: fresh && (first + second).len() == 0 },
    ) by {
        lemma_walk_concat(Some(Place::Inside { depth, fresh }), first, second);
    }
}

/// The walk over a node's properties and children, the node being open.
proof fn lemma_walk_body(depth: nat, properties: Seq<Op>, children: Seq<Op>)
    requires
        depth >= 1,
        all_properties(properties),
        is_forest(children),
    ensures
        walk(Some(Place::Inside { depth, fresh: true }), properties + children) == Some(
            Place::Inside { depth, fresh: children.len() == 0 },
        ),
{
    lemma_walk_concat(Some(Place::Inside { depth, fresh: true }), properties, children);
    lemma_walk_properties(depth, properties);
}

/// The walk over one step.
proof fn lemma_walk_one(place: Option<Place>, op: Op)
    ensures
        walk(place, seq![op]) == step(place, op),
{
    assert(seq![op].drop_last() =~= Seq::<Op>::empty());
    assert(walk(place, seq![op].drop_last()) == place);
}

/// A node whose children are a forest is a forest.
pub proof fn lemma_node_is_forest(name: Seq<char>, properties: Seq<Op>, children: Seq<Op>)
    requires
        all_properties(properties),
        is_forest(children),
    ensures
        is_forest(node(name, properties, children)),
{
    let whole = node(name, properties, children);
    let begin = seq![Op::BeginNode(name)];
    let end = seq![Op::EndNode];
    assert(whole =~= begin + (properties + children) + end);
    assert forall|depth: nat, fresh: bool|
        depth >= 1 implies #[trigger] walk(Some(Place::Inside { depth, fresh }), whole) == Some(
        Place::Inside { depth, fresh: false },
    ) by {
        let start = Some(Place::Inside { depth, fresh });
        lemma_walk_concat(start, begin + (properties + children), end);
        lemma_walk_concat(start, begin, properties + children);
        lemma_walk_one(start, Op::BeginNode(name));
        lemma_walk_body(depth + 1, properties, children);
        lemma_walk_one(
            Some(Place::Inside { depth: depth + 1, fresh: children.len() == 0 }),
            Op::EndNode,
        );
    }
}

/// A node whose children are a forest is a tree when it is all there is.
pub proof fn lemma_node_is_tree(name: Seq<char>, properties: Seq<Op>, children: Seq<Op>)
    requires
        all_properties(properties),
        is_forest(children),
    ensures
        is_tree(node(name, properties, children)),
{
    let whole = node(name, properties, children);
    let begin = seq![Op::BeginNode(name)];
    let end = seq![Op::EndNode];
    assert(whole =~= begin + (properties + children) + end);
    let start = Some(Place::Start);
    lemma_walk_concat(start, begin + (properties + children), end);
    lemma_walk_concat(start, begin, properties + children);
    lemma_walk_one(start, Op::BeginNode(name));
    lemma_walk_body(1, properties, children);
    lemma_walk_one(
        Some(Place::Inside { depth: 1, fresh: children.len() == 0 }),
        Op::EndNode,
    );
}

} // verus!
