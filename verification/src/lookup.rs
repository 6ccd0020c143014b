//! Finding a node of a script by its path.

use vstd::prelude::*;

use crate::nesting;
use crate::nesting::Place;
use crate::script::Op;

verus! {

/// The names of the nodes that are open after `ops`, outermost first, where
/// those of `outer` were open before.
pub open spec fn open_nodes(outer: Seq<Seq<char>>, ops: Seq<Op>) -> Seq<Seq<char>>
    decreases ops.len(),
{
    if ops.len() == 0 {
        outer
    } else {
        let open = open_nodes(outer, ops.drop_last());
        match ops.last() {
            Op::BeginNode(name) => open.push(name),
            Op::EndNode => open.drop_last(),
            _ => open,
        }
    }
}

/// A step, taken while the nodes `open` are open, tells something of the node at
/// `path`: it opens the node, opens a child of it, or writes a property of it.
pub open spec fn concerns(open: Seq<Seq<char>>, op: Op, path: Seq<Seq<char>>) -> bool {
    match op {
        Op::BeginNode(name) => open == path || open.push(name) == path,
        Op::EndNode => false,
        Op::AndroidFstab => false,
        _ => open == path,
    }
}

/// The steps of `ops` that tell something of the node at `path`, where the nodes
/// of `outer` were open before.
pub open spec fn found(outer: Seq<Seq<char>>, ops: Seq<Op>, path: Seq<Seq<char>>) -> Seq<Op>
    decreases ops.len(),
{
    if ops.len() == 0 {
        Seq::empty()
    } else {
        let before = found(outer, ops.drop_last(), path);
        if concerns(open_nodes(outer, ops.drop_last()), ops.last(), path) {
            before.push(ops.last())
        } else {
            before
        }
    }
}

/// All that a script tells of the node at `path`: the step that opens it, then,
/// in order, its properties and the steps that open its children. Where two
/// nodes have the same path, what is told of the one follows what is told of the
/// other. Nothing is known of what the Android nodes hold.
pub open spec fn at(ops: Seq<Op>, path: Seq<Seq<char>>) -> Seq<Op> {
    found(Seq::empty(), ops, path)
}

/// The name of the property that a step writes.
pub open spec fn label(op: Op) -> Option<Seq<char>> {
    match op {
        Op::BeginNode(_) => None,
        Op::EndNode => None,
        Op::PropertyNull(name) => Some(name),
        Op::PropertyU32(name, _) => Some(name),
        Op::PropertyU64(name, _) => Some(name),
        Op::PropertyString(name, _) => Some(name),
        Op::PropertyStringList(name, _) => Some(name),
        Op::PropertyArrayU32(name, _) => Some(name),
        Op::PropertyArrayU64(name, _) => Some(name),
        Op::Property(name, _) => Some(name),
        Op::AndroidFstab => None,
    }
}

/// Of the properties at `path`, one has the name of `property`, and it is
/// `property`.
pub open spec fn tells(ops: Seq<Op>, path: Seq<Seq<char>>, property: Op) -> bool {
    let steps = at(ops, path);
    &&& exists|i: int| 0 <= i < steps.len() && #[trigger] steps[i] == property
    &&& forall|i: int, j: int|
        0 <= i < j < steps.len() ==> !(label(#[trigger] steps[i]) == label(property) && label(
            #[trigger] steps[j],
        ) == label(property))
}

/// No property at `path` has the name `name`.
pub open spec fn silent(ops: Seq<Op>, path: Seq<Seq<char>>, name: Seq<char>) -> bool {
    let steps = at(ops, path);
    forall|i: int| 0 <= i < steps.len() ==> label(#[trigger] steps[i]) != Some(name)
}

/// Two scripts in a row.
pub proof fn lemma_found_concat(
    outer: Seq<Seq<char>>,
    first: Seq<Op>,
    second: Seq<Op>,
    path: Seq<Seq<char>>,
)
    ensures
        open_nodes(outer, first + second) == open_nodes(open_nodes(outer, first), second),
        found(outer, first + second, path) == found(outer, first, path) + found(
            open_nodes(outer, first),
            second,
            path,
        ),
    decreases second.len(),
{
    if second.len() == 0 {
        assert(first + second =~= first);
        assert(found(outer, first, path) + Seq::empty() =~= found(outer, first, path));
    } else {
        lemma_found_concat(outer, first, second.drop_last(), path);
        assert((first + second).drop_last() =~= first + second.drop_last());
        assert(found(outer, first + second, path) =~= found(outer, first, path) + found(
            open_nodes(outer, first),
            second,
            path,
        ));
    }
}

/// A step below the nodes of `outer` tells of a path what it tells, without
/// them, of the rest of the path.
proof fn lemma_concerns_below(
    outer: Seq<Seq<char>>,
    open: Seq<Seq<char>>,
    op: Op,
    path: Seq<Seq<char>>,
)
    requires
        open.len() > 0 || !nesting::is_property(op),
    ensures
        concerns(outer + open, op, path) <==> outer.is_prefix_of(path) && concerns(
            open,
            op,
            path.skip(outer.len() as int),
        ),
{
    let rest = path.skip(outer.len() as int);
    if outer.is_prefix_of(path) {
        assert(path =~= outer + rest);
        if open == rest {
            assert(outer + open == path);
        }
        if op is BeginNode {
            assert((outer + open).push(op->BeginNode_0) =~= outer + open.push(op->BeginNode_0));
        }
    }
    if outer + open == path {
        assert(outer =~= path.subrange(0, outer.len() as int));
        assert(open =~= rest);
    }
    if op is BeginNode {
        let name = op->BeginNode_0;
        if (outer + open).push(name) == path {
            assert(outer =~= path.subrange(0, outer.len() as int));
            assert(open.push(name) =~= rest);
        }
    }
}

/// What nests properly keeps to the node that it stands below.
proof fn lemma_found_inside(outer: Seq<Seq<char>>, ops: Seq<Op>, path: Seq<Seq<char>>)
    requires
        nesting::walk(Some(Place::Inside { depth: 1, fresh: false }), ops) matches Some(
            Place::Inside { depth, fresh },
        ),
    ensures
        ({
            let place = nesting::walk(Some(Place::Inside { depth: 1, fresh: false }), ops)->0;
            let open = open_nodes(Seq::empty(), ops);
            &&& place->depth >= 1
            &&& place->depth == 1 ==> !place->fresh
            &&& open.len() == place->depth - 1
            &&& open_nodes(outer, ops) == outer + open
            &&& found(outer, ops, path) == if outer.is_prefix_of(path) {
                at(ops, path.skip(outer.len() as int))
            } else {
                Seq::empty()
            }
        }),
    decreases ops.len(),
{
    let start = Some(Place::Inside { depth: 1, fresh: false });
    if ops.len() == 0 {
        assert(open_nodes(outer, ops) =~= outer + open_nodes(Seq::empty(), ops));
    } else {
        let front = ops.drop_last();
        let before = nesting::walk(start, front);
        assert(nesting::walk(start, ops) == nesting::step(before, ops.last()));
        assert(before != Some(Place::Start)) by {
            if front.len() > 0 {
                assert(before == nesting::step(
                    nesting::walk(start, front.drop_last()),
                    front.last(),
                ));
            }
        }
        assert(before is Some && before->0 is Inside);
        lemma_found_inside(outer, front, path);
        let open = open_nodes(Seq::empty(), front);
        lemma_concerns_below(outer, open, ops.last(), path);
        match ops.last() {
            Op::BeginNode(name) => {
                assert((outer + open).push(name) =~= outer + open.push(name));
            },
            Op::EndNode => {
                assert((outer + open).drop_last() =~= outer + open.drop_last());
            },
            _ => {},
        }
        assert(open_nodes(outer, ops) =~= outer + open_nodes(Seq::empty(), ops));
    }
}

/// A forest keeps to the node that it stands below.
proof fn lemma_found_below(outer: Seq<Seq<char>>, ops: Seq<Op>, path: Seq<Seq<char>>)
    requires
        nesting::is_forest(ops),
    ensures
        open_nodes(outer, ops) == outer,
        found(outer, ops, path) == if outer.is_prefix_of(path) {
            at(ops, path.skip(outer.len() as int))
        } else {
            Seq::empty()
        },
{
    assert(nesting::walk(Some(Place::Inside { depth: 1, fresh: false }), ops) == Some(
        Place::Inside { depth: 1, fresh: false },
    ));
    lemma_found_inside(outer, ops, path);
    assert(open_nodes(outer, ops) =~= outer);
}

/// Two forests in a row.
pub proof fn lemma_at_join(first: Seq<Op>, second: Seq<Op>, path: Seq<Seq<char>>)
    requires
        nesting::is_forest(first),
    ensures
        at(first + second, path) == at(first, path) + at(second, path),
{
    lemma_found_concat(Seq::empty(), first, second, path);
    lemma_found_below(Seq::empty(), first, path);
}

/// The properties of a node that is open.
proof fn lemma_found_properties(outer: Seq<Seq<char>>, ops: Seq<Op>, path: Seq<Seq<char>>)
    requires
        nesting::all_properties(ops),
    ensures
        open_nodes(outer, ops) == outer,
        found(outer, ops, path) == if outer == path {
            ops
        } else {
            Seq::empty()
        },
    decreases ops.len(),
{
    if ops.len() > 0 {
        assert forall|i: int| 0 <= i < ops.drop_last().len() implies nesting::is_property(
            #[trigger] ops.drop_last()[i],
        ) by {
            assert(ops.drop_last()[i] == ops[i]);
        }
        lemma_found_properties(outer, ops.drop_last(), path);
        assert(nesting::is_property(ops[ops.len() - 1]));
        assert(ops =~= ops.drop_last().push(ops.last()));
    } else {
        assert(ops =~= Seq::empty());
    }
}

/// One step.
proof fn lemma_found_one(outer: Seq<Seq<char>>, op: Op, path: Seq<Seq<char>>)
    ensures
        found(outer, seq![op], path) == if concerns(outer, op, path) {
            seq![op]
        } else {
            Seq::empty()
        },
        op is BeginNode ==> open_nodes(outer, seq![op]) == outer.push(op->BeginNode_0),
{
    assert(seq![op].drop_last() =~= Seq::<Op>::empty());
    assert(found(outer, seq![op].drop_last(), path) =~= Seq::<Op>::empty());
    assert(open_nodes(outer, seq![op].drop_last()) == outer);
    assert(Seq::<Op>::empty().push(op) =~= seq![op]);
}

/// A node that is not closed yet, with its properties and some of its children.
pub proof fn lemma_at_open(
    name: Seq<char>,
    properties: Seq<Op>,
    children: Seq<Op>,
    path: Seq<Seq<char>>,
)
    requires
        nesting::all_properties(properties),
        nesting::is_forest(children),
    ensures
        at(seq![Op::BeginNode(name)] + properties + children, path) == if path.len() == 0 {
            seq![Op::BeginNode(name)]
        } else if path[0] != name {
            Seq::empty()
        } else if path.len() == 1 {
            seq![Op::BeginNode(name)] + properties + at(children, Seq::empty())
        } else {
            at(children, path.skip(1))
        },
{
    let none = Seq::<Seq<char>>::empty();
    let here = none.push(name);
    let begin = seq![Op::BeginNode(name)];
    lemma_found_concat(none, begin + properties, children, path);
    lemma_found_concat(none, begin, properties, path);
    lemma_found_one(none, Op::BeginNode(name), path);
    lemma_found_properties(here, properties, path);
    lemma_found_below(here, children, path);
    if path.len() == 0 {
        assert(path =~= none);
        assert(begin + Seq::<Op>::empty() + Seq::<Op>::empty() =~= begin);
    } else if path[0] != name {
        assert(here[0] != path[0]);
        assert(!here.is_prefix_of(path)) by {
            if here.is_prefix_of(path) {
                assert(path.subrange(0, 1)[0] == here[0]);
            }
        }
        assert(Seq::<Op>::empty() + Seq::<Op>::empty() + Seq::<Op>::empty() =~= Seq::<Op>::empty());
    } else if path.len() == 1 {
        assert(path =~= here);
        assert(path.subrange(0, 1) =~= here);
        assert(path.skip(1) =~= none);
    } else {
        assert(here =~= path.subrange(0, 1));
        assert(here.len() != path.len());
        assert(Seq::<Op>::empty() + Seq::<Op>::empty() + at(children, path.skip(1)) =~= at(
            children,
            path.skip(1),
        ));
    }
}

/// A node with its properties and its children.
pub proof fn lemma_at_node(
    name: Seq<char>,
    properties: Seq<Op>,
    children: Seq<Op>,
    path: Seq<Seq<char>>,
)
    requires
        nesting::all_properties(properties),
        nesting::is_forest(children),
    ensures
        at(nesting::node(name, properties, children), path) == if path.len() == 0 {
            seq![Op::BeginNode(name)]
        } else if path[0] != name {
            Seq::empty()
        } else if path.len() == 1 {
            seq![Op::BeginNode(name)] + properties + at(children, Seq::empty())
        } else {
            at(children, path.skip(1))
        },
{
    let none = Seq::<Seq<char>>::empty();
    let open = seq![Op::BeginNode(name)] + properties + children;
    lemma_at_open(name, properties, children, path);
    lemma_found_concat(none, open, seq![Op::EndNode], path);
    lemma_found_one(open_nodes(none, open), Op::EndNode, path);
    assert(at(open, path) + Seq::<Op>::empty() =~= at(open, path));
}

/// A node that has properties only.
pub proof fn lemma_at_leaf(name: Seq<char>, properties: Seq<Op>, path: Seq<Seq<char>>)
    requires
        nesting::all_properties(properties),
    ensures
        at(nesting::node(name, properties, Seq::empty()), path) == if path.len() == 0 {
            seq![Op::BeginNode(name)]
        } else if path.len() == 1 && path[0] == name {
            seq![Op::BeginNode(name)] + properties
        } else {
            Seq::empty()
        },
{
    nesting::lemma_empty_is_forest();
    lemma_at_node(name, properties, Seq::empty(), path);
    assert(seq![Op::BeginNode(name)] + properties + Seq::<Op>::empty() =~= seq![
        Op::BeginNode(name),
    ] + properties);
}

/// All that is found of a path is below a node that is opened at its start.
proof fn lemma_found_below_top(ops: Seq<Op>, path: Seq<Seq<char>>)
    requires
        path.len() > 0,
        nesting::walk(Some(Place::Inside { depth: 1, fresh: false }), ops) matches Some(
            Place::Inside { depth, fresh },
        ),
    ensures
        ({
            let open = open_nodes(Seq::empty(), ops);
            let tops = at(ops, Seq::empty());
            &&& open.len() > 0 ==> tops.contains(Op::BeginNode(open[0]))
            &&& at(ops, path).len() > 0 ==> tops.contains(Op::BeginNode(path[0]))
        }),
    decreases ops.len(),
{
    let none = Seq::<Seq<char>>::empty();
    let start = Some(Place::Inside { depth: 1, fresh: false });
    if ops.len() > 0 {
        let front = ops.drop_last();
        let before = nesting::walk(start, front);
        assert(nesting::walk(start, ops) == nesting::step(before, ops.last()));
        assert(before != Some(Place::Start)) by {
            if front.len() > 0 {
                assert(before == nesting::step(
                    nesting::walk(start, front.drop_last()),
                    front.last(),
                ));
            }
        }
        assert(before is Some && before->0 is Inside);
        lemma_found_below_top(front, path);
        lemma_found_inside(none, front, path);
        lemma_found_inside(none, ops, path);
        let open = open_nodes(none, front);
        let old_tops = at(front, none);
        let tops = at(ops, none);
        assert forall|op: Op| #[trigger] old_tops.contains(op) implies tops.contains(op) by {
            let k = choose|k: int| 0 <= k < old_tops.len() && old_tops[k] == op;
            assert(tops[k] == op);
        }
        match ops.last() {
            Op::BeginNode(name) => {
                if open.len() == 0 {
                    assert(open =~= none);
                    assert(tops.last() == ops.last());
                    assert(tops.contains(ops.last()));
                    assert(open.push(name)[0] == name);
                } else {
                    assert(open.push(name)[0] == open[0]);
                }
            },
            _ => {},
        }
    }
}

/// A path that starts with none of the nodes of a forest leads nowhere.
pub proof fn lemma_at_elsewhere(ops: Seq<Op>, path: Seq<Seq<char>>)
    requires
        nesting::is_forest(ops),
        path.len() > 0,
        forall|i: int|
            0 <= i < at(ops, Seq::empty()).len() ==> #[trigger] at(ops, Seq::empty())[i]
                != Op::BeginNode(path[0]),
    ensures
        at(ops, path) == Seq::<Op>::empty(),
{
    assert(nesting::walk(Some(Place::Inside { depth: 1, fresh: false }), ops) == Some(
        Place::Inside { depth: 1, fresh: false },
    ));
    lemma_found_below_top(ops, path);
    assert(at(ops, path) =~= Seq::empty());
}

} // verus!
