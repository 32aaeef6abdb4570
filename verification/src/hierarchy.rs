//! The indented text drawing of a scene graph, one `[name - kind]` line per
//! node, with box-drawing branches that show which node is a last child.

use vstd::prelude::*;

verus! {

/// What the drawing reads of a scene node: its name, its kind and its
/// children in order.
pub struct HierarchyNode {
    pub name: String,
    pub kind: String,
    pub children: Vec<HierarchyNode>,
}

/// The line of a node: `[name - kind]` and a newline.
pub open spec fn header(node: HierarchyNode) -> Seq<char> {
    "["@ + node.name@ + " - "@ + node.kind@ + "]\n"@
}

/// The indentation under ancestors: two spaces below an ancestor that was a
/// last child, a vertical bar and a space below any other.
pub open spec fn indentation(last_flags: Seq<bool>) -> Seq<char>
    decreases last_flags.len(),
{
    if last_flags.len() == 0 {
        seq![]
    } else {
        indentation(last_flags.drop_last()) + (if last_flags.last() {
            "  "@
        } else {
            "│ "@
        })
    }
}

/// The branch in front of a child: a corner for the last child, a tee for the others.
pub open spec fn branch(is_last: bool) -> Seq<char> {
    if is_last {
        "└─"@
    } else {
        "├─"@
    }
}

/// The drawing of `node` and its subtree, under ancestors whose last-child
/// flags are `last_flags`.
pub open spec fn node_text(node: HierarchyNode, last_flags: Seq<bool>) -> Seq<char>
    decreases node, 0nat,
{
    header(node) + children_text(node.children@, last_flags, node.children@.len())
}

/// The drawing of the first `n` of `children`.
pub open spec fn children_text(children: Seq<HierarchyNode>, last_flags: Seq<bool>, n: nat) -> Seq<
    char,
>
    decreases children, n,
{
    if n == 0 || n > children.len() {
        seq![]
    } else {
        let i = n - 1;
        let is_last = i + 1 == children.len();
        children_text(children, last_flags, (n - 1) as nat) + indentation(last_flags) + branch(is_last)
            + node_text(children[i], last_flags.push(is_last))
    }
}

/// The indentation has one two-character piece per ancestor, root side first:
/// piece `k` depends on the last-child flag of ancestor `k` alone, two spaces
/// when it was a last child and a vertical bar and a space otherwise.
pub proof fn lemma_indentation_pieces(last_flags: Seq<bool>)
    ensures
        indentation(last_flags).len() == 2 * last_flags.len(),
        forall|k: int|
            0 <= k < last_flags.len() ==> {
                &&& #[trigger] indentation(last_flags)[2 * k] == (if last_flags[k] { ' ' } else { '│' })
                &&& indentation(last_flags)[2 * k + 1] == ' '
            },
    decreases last_flags.len(),
{
    reveal_strlit("  ");
    reveal_strlit("│ ");
    if last_flags.len() > 0 {
        let init = last_flags.drop_last();
        lemma_indentation_pieces(init);
        assert forall|k: int| 0 <= k < last_flags.len() implies {
            &&& #[trigger] indentation(last_flags)[2 * k] == (if last_flags[k] { ' ' } else { '│' })
            &&& indentation(last_flags)[2 * k + 1] == ' '
        } by {
            if k < init.len() {
                assert(init[k] == last_flags[k]);
                assert(indentation(init)[2 * k] == (if init[k] { ' ' } else { '│' }));
            }
        }
    }
}

fn push_indentation(out: &mut String, last_flags: &Vec<bool>)
    ensures
        final(out)@ == old(out)@ + indentation(last_flags@),
{
    let mut k: usize = 0;
    assert(last_flags@.take(0) =~= Seq::<bool>::empty());
    assert(out@ =~= old(out)@ + indentation(last_flags@.take(0)));
    while k < last_flags.len()
        invariant
            k <= last_flags.len(),
            out@ == old(out)@ + indentation(last_flags@.take(k as int)),
        decreases last_flags.len() - k,
    {
        assert(last_flags@.take(k + 1).drop_last() == last_flags@.take(k as int));
        if last_flags[k] {
            out.append("  ");
        } else {
            out.append("│ ");
        }
        k += 1;
        assert(out@ =~= old(out)@ + indentation(last_flags@.take(k as int)));
    }
    assert(last_flags@.take(last_flags.len() as int) == last_flags@);
}

fn build(node: &HierarchyNode, out: &mut String, last_flags: &mut Vec<bool>)
    ensures
        final(out)@ == old(out)@ + node_text(*node, old(last_flags)@),
        final(last_flags)@ == old(last_flags)@,
    decreases node,
{
    let ghost flags = last_flags@;
    let ghost start = out@;
    out.append("[");
    out.append(node.name.as_str());
    out.append(" - ");
    out.append(node.kind.as_str());
    out.append("]\n");
    assert(out@ =~= start + header(*node));
    let count = node.children.len();
    let mut index: usize = 0;
    while index < count
        invariant
            index <= count,
            count == node.children@.len(),
            last_flags@ == flags,
            out@ == start + header(*node) + children_text(node.children@, flags, index as nat),
        decreases count - index,
    {
        push_indentation(out, last_flags);
        let is_last = index + 1 == count;
        if is_last {
            out.append("└─");
        } else {
            out.append("├─");
        }
        last_flags.push(is_last);
        assert(decreases_to!(node => node.children));
        build(&node.children[index], out, last_flags);
        last_flags.pop();
        index += 1;
        assert(out@ =~= start + header(*node) + children_text(node.children@, flags, index as nat));
    }
}

/// The drawing of the scene graph rooted at `node`.
pub fn hierarchy_string(node: &HierarchyNode) -> (text: String)
    ensures
        text@ == node_text(*node, seq![]),
{
    let mut out = String::new();
    let mut flags: Vec<bool> = Vec::new();
    build(node, &mut out, &mut flags);
    assert(out@ =~= node_text(*node, seq![]));
    out
}

} // verus!
