//! The layout of a tree as printed by `tree`: which line stands where, how
//! it is indented and whether it closes its branch.

use vstd::prelude::*;
use crate::tree::TreeNode;

verus! {

/// How a tree is laid out.
pub struct RenderOptions {
    /// How many levels below the root show their contents (all when `None`).
    pub max_depth: Option<usize>,
    /// Whether external references are shown.
    pub show_external_refs: bool,
    /// Whether metadata stands inline on the node's own line instead of on
    /// lines of its own.
    pub compact: bool,
}

/// What a line below a node shows, by position in that node.
#[derive(Clone, Copy, Debug, PartialEq, Eq, Structural)]
pub enum RenderItem {
    /// The node's metadata item at this position.
    Meta(usize),
    /// The node's external reference at this position.
    Ref(usize),
    /// The node's child at this position.
    Child(usize),
}

/// A line of the laid-out tree, below the root's own line.
pub struct RenderLine {
    /// The node the line belongs to, as child positions from the root.
    pub node: Vec<usize>,
    /// For each enclosing level, whether the branch there was the last of its
    /// parent (blank indentation) or not (a continuing guide).
    pub guides: Vec<bool>,
    /// Whether the line closes its node's branch.
    pub last: bool,
    pub item: RenderItem,
}

/// A line as plain values.
pub type LineView = (Seq<usize>, Seq<bool>, bool, RenderItem);

pub open spec fn line_view(l: RenderLine) -> LineView {
    (l.node@, l.guides@, l.last, l.item)
}

pub open spec fn lines_view(s: Seq<RenderLine>) -> Seq<LineView> {
    s.map_values(|l: RenderLine| line_view(l))
}

/// The levels left to a child: one fewer than its parent's, or still all.
pub open spec fn next_budget(b: Option<nat>) -> Option<nat> {
    match b {
        Some(x) => Some((x - 1) as nat),
        None => None,
    }
}

/// The levels left, as plain values.
pub open spec fn budget_view(b: Option<usize>) -> Option<nat> {
    match b {
        Some(x) => Some(x as nat),
        None => None,
    }
}

/// The lines below node `n` (found at `path`, indented by `guides`), when
/// `budget` levels may still show their contents: its metadata unless
/// compact, its references when shown, then each child's line followed by
/// the child's own lines. The last of these closes the branch.
pub open spec fn node_lines(
    n: TreeNode,
    path: Seq<usize>,
    guides: Seq<bool>,
    budget: Option<nat>,
    o: RenderOptions,
) -> Seq<LineView>
    decreases n, 0int,
{
    if budget == Some(0nat) {
        Seq::empty()
    } else {
        let nm = if o.compact {
            0
        } else {
            n.metadata@.len()
        };
        let nr = if o.show_external_refs {
            n.external_refs@.len()
        } else {
            0
        };
        let count = nm + nr + n.children@.len();
        Seq::new(nm, |k: int| (path, guides, k + 1 == count, RenderItem::Meta(k as usize)))
            + Seq::new(
            nr,
            |k: int| (path, guides, nm + k + 1 == count, RenderItem::Ref(k as usize)),
        ) + child_lines(n.children@, 0, path, guides, nm + nr, count, next_budget(budget), o)
    }
}

/// The lines of the children of a node from position `i` on: each child's
/// line, then the child's own lines, indented one level deeper.
pub open spec fn child_lines(
    cs: Seq<TreeNode>,
    i: int,
    path: Seq<usize>,
    guides: Seq<bool>,
    offset: nat,
    count: nat,
    budget: Option<nat>,
    o: RenderOptions,
) -> Seq<LineView>
    decreases cs, cs.len() - i,
{
    if i < 0 || i >= cs.len() {
        Seq::empty()
    } else {
        let last = offset + i + 1 == count;
        seq![(path, guides, last, RenderItem::Child(i as usize))] + node_lines(
            cs[i],
            path.push(i as usize),
            guides.push(last),
            budget,
            o,
        ) + child_lines(cs, i + 1, path, guides, offset, count, budget, o)
    }
}

fn copy_usizes(v: &Vec<usize>) -> (r: Vec<usize>)
    ensures
        r@ == v@,
{
    let mut r: Vec<usize> = Vec::new();
    let n = v.len();
    for i in 0..n
        invariant
            n == v@.len(),
            r@ =~= v@.take(i as int),
    {
        r.push(v[i]);
    }
    assert(v@.take(n as int) =~= v@);
    r
}

fn copy_bools(v: &Vec<bool>) -> (r: Vec<bool>)
    ensures
        r@ == v@,
{
    let mut r: Vec<bool> = Vec::new();
    let n = v.len();
    for i in 0..n
        invariant
            n == v@.len(),
            r@ =~= v@.take(i as int),
    {
        r.push(v[i]);
    }
    assert(v@.take(n as int) =~= v@);
    r
}

fn push_line(
    out: &mut Vec<RenderLine>,
    path: &Vec<usize>,
    guides: &Vec<bool>,
    last: bool,
    item: RenderItem,
)
    ensures
        lines_view(final(out)@) == lines_view(old(out)@).push((path@, guides@, last, item)),
{
    let line = RenderLine { node: copy_usizes(path), guides: copy_bools(guides), last, item };
    out.push(line);
    proof {
        assert(lines_view(final(out)@) =~= lines_view(old(out)@).push((path@, guides@, last, item)));
    }
}

fn render_node(
    n: &TreeNode,
    path: &mut Vec<usize>,
    guides: &mut Vec<bool>,
    budget: Option<usize>,
    o: &RenderOptions,
    out: &mut Vec<RenderLine>,
)
    ensures
        lines_view(final(out)@) == lines_view(old(out)@) + node_lines(
            *n,
            old(path)@,
            old(guides)@,
            budget_view(budget),
            *o,
        ),
        final(path)@ == old(path)@,
        final(guides)@ == old(guides)@,
    decreases *n, 0int,
{
    let ghost start = lines_view(out@);
    if budget == Some(0usize) {
        proof {
            assert(lines_view(out@) =~= start + Seq::<LineView>::empty());
        }
        return;
    }
    let child_budget = match budget {
        Some(b) => Some(b - 1),
        None => None,
    };
    let nm = if o.compact {
        0
    } else {
        n.metadata.len()
    };
    let nr = if o.show_external_refs {
        n.external_refs.len()
    } else {
        0
    };
    let nc = n.children.len();
    let ghost count: nat = (nm + nr + nc) as nat;
    let ghost p = path@;
    let ghost g = guides@;
    for k in 0..nm
        invariant
            path@ == p,
            guides@ == g,
            count == nm + nr + nc,
            lines_view(out@) =~= start + Seq::new(
                k as nat,
                |j: int| (p, g, j + 1 == count, RenderItem::Meta(j as usize)),
            ),
    {
        let last = k + 1 == nm && nr == 0 && nc == 0;
        push_line(out, path, guides, last, RenderItem::Meta(k));
    }
    let ghost after_meta = lines_view(out@);
    for k in 0..nr
        invariant
            path@ == p,
            guides@ == g,
            count == nm + nr + nc,
            lines_view(out@) =~= after_meta + Seq::new(
                k as nat,
                |j: int| (p, g, nm + j + 1 == count, RenderItem::Ref(j as usize)),
            ),
    {
        let last = k + 1 == nr && nc == 0;
        push_line(out, path, guides, last, RenderItem::Ref(k));
    }
    let ghost after_refs = lines_view(out@);
    let ghost cs = n.children@;
    let ghost nb = next_budget(budget_view(budget));
    assert(budget_view(child_budget) == nb);
    for i in 0..nc
        invariant
            path@ == p,
            guides@ == g,
            cs == n.children@,
            nc == cs.len(),
            count == nm + nr + nc,
            budget_view(child_budget) == nb,
            after_refs + child_lines(cs, 0, p, g, (nm + nr) as nat, count, nb, *o) == lines_view(
                out@,
            ) + child_lines(cs, i as int, p, g, (nm + nr) as nat, count, nb, *o),
    {
        let last = i + 1 == nc;
        let ghost before = lines_view(out@);
        push_line(out, path, guides, last, RenderItem::Child(i));
        path.push(i);
        guides.push(last);
        render_node(&n.children[i], path, guides, child_budget, o, out);
        path.pop();
        guides.pop();
        proof {
            assert(path@ =~= p);
            assert(guides@ =~= g);
            let rest = child_lines(cs, i + 1, p, g, (nm + nr) as nat, count, nb, *o);
            let here = child_lines(cs, i as int, p, g, (nm + nr) as nat, count, nb, *o);
            assert(here == seq![(p, g, last, RenderItem::Child(i))] + node_lines(
                cs[i as int],
                p.push(i),
                g.push(last),
                nb,
                *o,
            ) + rest);
            assert(lines_view(out@) =~= before + seq![(p, g, last, RenderItem::Child(i))]
                + node_lines(cs[i as int], p.push(i), g.push(last), nb, *o));
            assert(before + here =~= lines_view(out@) + rest);
        }
    }
    proof {
        assert(lines_view(out@) =~= start + node_lines(*n, p, g, budget_view(budget), *o));
    }
}

/// The lines of a tree below its root's own line.
pub fn render_lines(root: &TreeNode, o: &RenderOptions) -> (lines: Vec<RenderLine>)
    ensures
        lines_view(lines@) == node_lines(*root, seq![], seq![], budget_view(o.max_depth), *o),
{
    let mut out: Vec<RenderLine> = Vec::new();
    let mut path: Vec<usize> = Vec::new();
    let mut guides: Vec<bool> = Vec::new();
    render_node(root, &mut path, &mut guides, o.max_depth, o, &mut out);
    proof {
        assert(lines_view(Seq::<RenderLine>::empty()) =~= Seq::<LineView>::empty());
        assert(path@ =~= seq![]);
    }
    out
}

} // verus!
