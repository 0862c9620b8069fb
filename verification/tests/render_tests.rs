use mpq_cli::render::{render_lines, RenderItem, RenderOptions};
use mpq_cli::tree::{ExternalRef, MetaKey, MetaValue, NodeKind, RefTarget, TreeNode};

fn node(name: &str, meta: usize, refs: usize, children: Vec<TreeNode>) -> TreeNode {
    TreeNode {
        name: name.to_string(),
        kind: NodeKind::File,
        size: None,
        metadata: (0..meta).map(|i| (MetaKey::Count, MetaValue::Count(i))).collect(),
        external_refs: (0..refs)
            .map(|_| ExternalRef { pattern: "*.blp".to_string(), target: RefTarget::Blp })
            .collect(),
        children,
    }
}

fn view(lines: Vec<mpq_cli::render::RenderLine>) -> Vec<(Vec<usize>, Vec<bool>, bool, RenderItem)> {
    lines.into_iter().map(|l| (l.node, l.guides, l.last, l.item)).collect()
}

fn sample() -> TreeNode {
    node("root", 1, 0, vec![node("dir", 1, 1, vec![node("f", 0, 1, vec![])]), node("g", 0, 0, vec![])])
}

#[test]
fn full_layout() {
    let o = RenderOptions { max_depth: None, show_external_refs: true, compact: false };
    assert_eq!(
        view(render_lines(&sample(), &o)),
        vec![
            (vec![], vec![], false, RenderItem::Meta(0)),
            (vec![], vec![], false, RenderItem::Child(0)),
            (vec![0], vec![false], false, RenderItem::Meta(0)),
            (vec![0], vec![false], false, RenderItem::Ref(0)),
            (vec![0], vec![false], true, RenderItem::Child(0)),
            (vec![0, 0], vec![false, true], true, RenderItem::Ref(0)),
            (vec![], vec![], true, RenderItem::Child(1)),
        ]
    );
}

#[test]
fn compact_layout_without_refs() {
    let o = RenderOptions { max_depth: None, show_external_refs: false, compact: true };
    assert_eq!(
        view(render_lines(&sample(), &o)),
        vec![
            (vec![], vec![], false, RenderItem::Child(0)),
            (vec![0], vec![false], true, RenderItem::Child(0)),
            (vec![], vec![], true, RenderItem::Child(1)),
        ]
    );
}

#[test]
fn depth_limit() {
    let o = RenderOptions { max_depth: Some(1), show_external_refs: true, compact: false };
    assert_eq!(
        view(render_lines(&sample(), &o)),
        vec![
            (vec![], vec![], false, RenderItem::Meta(0)),
            (vec![], vec![], false, RenderItem::Child(0)),
            (vec![], vec![], true, RenderItem::Child(1)),
        ]
    );
    let o = RenderOptions { max_depth: Some(0), show_external_refs: true, compact: false };
    assert!(render_lines(&sample(), &o).is_empty());
}
