use spine::archive::{memory_ref, render_memory_archive, tree_meta, SpineArchive};
use spine::checkpoint::{collect_checkpoint_refs, parse_stack_symbol_debug_strings, symbol_text};
use spine::ids::NodeId;
use spine::model::{ControlSymbol, RootEpoch, SegRef, SpineTreeNode, Symbol};

fn memory(archive: &SpineArchive, compact_id: &str, node: &[u32]) -> spine::model::MemoryRef {
    memory_ref(
        archive,
        compact_id.to_string(),
        NodeId::from_segments(node.to_vec()),
        "sha1:00".to_string(),
        0..4,
        0..3,
        1..2,
        None,
        None,
        None,
        None,
        None,
        None,
        None,
        None,
    )
}

#[test]
fn memory_ref_body_lives_under_the_bodies_directory() {
    let archive = SpineArchive::new("/tmp/spine".to_string());
    let m = memory(&archive, "compact-7", &[1, 2]);
    assert_eq!(m.body_path, "/tmp/spine/bodies/compact-7.md");
    let meta = tree_meta(&archive, NodeId::from_segments(vec![1, 2]), 3, "goal".to_string()).expect("meta");
    assert_eq!(meta.node_dir, "/tmp/spine/nodes/1/2");
    assert_eq!(archive.staged_memory_body("compact-7"), None);
}

#[test]
fn symbol_texts_name_what_each_symbol_holds() {
    let archive = SpineArchive::new("/tmp/spine".to_string());
    let meta = tree_meta(&archive, NodeId::from_segments(vec![1, 2]), 3, "goal".to_string()).expect("meta");
    let symbols = vec![
        Symbol::Control(ControlSymbol::Open(meta)),
        Symbol::Control(ControlSymbol::Compact(memory(&archive, "c1", &[1, 2]), NodeId::from_segments(vec![1]), 4, 9)),
        Symbol::Control(ControlSymbol::End),
        Symbol::SpineTreeNodes(vec![
            SpineTreeNode::MsgAsLeafNode { msg: SegRef::ResponseItem { raw_ordinal: 5, context_index: 2 }, from_user: true },
            SpineTreeNode::MsgAsLeafNode {
                msg: SegRef::Memory { memory_id: "m9".to_string(), body_path: "b".to_string() },
                from_user: false,
            },
        ]),
        Symbol::RootEpoches(vec![
            RootEpoch { memory: memory(&archive, "r1", &[1]) },
            RootEpoch { memory: memory(&archive, "r2", &[2]) },
        ]),
    ];
    let texts = parse_stack_symbol_debug_strings(&symbols);
    assert_eq!(
        texts,
        vec![
            "Open(1.2)".to_string(),
            "Compact(c1, 1, 4, 9)".to_string(),
            "End".to_string(),
            "Nodes(Msg(raw 5 @2), Msg(mem m9))".to_string(),
            "RootEpoches(r1, r2)".to_string(),
        ]
    );
    assert_eq!(symbol_text(&Symbol::SpineTreeNodes(Vec::new())), "Nodes()");
}

#[test]
fn memory_archive_without_token_baselines_has_header_then_body() {
    let archive = SpineArchive::new("/tmp/spine".to_string());
    let m = memory(&archive, "compact-7", &[1, 2]);
    let text = render_memory_archive(&m, None, "facts").expect("render");
    assert_eq!(
        text,
        "# Spine Memory Archive\n\ncompact_id: compact-7\nnode_id: 1.2\nbody_path: /tmp/spine/bodies/compact-7.md\n\
         body_hash: sha1:00\nsource_raw_range: [0..4)\nsource_context_range: [0..3)\nsource_token_seq: [1..2)\n\
         ## Body\n\nfacts\n"
    );
    let kept = render_memory_archive(&m, None, "facts\n").expect("render");
    assert!(kept.ends_with("## Body\n\nfacts\n"));
    let err = render_memory_archive(&m, Some("other body"), "facts").expect_err("hash");
    assert_eq!(
        err,
        spine::model::SpineError::InvalidStore("staged memory body hash mismatch for compact-7".to_string())
    );
}

fn tree(archive: &SpineArchive, node: &[u32], children: Vec<SpineTreeNode>) -> SpineTreeNode {
    let id = NodeId::from_segments(node.to_vec());
    let name = id.to_string();
    SpineTreeNode::SpineTree {
        meta: tree_meta(archive, id, 1, format!("goal {name}")).expect("meta"),
        memory: memory(archive, &format!("c{name}"), node),
        memory_path: format!("/m/{name}"),
        trajs_path: format!("/t/{name}"),
        children,
    }
}

#[test]
fn checkpoint_refs_follow_symbol_order_and_preorder() {
    let archive = SpineArchive::new("/tmp/spine".to_string());
    let leaf = || SpineTreeNode::MsgAsLeafNode {
        msg: SegRef::ResponseItem { raw_ordinal: 0, context_index: 0 },
        from_user: true,
    };
    let open = tree_meta(&archive, NodeId::from_segments(vec![9]), 0, "open".to_string()).expect("meta");
    let nested = tree(&archive, &[1], vec![tree(&archive, &[1, 1], vec![leaf()]), tree(&archive, &[1, 2], vec![])]);
    let symbols = vec![
        Symbol::Control(ControlSymbol::Open(open)),
        Symbol::Control(ControlSymbol::End),
        Symbol::SpineTreeNodes(vec![leaf(), nested]),
        Symbol::Control(ControlSymbol::Close(memory(&archive, "closed", &[2]))),
        Symbol::RootEpoches(vec![RootEpoch { memory: memory(&archive, "epoch", &[3]) }]),
    ];
    let refs = collect_checkpoint_refs(&symbols);
    let metas: Vec<String> = refs.tree_meta.iter().map(|m| m.id.clone()).collect();
    assert_eq!(metas, vec!["9", "1", "1.1", "1.2"]);
    let memories: Vec<String> = refs.memory_refs.iter().map(|m| m.compact_id.clone()).collect();
    assert_eq!(memories, vec!["c1", "c1.1", "c1.2", "closed", "epoch"]);
    let trajs: Vec<(String, String)> =
        refs.trajs_refs.iter().map(|t| (t.node_id.clone(), t.trajs_path.clone())).collect();
    assert_eq!(
        trajs,
        vec![
            ("1".to_string(), "/t/1".to_string()),
            ("1.1".to_string(), "/t/1.1".to_string()),
            ("1.2".to_string(), "/t/1.2".to_string()),
        ]
    );
}
