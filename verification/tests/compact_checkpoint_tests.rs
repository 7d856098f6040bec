use sha1::{Digest, Sha1};
use spine::compact_checkpoint::{
    build_compact_checkpoint, collect_visible_item_refs, compact_checkpoint_replacement_history_hash,
    hash_encoded_item, hash_encoded_items, validate_compact_checkpoint, validate_response_item_refs,
    CHECKPOINT_VERSION,
};
use spine::model::{SegRef, SpineError, SpineTreeNode, Symbol};

fn text_item(text: &str) -> String {
    format!(
        r#"{{"type":"message","role":"user","content":[{{"type":"input_text","text":"{text}"}}]}}"#
    )
}

fn sha1_hex(data: &str) -> String {
    let mut hasher = Sha1::new();
    hasher.update(data.as_bytes());
    format!("{:x}", hasher.finalize())
}

fn leaf(raw_ordinal: u64, context_index: usize) -> SpineTreeNode {
    SpineTreeNode::MsgAsLeafNode {
        msg: SegRef::ResponseItem { raw_ordinal, context_index },
        from_user: true,
    }
}

#[test]
fn replacement_history_response_item_mapping_checked() {
    let rollout = "/tmp/sessions/rollout.jsonl";
    let first = text_item("first ordinary item");
    let second = text_item("second ordinary item");
    let raw_items = vec![Some(first.clone()), Some(second.clone())];
    let raw_live = vec![true, true];
    let symbols = vec![Symbol::SpineTreeNodes(vec![leaf(0, 0), leaf(1, 1)])];
    let replacement_history = vec![first, second];
    let checkpoint = build_compact_checkpoint(
        rollout,
        2,
        3,
        &raw_live,
        &raw_items,
        &symbols,
        &replacement_history,
        &replacement_history,
    )
    .expect("build checkpoint");

    validate_compact_checkpoint(&checkpoint, rollout, &raw_live, &raw_items, &replacement_history)
        .expect("valid response item mapping should pass");

    let mut corrupted = checkpoint;
    corrupted.response_item_refs[0].context_index = 1;
    corrupted.response_item_refs[1].context_index = 0;

    let err = validate_compact_checkpoint(&corrupted, rollout, &raw_live, &raw_items, &replacement_history)
        .expect_err("corrupted raw/context mapping must fail closed");
    assert!(
        format!("{err:?}").contains("does not match replacement_history context index"),
        "unexpected checkpoint validation error: {err:?}"
    );
}

#[test]
fn item_hash_is_sha1_of_the_json_array() {
    let item = text_item("hello");
    assert_eq!(hash_encoded_item(&item), sha1_hex(&format!("[{item}]")));
    assert_ne!(hash_encoded_item(&item), item);
    let items = vec!["1".to_string(), "\"a\"".to_string()];
    assert_eq!(hash_encoded_items(&items), sha1_hex("[1,\"a\"]"));
    assert_eq!(hash_encoded_items(&Vec::new()), sha1_hex("[]"));
    assert_eq!(compact_checkpoint_replacement_history_hash(&items), sha1_hex("[1,\"a\"]"));
}

#[test]
fn built_checkpoint_records_boundary_and_hashes() {
    let rollout = "/tmp/r.jsonl";
    let a = text_item("a");
    let raw_items = vec![Some(a.clone()), None];
    let raw_live = vec![true, false];
    let symbols = vec![Symbol::SpineTreeNode(leaf(0, 0))];
    let context = vec![a.clone()];
    let checkpoint =
        build_compact_checkpoint(rollout, 1, 9, &raw_live, &raw_items, &symbols, &context, &context)
            .expect("build");
    assert_eq!(checkpoint.version, CHECKPOINT_VERSION);
    assert_eq!(checkpoint.rollout_path, rollout);
    assert_eq!(checkpoint.raw_boundary, 1);
    assert_eq!(checkpoint.token_seq, 9);
    assert_eq!(checkpoint.raw_live_hash, sha1_hex("1"));
    assert_eq!(checkpoint.context_len, 1);
    assert_eq!(checkpoint.h_ps_hash, sha1_hex(&format!("[{a}]")));
    assert_eq!(checkpoint.response_item_refs.len(), 1);
    assert_eq!(checkpoint.response_item_refs[0].raw_ordinal, 0);
    assert_eq!(checkpoint.response_item_refs[0].item_hash, hash_encoded_item(&a));
    assert!(checkpoint.memory_item_refs.is_empty());
    validate_compact_checkpoint(&checkpoint, rollout, &raw_live, &raw_items, &context).expect("valid");
}

#[test]
fn build_rejects_boundary_past_raw_live() {
    let err = build_compact_checkpoint("/r", 3, 0, &vec![true], &vec![None], &Vec::new(), &Vec::new(), &Vec::new())
        .expect_err("boundary past raw live");
    assert_eq!(err, SpineError::InvalidEvent("compact raw boundary exceeds raw live length".to_string()));
}

#[test]
fn collect_rejects_item_rendered_at_another_index() {
    let a = text_item("a");
    let symbols = vec![Symbol::SpineTreeNode(leaf(0, 1))];
    let err = collect_visible_item_refs(&symbols, 1, &vec![Some(a.clone())], &vec![a]).expect_err("wrong index");
    assert_eq!(
        err,
        SpineError::InvalidEvent(
            "compact checkpoint response item raw ordinal 0 has context index 1 but renders at 0".to_string()
        )
    );
}

#[test]
fn collect_rejects_uncovered_context() {
    let a = text_item("a");
    let err = collect_visible_item_refs(&Vec::new(), 1, &vec![Some(a.clone())], &vec![a]).expect_err("uncovered");
    assert_eq!(
        err,
        SpineError::InvalidEvent("compact checkpoint item refs covered 0 context items but h(PS) has 1".to_string())
    );
}

#[test]
fn collect_memory_leaf_gives_memory_ref() {
    let m = text_item("memory");
    let symbols = vec![Symbol::SpineTreeNode(SpineTreeNode::MsgAsLeafNode {
        msg: SegRef::Memory { memory_id: "c1".to_string(), body_path: "b".to_string() },
        from_user: false,
    })];
    let (rs, ms) = collect_visible_item_refs(&symbols, 0, &Vec::new(), &vec![m.clone()]).expect("collect");
    assert!(rs.is_empty());
    assert_eq!(ms.len(), 1);
    assert_eq!(ms[0].compact_id, "c1");
    assert_eq!(ms[0].context_index, 0);
    assert_eq!(ms[0].item_hash, hash_encoded_item(&m));
}

#[test]
fn validate_rejects_other_rollout_and_version() {
    let a = text_item("a");
    let raw_items = vec![Some(a.clone())];
    let raw_live = vec![true];
    let symbols = vec![Symbol::SpineTreeNode(leaf(0, 0))];
    let context = vec![a];
    let checkpoint =
        build_compact_checkpoint("/one", 1, 0, &raw_live, &raw_items, &symbols, &context, &context).expect("build");
    let err = validate_compact_checkpoint(&checkpoint, "/two", &raw_live, &raw_items, &context).expect_err("rollout");
    assert_eq!(
        err,
        SpineError::InvalidStore("spine compact checkpoint rollout identity mismatch at raw boundary 1".to_string())
    );
    let mut old = checkpoint;
    old.version = CHECKPOINT_VERSION + 1;
    let err = validate_compact_checkpoint(&old, "/one", &raw_live, &raw_items, &context).expect_err("version");
    assert_eq!(
        err,
        SpineError::InvalidStore(format!("unsupported spine compact checkpoint version {}", CHECKPOINT_VERSION + 1))
    );
}

#[test]
fn response_item_ref_validation_names_the_first_failed_check() {
    let a = text_item("a");
    let b = text_item("b");
    let raw_items = vec![Some(a.clone()), Some(b.clone())];
    let raw_live = vec![true, true];
    let symbols = vec![Symbol::SpineTreeNodes(vec![leaf(0, 0), leaf(1, 1)])];
    let context = vec![a.clone(), b.clone()];
    let make = || build_compact_checkpoint("/r", 2, 0, &raw_live, &raw_items, &symbols, &context, &context).expect("build");
    let checkpoint = make();
    assert_eq!(validate_response_item_refs(&checkpoint, &raw_live, &raw_items, &context), Ok(()));

    let short = vec![a.clone()];
    assert_eq!(
        validate_response_item_refs(&checkpoint, &raw_live, &raw_items, &short),
        Err(SpineError::InvalidStore(
            "spine compact checkpoint context length 2 does not match replacement_history length 1 at raw boundary 2"
                .to_string()
        ))
    );

    let mut dup = make();
    dup.response_item_refs[1].raw_ordinal = 0;
    assert_eq!(
        validate_response_item_refs(&dup, &raw_live, &raw_items, &context),
        Err(SpineError::InvalidStore("duplicate compact checkpoint response item raw ordinal 0".to_string()))
    );

    let dead = vec![true, false];
    assert_eq!(
        validate_response_item_refs(&checkpoint, &dead, &raw_items, &context),
        Err(SpineError::InvalidStore(
            "compact checkpoint response item raw ordinal 1 is not live at raw boundary 2".to_string()
        ))
    );

    let mut uncovered = make();
    uncovered.response_item_refs.truncate(1);
    assert_eq!(
        validate_response_item_refs(&uncovered, &raw_live, &raw_items, &context),
        Err(SpineError::InvalidStore(
            "compact checkpoint missing response item or memory proof for replacement_history context index 1"
                .to_string()
        ))
    );
}
