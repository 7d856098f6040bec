use spine::mem_install::{
    memory_body_for_hash, memory_body_hash, parse_generated_memory_sections,
    verify_memory_body_ref, GeneratedMemorySection, MemoryBodyError, MemoryBodyRef,
    MemorySectionId, GENERATED_MEMORY_SECTION_MARKER,
};

fn auto_section(base: &str, rollout: &str, body: &str, summary: &str) -> String {
    format!(
        "\n\n## Auto Compact\n\nBase: {base}\nFold: response ordinals [2, 20)\nNode trajs: nodes/1/trajs.jsonl\nRaw mirror: raw/rollout.raw.jsonl\nRollout: {rollout}\n\n{body}\n\n## Node Summary\n\n{summary}\n"
    )
}

fn storage() -> String {
    "nodes/1/memory.md".to_string()
}

#[test]
fn mem_install_parses_indexed_generated_sections() {
    let first = auto_section("/old/base", "/old/rollout.jsonl", "first facts", "first");
    let second = auto_section("/old/base", "/old/rollout.jsonl", "second facts", "second");
    let memory = format!(
        "manual note{GENERATED_MEMORY_SECTION_MARKER}{first}{GENERATED_MEMORY_SECTION_MARKER}{second}"
    );

    let sections = parse_generated_memory_sections(storage(), &memory);

    assert_eq!(
        sections,
        vec![
            GeneratedMemorySection {
                section_id: MemorySectionId::new(storage(), 0),
                payload: first,
                body: "first facts".to_string(),
                body_hash: memory_body_hash("first facts"),
            },
            GeneratedMemorySection {
                section_id: MemorySectionId::new(storage(), 1),
                payload: second,
                body: "second facts".to_string(),
                body_hash: memory_body_hash("second facts"),
            },
        ]
    );
}

#[test]
fn mem_install_verifies_body_ref_by_section_index() {
    let first = auto_section("/base", "/rollout.jsonl", "first facts", "first");
    let second = auto_section("/base", "/rollout.jsonl", "second facts", "second");
    let memory =
        format!("{GENERATED_MEMORY_SECTION_MARKER}{first}{GENERATED_MEMORY_SECTION_MARKER}{second}");
    let sections = parse_generated_memory_sections(storage(), &memory);
    let second_ref = sections[1].body_ref();

    assert_eq!(
        verify_memory_body_ref("nodes/1/memory.md", &memory, &second_ref).expect("verify second"),
        sections[1]
    );

    let wrong_hash = MemoryBodyRef {
        section_id: MemorySectionId::new(storage(), 1),
        body_hash: memory_body_hash("first facts"),
    };
    assert!(matches!(
        verify_memory_body_ref("nodes/1/memory.md", &memory, &wrong_hash),
        Err(MemoryBodyError::BodyHashMismatch { .. })
    ));

    let wrong_storage = MemoryBodyRef {
        section_id: MemorySectionId::new("nodes/2/memory.md".to_string(), 1),
        body_hash: second_ref.body_hash,
    };
    assert!(matches!(
        verify_memory_body_ref("nodes/1/memory.md", &memory, &wrong_storage),
        Err(MemoryBodyError::StorageMismatch { .. })
    ));
}

#[test]
fn mem_install_hash_ignores_auto_compact_audit_path_drift() {
    let source = format!(
        "{GENERATED_MEMORY_SECTION_MARKER}{}",
        auto_section("/parent/base", "/parent/rollout.jsonl", "portable facts", "done")
    );
    let relocated = source
        .replace("/parent/base", "/child/base")
        .replace("/parent/rollout.jsonl", "/child/rollout.jsonl");

    let source_sections = parse_generated_memory_sections(storage(), &source);
    let relocated_sections = parse_generated_memory_sections(storage(), &relocated);
    let source_section = &source_sections[0];
    let relocated_section = &relocated_sections[0];

    assert_eq!(source_section.body, "portable facts");
    assert_eq!(source_section.body_hash, relocated_section.body_hash);
}

#[test]
fn mem_install_hashes_plain_section_payload_when_shape_is_unknown() {
    let memory = format!("{GENERATED_MEMORY_SECTION_MARKER}plain generated payload");

    let sections = parse_generated_memory_sections(storage(), &memory);

    assert_eq!(sections[0].body, "plain generated payload");
    assert_eq!(sections[0].body_hash, memory_body_hash("plain generated payload"));
}

#[test]
fn memory_body_hash_is_prefixed_sha1_hex() {
    assert_eq!(
        memory_body_hash("abc"),
        "sha1:a9993e364706816aba3e25717850c26c9cd0d89d"
    );
    assert_eq!(
        memory_body_hash(""),
        "sha1:da39a3ee5e6b4b0d3255bfef95601890afd80709"
    );
}

#[test]
fn memory_without_generated_sections_has_none() {
    assert!(parse_generated_memory_sections(storage(), "manual note only").is_empty());
}

#[test]
fn section_id_text_round_trips() {
    let id = MemorySectionId::new(storage(), 3);
    let text = id.to_string();
    assert_eq!(text, "nodes/1/memory.md#section-3");
    assert_eq!(MemorySectionId::parse(&text, storage()), Ok(MemorySectionId::new(storage(), 3)));
    assert!(matches!(
        MemorySectionId::parse("nodes/1/memory.md#section-x", storage()),
        Err(MemoryBodyError::MalformedSectionId { .. })
    ));
}

#[test]
fn missing_section_index_is_reported() {
    let memory = format!("{GENERATED_MEMORY_SECTION_MARKER}only one");
    let body_ref = MemoryBodyRef {
        section_id: MemorySectionId::new(storage(), 1),
        body_hash: memory_body_hash("only one"),
    };
    assert_eq!(
        verify_memory_body_ref("nodes/1/memory.md", &memory, &body_ref),
        Err(MemoryBodyError::MissingSection { section_id: MemorySectionId::new(storage(), 1) })
    );
}

#[test]
fn body_for_hash_strips_auto_compact_audit_lines_and_summary() {
    let payload = auto_section("/b", "/r", "kept facts", "sum");
    assert_eq!(memory_body_for_hash(&payload), "kept facts");
    assert_eq!(memory_body_for_hash("  plain  "), "  plain  ");
    assert_eq!(
        MemorySectionId::parse("nodes/1/memory.md#section-+4", storage()),
        Ok(MemorySectionId::new(storage(), 4))
    );
}
