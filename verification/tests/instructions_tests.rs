use spine::instructions::{append, SPINE_JIT_INSTRUCTIONS, SPINE_TRIM_INSTRUCTIONS};

#[test]
fn feature_off_is_identity() {
    let base = "base instructions".to_string();
    assert_eq!(append(base.clone(), false, false), base);
}

#[test]
fn enabled_instructions_are_idempotent() {
    let once = append("base".to_string(), true, false);
    assert_eq!(append(once.clone(), true, false), once);
}

#[test]
fn enabled_instructions_replace_an_existing_spine_segment() {
    let replaced = append(
        "base\n\n<spine_view>old instructions</spine_view>".to_string(),
        true,
        false,
    );
    assert!(!replaced.contains("old instructions"));
    assert_eq!(replaced.matches("<spine_view>").count(), 1);
}

#[test]
fn trim_instructions_are_independent_and_idempotent() {
    let once = append("base".to_string(), false, true);
    assert_eq!(once, "base");
    assert_eq!(append(once.clone(), false, true), once);
}

#[test]
fn enabled_instructions_follow_the_base_after_a_blank_line() {
    assert_eq!(
        append("base".to_string(), true, false),
        format!("base\n\n{SPINE_JIT_INSTRUCTIONS}")
    );
    assert_eq!(append(String::new(), true, true), SPINE_JIT_INSTRUCTIONS);
}

#[test]
fn enabled_instructions_are_not_added_twice_when_already_present() {
    let base = format!("{SPINE_JIT_INSTRUCTIONS}\n\nlater text");
    assert_eq!(append(base.clone(), true, false), base);
}

#[test]
fn feature_off_keeps_an_existing_spine_segment() {
    let base = "base\n\n<spine_view>old</spine_view>".to_string();
    assert_eq!(append(base.clone(), false, true), base);
}

#[test]
fn trim_section_is_empty() {
    assert!(SPINE_TRIM_INSTRUCTIONS.is_empty());
    assert!(SPINE_JIT_INSTRUCTIONS.starts_with("<spine_view>\n"));
}

fn occurrences(haystack: &str, needle: &str) -> usize {
    haystack.match_indices(needle).count()
}

#[test]
fn feature_off_leaves_base_instructions_byte_identical() {
    let base = "base instructions\nwith punctuation: !?".to_string();
    let actual = append(base.clone(), false, false);
    assert_eq!(actual.as_bytes(), base.as_bytes());
}

#[test]
fn jit_feature_does_not_append_spine_view_twice() {
    let base = format!("base instructions\n\n{SPINE_JIT_INSTRUCTIONS}");
    let actual = append(base.clone(), true, false);
    assert_eq!(actual, base);
    assert_eq!(occurrences(&actual, SPINE_JIT_INSTRUCTIONS), 1);
}
