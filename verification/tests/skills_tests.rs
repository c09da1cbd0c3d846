use minusbot::records::SkillRecord;
use minusbot::skills::{
    index_skill, list_skills, loaded_content, parse_skill_frontmatter, search_skills, skill_meta_of,
    SkillError, SkillMeta,
};

#[test]
fn test_parse_skill_frontmatter() {
    let content = r#"---
id: rust-nes-emulator
name: Rust NES Emulator
description: Knowledge about building accurate NES emulators in Rust.
tags: [rust, emulation, nes]
---

# Rust NES Emulator

This skill covers...
"#;
    let (meta, body) = parse_skill_frontmatter(content).unwrap();
    assert_eq!(meta.id, "rust-nes-emulator");
    assert_eq!(meta.name, "Rust NES Emulator");
    assert_eq!(
        meta.description.as_deref(),
        Some("Knowledge about building accurate NES emulators in Rust.")
    );
    assert_eq!(meta.tags, vec!["rust", "emulation", "nes"]);
    assert!(body.contains("# Rust NES Emulator"));
}

#[test]
fn skill_without_front_matter_is_refused() {
    assert!(matches!(parse_skill_frontmatter("# just text"), Err(SkillError::NoFrontMatter)));
    assert!(matches!(parse_skill_frontmatter("---\nid: a\n"), Err(SkillError::UnclosedFrontMatter)));
    assert!(matches!(parse_skill_frontmatter("---\nname: a\n---\n"), Err(SkillError::MissingId)));
    assert!(matches!(parse_skill_frontmatter("---\nid: a\n---\n"), Err(SkillError::MissingName)));
}

#[test]
fn skill_search_matches_name_description_and_tags() {
    let a = SkillMeta { id: "a".into(), name: "Cooking".into(), description: None, tags: vec!["food".into()] };
    let b = SkillMeta { id: "b".into(), name: "Rust".into(), description: Some("Systems LANGUAGE".into()), tags: vec![] };
    let found = search_skills(vec![a, b], "language");
    assert_eq!(found.len(), 1);
    assert_eq!(found[0].id, "b");
    let a = SkillMeta { id: "a".into(), name: "Cooking".into(), description: None, tags: vec!["Food".into()] };
    assert_eq!(search_skills(vec![a], "FOO").len(), 1);
}

fn record(id: &str, tags_json: Option<&str>, content: &str) -> SkillRecord {
    SkillRecord {
        id: id.into(),
        name: format!("Skill {id}"),
        description: Some("about it".into()),
        tags_json: tags_json.map(|t| t.to_string()),
        content: content.into(),
        file_path: None,
        created_at: "2024-01-01T00:00:00Z".into(),
        updated_at: "2024-01-01T00:00:00Z".into(),
    }
}

#[test]
fn indexed_skills_list_their_stored_tags() {
    let m = skill_meta_of(record("a", Some("[\"rust\",\"nes\"]"), "body"));
    assert_eq!(m.id, "a");
    assert_eq!(m.name, "Skill a");
    assert_eq!(m.description.as_deref(), Some("about it"));
    assert_eq!(m.tags, vec!["rust".to_string(), "nes".to_string()]);
    assert!(skill_meta_of(record("b", Some("not json"), "x")).tags.is_empty());
    assert!(skill_meta_of(record("c", None, "x")).tags.is_empty());
    let all = list_skills(vec![record("a", None, "one"), record("b", Some("[\"t\"]"), "two")]);
    assert_eq!(all.len(), 2);
    assert_eq!(all[1].tags, vec!["t".to_string()]);
    let loaded = loaded_content(vec![record("a", None, "one"), record("b", None, "two")]);
    assert_eq!(loaded, vec!["one".to_string(), "two".to_string()]);
}

#[test]
fn indexing_a_skill_stores_its_tags_as_json() {
    let content = "---\nid: s1\nname: First\ntags: [a, b]\n---\nBody text\n";
    let (meta, body, tags) = index_skill(content).ok().unwrap();
    assert_eq!(meta.id, "s1");
    assert_eq!(body, "Body text");
    assert_eq!(tags, "[\"a\",\"b\"]");
    assert!(matches!(index_skill("no front matter"), Err(SkillError::NoFrontMatter)));
}
