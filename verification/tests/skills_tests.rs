use iris_agentic_dev_core::skills::{
    extract_frontmatter_field, extract_h1_title, manifest_url, raw_url, skill_md_url,
    split_owner_repo, SkillRegistry,
};

#[test]
fn test_extract_frontmatter_field_found() {
    let md = "---\nname: my-skill\ndescription: does stuff\n---\n# Title";
    assert_eq!(extract_frontmatter_field(md, "name"), Some("my-skill".to_string()));
}
#[test]
fn test_extract_frontmatter_field_not_found() {
    let md = "---\nname: skill\n---\n# Title";
    assert!(extract_frontmatter_field(md, "version").is_none());
}
#[test]
fn test_extract_frontmatter_field_no_frontmatter() {
    let md = "# Title\n\nSome content";
    assert!(extract_frontmatter_field(md, "name").is_none());
}
#[test]
fn test_extract_frontmatter_field_quoted_value() {
    let md = "---\ndescription: \"quoted value\"\n---";
    assert_eq!(extract_frontmatter_field(md, "description"), Some("quoted value".to_string()));
}
#[test]
fn test_extract_h1_title_found() {
    let md = "---\nname: x\n---\n# My Skill Title\n\nContent here.";
    assert_eq!(extract_h1_title(md), Some("My Skill Title".to_string()));
}
#[test]
fn test_extract_h1_title_not_found() {
    let md = "No h1 here\n## h2 only";
    assert!(extract_h1_title(md).is_none());
}
#[test]
fn test_extract_h1_title_ignores_h2() {
    let md = "## Not h1\n# Actual h1";
    assert_eq!(extract_h1_title(md), Some("Actual h1".to_string()));
}
#[test]
fn test_extract_frontmatter_field_trimmed_whitespace() {
    let md = "---\nname:   padded-value  \n---";
    assert_eq!(extract_frontmatter_field(md, "name"), Some("padded-value".to_string()));
}
#[test]
fn test_extract_frontmatter_field_second_field() {
    let md = "---\nname: first\ndescription: second field\n---";
    assert_eq!(extract_frontmatter_field(md, "description"), Some("second field".to_string()));
}
#[test]
fn test_extract_frontmatter_field_partial_prefix_no_match() {
    let md = "---\nnames: wrong\n---";
    assert!(extract_frontmatter_field(md, "name").is_none());
}
#[test]
fn test_extract_h1_title_first_h1_wins() {
    let md = "# First Title\n# Second Title";
    assert_eq!(extract_h1_title(md), Some("First Title".to_string()));
}
#[test]
fn test_extract_h1_title_empty_h1() {
    let md = "# \nsome content";
    assert_eq!(extract_h1_title(md), Some(String::new()));
}
#[test]
fn test_skill_registry_new_is_empty() {
    let registry = SkillRegistry::new();
    assert!(registry.list_skills().is_empty());
    assert!(registry.list_kb_items().is_empty());
}
#[test]
fn test_skill_registry_default_is_empty() {
    let registry = SkillRegistry::default();
    assert!(registry.list_skills().is_empty());
    assert!(registry.list_kb_items().is_empty());
}
#[test]
fn registry_starts_empty() {
    let registry = SkillRegistry::new();
    assert_eq!(registry.list_skills().len(), 0);
}

#[test]
fn skill_documents_need_a_name_and_default_description() {
    let mut r = SkillRegistry::new();
    assert!(!r.add_skill_document("# no front matter".to_string(), "o/r"));
    assert!(r.add_skill_document("---\nname: \"s1\"\n---\nbody".to_string(), "o/r"));
    let s = &r.list_skills()[0];
    assert_eq!(s.name, "s1");
    assert_eq!(s.description, "s1");
    assert_eq!(s.source_repo, "o/r");
}

#[test]
fn kb_title_falls_back_to_heading_then_path() {
    let mut r = SkillRegistry::new();
    r.add_kb_document("---\ntitle: T\n---".to_string(), "kb/a.md", "o/r");
    r.add_kb_document("text\n# # Heading".to_string(), "kb/b.md", "o/r");
    r.add_kb_document("plain".to_string(), "kb/c.md", "o/r");
    let titles: Vec<&str> = r.list_kb_items().iter().map(|k| k.title.as_str()).collect();
    assert_eq!(titles, vec!["T", "Heading", "kb/c.md"]);
}

#[test]
fn owner_repo_and_urls() {
    assert_eq!(split_owner_repo("a/b/c").unwrap(), ("a".to_string(), "b/c".to_string()));
    assert_eq!(split_owner_repo("nope").unwrap_err(), "invalid owner/repo: nope");
    assert_eq!(manifest_url("o", "r"), "https://raw.githubusercontent.com/o/r/HEAD/iris-agentic-dev.toml");
    assert_eq!(skill_md_url("o", "r", "skills/x"), "https://raw.githubusercontent.com/o/r/HEAD/skills/x/SKILL.md");
    assert_eq!(raw_url("o", "r", "kb/a.md"), "https://raw.githubusercontent.com/o/r/HEAD/kb/a.md");
}
