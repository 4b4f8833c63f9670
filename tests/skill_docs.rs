use mcp_sync::skills::{
    check_new_skill, default_skill_metadata, parse_yaml_frontmatter, skill_dir_name, skill_dir_text,
    skill_frontmatter, validate_skill, Skill,
};

fn skill(name: &str, description: &str, yaml: Option<&str>, path: &str) -> Skill {
    Skill {
        name: name.to_string(),
        skill_type: "personal".to_string(),
        description: description.to_string(),
        file_path: path.to_string(),
        yaml_frontmatter: yaml.map(|y| y.to_string()),
        markdown_content: String::new(),
        files: vec![],
        allowed_tools: None,
        last_modified: String::new(),
    }
}

#[test]
fn frontmatter_and_body() {
    let doc = "\n---\nname: a\ndescription: b\n---\n# Body\ntext\n";
    let (y, m) = parse_yaml_frontmatter(doc).unwrap();
    assert_eq!(y, Some("name: a\ndescription: b".to_string()));
    assert_eq!(m, "# Body\ntext");
}

#[test]
fn document_without_frontmatter() {
    let (y, m) = parse_yaml_frontmatter("  # Title\nbody  ").unwrap();
    assert_eq!(y, None);
    assert_eq!(m, "# Title\nbody");
}

#[test]
fn frontmatter_body_is_trimmed() {
    let (y, m) = parse_yaml_frontmatter("---\nname: x\n---\n  \n  body").unwrap();
    assert_eq!(y, Some("name: x".to_string()));
    assert_eq!(m, "body");
}

#[test]
fn frontmatter_alone_is_unclosed_once_trimmed() {
    assert!(parse_yaml_frontmatter("---\nname: x\n---\n").is_err());
}

#[test]
fn unclosed_frontmatter_is_an_error() {
    assert!(parse_yaml_frontmatter("---\nname: x\nno end").is_err());
}

#[test]
fn valid_skill() {
    let r = validate_skill(&skill("pdf-tools-2", "Extracts text from PDF files", Some("name: x"), ""), false);
    assert!(r.is_valid);
    assert!(r.errors.is_empty());
    assert!(r.warnings.is_empty());
}

#[test]
fn invalid_skill_name_and_short_description() {
    let r = validate_skill(&skill("Bad Name", "short", None, ""), true);
    assert!(!r.is_valid);
    assert_eq!(r.errors, vec!["技能名称只能包含小写字母、数字和连字符"]);
    assert_eq!(r.warnings.len(), 1);
}

#[test]
fn empty_and_long_names() {
    let r = validate_skill(&skill("", "a long enough description", None, ""), true);
    assert_eq!(r.errors, vec!["技能名称不能为空"]);
    let long = "a".repeat(65);
    let r = validate_skill(&skill(&long, "a long enough description", None, ""), true);
    assert_eq!(r.errors, vec!["技能名称不能超过 64 个字符"]);
}

#[test]
fn yaml_error_and_missing_directory() {
    let r = validate_skill(&skill("ok", "a long enough description", Some("a: [b"), "/no/such/dir"), false);
    assert_eq!(r.errors.len(), 2);
    assert!(r.errors[0].starts_with("YAML 语法错误: "));
    assert_eq!(r.errors[1], "技能目录不存在");
}

#[test]
fn new_skill_checks() {
    assert!(check_new_skill(&"good-1".to_string(), &"d".to_string()).is_ok());
    assert_eq!(check_new_skill(&String::new(), &"d".to_string()), Err("技能名称不能为空".to_string()));
    assert_eq!(check_new_skill(&"a".repeat(65), &"d".to_string()), Err("技能名称不能超过 64 个字符".to_string()));
    assert_eq!(check_new_skill(&"Upper".to_string(), &"d".to_string()), Err("技能名称只能包含小写字母、数字和连字符".to_string()));
    assert_eq!(
        check_new_skill(&"x".to_string(), &"d".repeat(1025)),
        Err("技能描述不能超过 1024 个字符".to_string())
    );
}

#[test]
fn frontmatter_written_for_skill() {
    let f = skill_frontmatter(&"pdf".to_string(), &"Reads PDFs".to_string(), &Some(vec!["Read".to_string(), "Grep".to_string()]));
    assert_eq!(f, "---\nname: pdf\ndescription: \"Reads PDFs\"\nallowed-tools: Read, Grep\n---\n");
    let g = skill_frontmatter(&"pdf".to_string(), &"Reads PDFs".to_string(), &None);
    assert_eq!(g, "---\nname: pdf\ndescription: \"Reads PDFs\"\n---\n");
}

#[test]
fn default_metadata_names() {
    let m = default_skill_metadata("/home/u/.agent/skills/my-skill/SKILL.md", true, "# Title");
    assert_eq!(m.name, "my-skill");
    assert_eq!(m.description, "");
    let m = default_skill_metadata("/s/my-skill/SKILL.md", false, "## Nice Title \nrest");
    assert_eq!(m.name, "Nice Title");
    let m = default_skill_metadata("SKILL.md", false, "");
    assert_eq!(m.name, "");
}

#[test]
fn directory_text_helpers() {
    assert_eq!(skill_dir_name("a/b/c"), "b");
    assert_eq!(skill_dir_name("/c"), "");
    assert_eq!(skill_dir_text("/a/b//"), "/a/b");
    assert_eq!(skill_dir_text("C:\\x\\"), "C:\\x");
}
