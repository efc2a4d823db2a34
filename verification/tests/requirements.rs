use mantra::markup;
use mantra::requirements::{
    apply_field, collect_requirements, match_bool, resolve_frontmatter, update_bool, CollectError,
    CollectableFile, FieldKey, ReqFields, SchemaOrigin, SCHEMA_VERSION,
};
use mantra::dot_hierarchy::dot_hierarchy;

fn file(path: &str, content: &str) -> CollectableFile {
    CollectableFile { filepath: path.to_string(), content: content.to_string() }
}

fn pid() -> String {
    "product-id".to_string()
}

#[test]
fn single_requirement() {
    let f = file("reqs.md", "# `req-1`: First requirement\n\nSome description.\n");
    let schema = collect_requirements(&pid(), &f).unwrap().unwrap();
    assert_eq!(schema.schema_version.as_deref(), Some(SCHEMA_VERSION));
    assert_eq!(schema.product_id, Some(pid()));
    assert_eq!(schema.requirements.len(), 1);
    let r = &schema.requirements[0];
    assert_eq!(r.id, "req-1");
    assert_eq!(r.title, "First requirement");
    assert_eq!(r.origin.line, 1);
    assert!(r.description.as_ref().unwrap().contains("Some description."));
    assert!(!r.deprecated && !r.exclude && !r.optional && !r.manual_verification);
    assert!(r.parents.is_none() && r.replaces.is_none() && r.properties.is_none());
    match schema.origin {
        Some(SchemaOrigin::File(b)) => assert_eq!(b.file, "reqs.md"),
        _ => panic!("origin must be the file"),
    }
}

#[test]
fn multiple_requirements() {
    let f = file(
        "reqs.md",
        "Intro text.\n\n# `req-1`: One\n\nFirst.\n\n## Plain heading\n\nStill first.\n\n# `req-2`: Two\n",
    );
    let schema = collect_requirements(&pid(), &f).unwrap().unwrap();
    assert_eq!(schema.requirements.len(), 2);
    assert_eq!(schema.requirements[0].id, "req-1");
    assert_eq!(schema.requirements[0].origin.line, 3);
    let desc = schema.requirements[0].description.clone().unwrap();
    assert!(desc.contains("First.") && desc.contains("Plain heading") && desc.contains("Still first."));
    assert_eq!(schema.requirements[1].id, "req-2");
    assert_eq!(schema.requirements[1].title, "Two");
    assert!(schema.requirements[1].description.is_none());
}

#[test]
fn mantra_known_fields() {
    let f = file(
        "reqs.md",
        "# `req-1`: Fields\n\n- **Parents:** [\"req-0\"]\n- **Deprecated:** true\n- Optional: false\n- Manual: TRUE\n- **Exclude:** false\n- **Replaces:** [\"old-1\", \"old-2\"]\n\nText.\n",
    );
    let schema = collect_requirements(&pid(), &f).unwrap().unwrap();
    let r = &schema.requirements[0];
    assert_eq!(r.parents, Some(vec!["req-0".to_string()]));
    assert!(r.deprecated);
    assert!(!r.optional);
    assert!(r.manual_verification);
    assert!(!r.exclude);
    assert_eq!(r.replaces, Some(vec!["old-1".to_string(), "old-2".to_string()]));
    assert!(r.description.as_ref().unwrap().contains("Text."));
}

#[test]
fn known_and_custom_fields() {
    let f = file("reqs.md", "# `req-1`: Custom\n\n- **Version:** 2\n- Optional: true\n");
    let schema = collect_requirements(&pid(), &f).unwrap().unwrap();
    let r = &schema.requirements[0];
    assert!(r.optional);
    let props = r.properties.as_ref().unwrap();
    assert_eq!(props.len(), 1);
    assert_eq!(props.get(&"Version".to_string()), Some(&serde_json::Value::from(2)));
}

fn duplicate_key(res: Result<Option<mantra::requirements::RequirementSchema>, CollectError>) -> FieldKey {
    match res {
        Err(CollectError::InField(key, inner)) => {
            assert!(matches!(*inner, CollectError::DuplicateEntry), "expected a duplicate entry");
            key
        },
        _ => panic!("expected a duplicate entry for a key"),
    }
}

#[test]
fn duplicate_deprecated() {
    let f = file("reqs.md", "# `req-1`: Dup\n\n- Deprecated: true\n- deprecated: false\n");
    assert_eq!(duplicate_key(collect_requirements(&pid(), &f)), FieldKey::Deprecated);
}

#[test]
fn duplicate_exclude() {
    let f = file("reqs.md", "# `req-1`: Dup\n\n- Exclude: true\n- Exclude: true\n");
    assert_eq!(duplicate_key(collect_requirements(&pid(), &f)), FieldKey::Exclude);
}

#[test]
fn duplicate_manual_verification() {
    let f = file("reqs.md", "# `req-1`: Dup\n\n- Manual Verification: true\n- Manual: false\n");
    assert_eq!(duplicate_key(collect_requirements(&pid(), &f)), FieldKey::ManualVerification);
}

#[test]
fn duplicate_optional() {
    let f = file("reqs.md", "# `req-1`: Dup\n\n- **Optional:** false\n- Optional: true\n");
    assert_eq!(duplicate_key(collect_requirements(&pid(), &f)), FieldKey::Optional);
}

#[test]
fn flag_value_names_its_key() {
    let f = file("reqs.md", "# `req-1`: Flag\n\n- Exclude: maybe\n");
    match collect_requirements(&pid(), &f) {
        Err(CollectError::InField(FieldKey::Exclude, inner)) => match *inner {
            CollectError::ExpectedBool(s) => assert_eq!(s, "maybe"),
            _ => panic!("expected a refused flag value"),
        },
        _ => panic!("expected an error for the key Exclude"),
    }
}

#[test]
fn duplicate_parents() {
    let f = file("reqs.md", "# `req-1`: Dup\n\n- Parents: [\"a\"]\n- Parents: [\"b\"]\n");
    assert!(matches!(
        collect_requirements(&pid(), &f),
        Err(CollectError::DuplicateField(FieldKey::Parents))
    ));
}

#[test]
fn duplicate_replaces() {
    let f = file("reqs.md", "# `req-1`: Dup\n\n- Replaces: [\"a\"]\n- Replaces: [\"b\"]\n");
    assert!(matches!(
        collect_requirements(&pid(), &f),
        Err(CollectError::DuplicateField(FieldKey::Replaces))
    ));
}

#[test]
fn bad_parent() {
    let f = file("reqs.md", "# `req-1`: Bad\n\n- Parents: \"a\"\n");
    assert!(matches!(collect_requirements(&pid(), &f), Err(CollectError::MissingParentsEnd)));
}

#[test]
fn no_separator() {
    let f = file("reqs.md", "# `req-1` Title without separator\n");
    assert!(matches!(collect_requirements(&pid(), &f), Err(CollectError::MissingTitleSeparator)));
}

#[test]
fn no_title() {
    let f = file("reqs.md", "# `req-1`:\n");
    assert!(matches!(collect_requirements(&pid(), &f), Err(CollectError::MissingTitle)));
}

#[test]
fn missing_key_delimiter() {
    let f = file("reqs.md", "# `req-1`: Title\n\n- no delimiter here\n");
    assert!(matches!(collect_requirements(&pid(), &f), Err(CollectError::MissingKeyDelimiter(3))));
}

#[test]
fn no_requirements_no_schema() {
    let f = file("notes.md", "# Notes\n\nNothing to see.\n");
    assert!(collect_requirements(&pid(), &f).unwrap().is_none());
}

#[test]
fn diff_product_frontmatter() {
    let f = file("reqs.md", "+++\nproduct_id: \"product-id\",\n+++\n\n# `req-1`: Title\n");
    let no_schema = collect_requirements(&"other-pid".to_string(), &f).unwrap();
    assert!(no_schema.is_none(), "File is set for other product, so no requirement is collected");
}

#[test]
fn matching_frontmatter() {
    let f = file(
        "reqs.md",
        "+++\nproduct_id: \"product-id\",\norigin: \"spec\",\nproperties: { team: \"a\" },\n+++\n\n# `req-1`: Title\n",
    );
    let schema = collect_requirements(&pid(), &f).unwrap().unwrap();
    assert_eq!(schema.requirements.len(), 1);
    assert_eq!(schema.requirements[0].origin.line, 7);
    match schema.origin {
        Some(SchemaOrigin::Explicit(v)) => assert_eq!(v, serde_json::Value::String("spec".to_string())),
        _ => panic!("origin must come from the front matter"),
    }
    assert_eq!(schema.properties.unwrap().len(), 1);
}

#[test]
fn frontmatter_without_end() {
    assert!(matches!(resolve_frontmatter("+++\nproduct_id: \"x\"\n"), Err(CollectError::MissingFrontmatterEnd)));
}

#[test]
fn frontmatter_fields() {
    let f = resolve_frontmatter("+++\nmantra_schema: \"0.1\",\nproduct_id: null\n+++\n").unwrap();
    assert_eq!(f.mantra_schema, Some("0.1".to_string()));
    assert_eq!(f.product_id, None);
    assert!(f.properties.is_none() && f.origin.is_none());
    assert!(matches!(resolve_frontmatter("+++\nproduct_id: 3\n+++"), Err(CollectError::InvalidFrontmatter)));
    assert!(matches!(resolve_frontmatter("+++\nproduct_id: \n+++"), Err(CollectError::Json5(_))));
}

#[test]
fn field_keys() {
    assert_eq!(FieldKey::from_str("Parents"), FieldKey::Parents);
    assert_eq!(FieldKey::from_str("Manual Verification"), FieldKey::ManualVerification);
    assert_eq!(FieldKey::from_str("manual"), FieldKey::ManualVerification);
    assert_eq!(FieldKey::from_str("DEPRECATED"), FieldKey::Deprecated);
    assert_eq!(FieldKey::from_str("exclude"), FieldKey::Exclude);
    assert_eq!(FieldKey::from_str("Optional"), FieldKey::Optional);
    assert_eq!(FieldKey::from_str("Replaces"), FieldKey::Replaces);
    assert_eq!(FieldKey::from_str("Version"), FieldKey::Properties);
    assert_eq!(FieldKey::from_lowercase("Parents"), FieldKey::Properties);
    assert_eq!(FieldKey::ManualVerification.name(), "Manual Verification");
}

#[test]
fn bools() {
    assert!(matches!(match_bool(" True\n"), Ok(true)));
    assert!(matches!(match_bool("false"), Ok(false)));
    match match_bool("yes") {
        Err(CollectError::ExpectedBool(s)) => assert_eq!(s, "yes"),
        _ => panic!("'yes' is no flag"),
    }
    let mut b = None;
    assert!(update_bool(&mut b, "true").is_ok());
    assert_eq!(b, Some(true));
    assert!(matches!(update_bool(&mut b, "false"), Err(CollectError::DuplicateEntry)));
    assert_eq!(b, Some(true));
}

#[test]
fn escaped_brackets_are_read_back() {
    let mut fields = ReqFields::new();
    apply_field(&mut fields, &"Replaces".to_string(), &" \\[\"a\"\\] ".to_string()).unwrap();
    assert_eq!(fields.replaces, Some(vec!["a".to_string()]));
}

#[test]
fn markdown_extension_detection() {
    assert_eq!(markup::path_extension("file.md"), Some("md".to_string()));
    assert_eq!(markup::path_extension("dir/file.markdown"), Some("markdown".to_string()));
    assert_eq!(markup::path_extension(".hidden"), None);
    let f = file("reqs.markdown", "# `req-1`: Title\n");
    assert!(markup::collect_requirements(&pid(), &f).unwrap().is_some());
}

#[test]
fn non_markdown_files_are_skipped() {
    let f = file("reqs.txt", "# `req-1`: Title\n");
    assert!(markup::collect_requirements(&pid(), &f).unwrap().is_none());
    let f = file("reqs.md", "# `req-1`: Title\n");
    assert_eq!(markup::collect_requirements(&pid(), &f).unwrap().unwrap().requirements.len(), 1);
}

#[test]
fn dot_nested_requirements() {
    let f = file(
        "reqs.md",
        "# `req-1`: Parent\n\n## `req-1.sub-1`: Child\n\n### `req-1.sub-1.sub-1`: Grandchild\n\n## `req-1.sub-2`: Second child\n",
    );
    let schema = collect_requirements(&pid(), &f).unwrap().unwrap();
    let ids: Vec<String> = schema.requirements.iter().map(|r| r.id.clone()).collect();
    assert_eq!(ids, vec!["req-1", "req-1.sub-1", "req-1.sub-1.sub-1", "req-1.sub-2"]);
    let lines: Vec<usize> = schema.requirements.iter().map(|r| r.origin.line).collect();
    assert_eq!(lines, vec![1, 3, 5, 7]);
    assert!(schema.requirements.iter().all(|r| r.parents.is_none()));
    assert_eq!(dot_hierarchy(&ids), Ok(vec![(0, 1), (1, 2), (0, 3)]));
}

#[test]
fn parents_and_dot_combination() {
    let f = file(
        "reqs.md",
        "# `req-1`: First\n\n# `req-2`: Second\n\n## `req-1.sub-1`: Both ways\n\n- Parents: [\"req-2\"]\n\nBelongs to both.\n",
    );
    let schema = collect_requirements(&pid(), &f).unwrap().unwrap();
    assert_eq!(schema.requirements.len(), 3);
    let sub = &schema.requirements[2];
    assert_eq!(sub.id, "req-1.sub-1");
    assert_eq!(sub.title, "Both ways");
    assert_eq!(sub.parents, Some(vec!["req-2".to_string()]));
    assert!(sub.description.as_ref().unwrap().contains("Belongs to both."));
    let ids: Vec<String> = schema.requirements.iter().map(|r| r.id.clone()).collect();
    // the dot gives req-1 as parent as well
    assert_eq!(dot_hierarchy(&ids), Ok(vec![(0, 2)]));
}
