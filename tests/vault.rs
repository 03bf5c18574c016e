use vault_fs::config::{build_vault_config, config_path, init_vault_config, metadata_dir, CONFIG_VERSION};
use vault_fs::error::VaultError;
use vault_fs::listing::{admit_entry, entry_times};
use vault_fs::names::{choose_note_name, decimal_chars, untitled_name, validate_name_str};
use vault_fs::ops::{
    check_delete_note, claim_target, plan_create_directory, plan_delete_entry, plan_move,
    plan_new_note, plan_rename, require_directory, MoveStep, Removal,
};
use vault_fs::path::{is_descendant, VaultPath};

fn p(s: &str) -> VaultPath {
    VaultPath::parse(s)
}

fn cs(s: &str) -> Vec<char> {
    s.chars().collect()
}

fn text(v: &[char]) -> String {
    v.iter().collect()
}

#[test]
fn parse_and_render_normalize_separators() {
    assert_eq!(p("/a//b/").render(), "/a/b");
    assert_eq!(p("a/b").render(), "a/b");
    assert_eq!(p("/").render(), "/");
    assert_eq!(p("").render(), "");
    let q = p("/x/y");
    assert!(q.rooted);
    assert_eq!(q.parts, vec![cs("x"), cs("y")]);
}

#[test]
fn descendant_is_by_component() {
    assert!(is_descendant(&p("/a/b"), &p("/a/b/c")));
    assert!(is_descendant(&p("/a/b"), &p("/a/b")));
    assert!(!is_descendant(&p("/a/b"), &p("/a/bc")));
    assert!(!is_descendant(&p("/a/b"), &p("a/b/c")));
    assert!(!is_descendant(&p("/a/b/c"), &p("/a/b")));
}

#[test]
fn parent_and_file_name() {
    assert_eq!(p("/a/b").parent().unwrap().render(), "/a");
    assert!(p("/").parent().is_none());
    assert_eq!(p("/a/b.md").file_name(), Some(cs("b.md")));
    assert_eq!(p("/a").join(&cs("n.md")).render(), "/a/n.md");
}

#[test]
fn metadata_dir_detection() {
    assert!(p("/v/.notexia/vault.json").in_metadata_dir());
    assert!(!p("/v/notexia/x").in_metadata_dir());
    assert_eq!(metadata_dir(&p("/v")).render(), "/v/.notexia");
    assert_eq!(config_path(&p("/v")).render(), "/v/.notexia/vault.json");
}

#[test]
fn names_are_trimmed() {
    assert_eq!(validate_name_str("  notes \t", false), Ok(cs("notes")));
    assert_eq!(validate_name_str("\u{3000}a b\u{2003}", false), Ok(cs("a b")));
}

#[test]
fn decimal_and_untitled_names() {
    assert_eq!(text(&decimal_chars(0)), "0");
    assert_eq!(text(&decimal_chars(907)), "907");
    assert_eq!(text(&untitled_name(12)), "Untitled 12.md");
}

#[test]
fn first_note_in_empty_vault() {
    assert_eq!(choose_note_name(&vec![]), Ok(cs("Untitled 1.md")));
}

#[test]
fn note_skips_taken_names() {
    let existing = vec![cs("Untitled 1.md"), cs("other.md"), cs("Untitled 3.md")];
    assert_eq!(choose_note_name(&existing), Ok(cs("Untitled 2.md")));
}

#[test]
fn notes_created_in_sequence() {
    let mut existing: Vec<Vec<char>> = Vec::new();
    for _ in 0..5 {
        let name = choose_note_name(&existing).unwrap();
        assert!(!existing.contains(&name));
        existing.push(name);
    }
    let mut names: Vec<String> = existing.iter().map(|n| text(n)).collect();
    names.sort();
    assert_eq!(
        names,
        vec!["Untitled 1.md", "Untitled 2.md", "Untitled 3.md", "Untitled 4.md", "Untitled 5.md"]
    );
}

#[test]
fn note_names_exhausted() {
    let existing: Vec<Vec<char>> = (1..=9999).map(|i| cs(&format!("Untitled {}.md", i))).collect();
    assert_eq!(choose_note_name(&existing), Err(VaultError::ExhaustedNamespace));
    let mut fewer = existing.clone();
    fewer.pop();
    assert_eq!(choose_note_name(&fewer), Ok(cs("Untitled 9999.md")));
}

#[test]
fn new_note_path() {
    let r = plan_new_note(&p("/v"), true, &vec![cs("Untitled 1.md")]).unwrap();
    assert_eq!(r.render(), "/v/Untitled 2.md");
}

#[test]
fn non_directory_root_is_refused() {
    assert_eq!(plan_new_note(&p("/v"), false, &vec![]), Err(VaultError::NotADirectory));
    assert_eq!(require_directory(false), Err(VaultError::NotADirectory));
    assert_eq!(require_directory(true), Ok(()));
    assert_eq!(
        plan_create_directory(&p("/v"), false, "x"),
        Err(VaultError::NotADirectory)
    );
    assert_eq!(
        init_vault_config("/v".to_string(), false, "A".to_string(), "B".to_string(), None),
        Err(VaultError::NotADirectory)
    );
    assert!(matches!(
        plan_move(&p("/v/a.md"), true, &p("/v/file.md"), false, &None),
        Err(VaultError::NotADirectory)
    ));
}

#[test]
fn create_directory_accepts_a_name() {
    assert_eq!(plan_create_directory(&p("/v"), true, " Ideas ").unwrap().render(), "/v/Ideas");
}

#[test]
fn create_directory_rejects_bad_names() {
    let v = p("/v");
    assert_eq!(plan_create_directory(&v, true, ""), Err(VaultError::InvalidName));
    assert_eq!(plan_create_directory(&v, true, "   "), Err(VaultError::InvalidName));
    assert_eq!(plan_create_directory(&v, true, ".notexia"), Err(VaultError::ReservedName));
    assert_eq!(plan_create_directory(&v, true, ".hidden"), Err(VaultError::InvalidName));
    assert_eq!(plan_create_directory(&v, true, "a/b"), Err(VaultError::InvalidName));
    assert_eq!(plan_create_directory(&v, true, "a\\b"), Err(VaultError::InvalidName));
}

#[test]
fn create_directory_inside_metadata_is_refused() {
    assert_eq!(
        plan_create_directory(&p("/v/.notexia"), true, "x"),
        Err(VaultError::ReservedPath)
    );
}

#[test]
fn existing_target_is_refused() {
    assert_eq!(claim_target(p("/v/a"), true), Err(VaultError::AlreadyExists));
    assert_eq!(claim_target(p("/v/a"), false), Ok(p("/v/a")));
}

#[test]
fn rename_within_parent() {
    assert_eq!(plan_rename(&p("/v/d/a.md"), "b.md").unwrap().render(), "/v/d/b.md");
    assert_eq!(plan_rename(&p("/"), "b.md"), Err(VaultError::InvalidTarget));
    assert_eq!(plan_rename(&p("/v/.notexia/x"), "y"), Err(VaultError::ReservedPath));
    assert_eq!(plan_rename(&p("/v/a.md"), "x/y"), Err(VaultError::InvalidName));
}

#[test]
fn rename_onto_existing_name() {
    let target = plan_rename(&p("/v/a.md"), "b.md").unwrap();
    assert_eq!(claim_target(target, true), Err(VaultError::AlreadyExists));
}

#[test]
fn self_move_is_unchanged() {
    let old = p("/v/d/a.md");
    let parent = old.parent().unwrap();
    match plan_move(&old, true, &parent, true, &None) {
        Ok(MoveStep::Unchanged(t)) => assert_eq!(t, old),
        other => panic!("unexpected {:?}", other),
    }
}

#[test]
fn move_into_descendant_is_refused() {
    let d = p("/v/d");
    assert!(matches!(
        plan_move(&d, true, &p("/v/d/e/f"), true, &None),
        Err(VaultError::InvalidOperation)
    ));
    assert!(matches!(
        plan_move(&d, true, &p("/v/d"), true, &None),
        Err(VaultError::InvalidOperation)
    ));
}

#[test]
fn move_relocates() {
    match plan_move(&p("/v/a.md"), true, &p("/v/d"), true, &Some(" b.md ".to_string())) {
        Ok(MoveStep::Relocate(t)) => assert_eq!(t.render(), "/v/d/b.md"),
        other => panic!("unexpected {:?}", other),
    }
    match plan_move(&p("/v/a.md"), true, &p("/v/d"), true, &None) {
        Ok(MoveStep::Relocate(t)) => assert_eq!(t.render(), "/v/d/a.md"),
        other => panic!("unexpected {:?}", other),
    }
}

#[test]
fn move_errors() {
    let v = p("/v");
    assert!(matches!(plan_move(&p("/v/a"), false, &v, true, &None), Err(VaultError::NotFound)));
    assert!(matches!(
        plan_move(&p("/v/.notexia/vault.json"), true, &v, true, &None),
        Err(VaultError::ReservedPath)
    ));
    assert!(matches!(
        plan_move(&p("/v/a"), true, &p("/v/.notexia"), true, &None),
        Err(VaultError::ReservedPath)
    ));
    assert!(matches!(
        plan_move(&p("/v/a"), true, &v, true, &Some("  ".to_string())),
        Err(VaultError::InvalidName)
    ));
    assert!(matches!(
        plan_move(&p("/v/a"), true, &v, true, &Some("x/y".to_string())),
        Err(VaultError::InvalidName)
    ));
    assert!(matches!(
        plan_move(&p("/v/a"), true, &v, true, &Some(".notexia".to_string())),
        Err(VaultError::ReservedName)
    ));
}

#[test]
fn delete_note_needs_a_file() {
    assert_eq!(check_delete_note(false, false), Err(VaultError::NotFound));
    assert_eq!(check_delete_note(true, true), Err(VaultError::NotAFile));
    assert_eq!(check_delete_note(true, false), Ok(()));
}

#[test]
fn delete_entry_removes_trees() {
    assert_eq!(plan_delete_entry(true), Removal::Tree);
    assert_eq!(plan_delete_entry(false), Removal::File);
}

#[test]
fn listing_entry_fields() {
    let base = p("/v");
    let e = admit_entry(&base, &p("/v/d/n.md"), false, Some("10".to_string()), None).unwrap();
    assert_eq!(e.path, "/v/d/n.md");
    assert_eq!(e.rel_path, "d/n.md");
    assert_eq!(e.name, "n.md");
    assert!(!e.is_dir);
    assert_eq!(e.created, Some("10".to_string()));
    assert_eq!(e.modified, None);
}

#[test]
fn listing_skips_hidden_and_metadata() {
    let base = p("/home/u/.vaults/v");
    assert!(admit_entry(&base, &p("/home/u/.vaults/v/.notexia"), true, None, None).is_none());
    assert!(admit_entry(&base, &p("/home/u/.vaults/v/.notexia/vault.json"), false, None, None).is_none());
    assert!(admit_entry(&base, &p("/home/u/.vaults/v/.git"), true, None, None).is_none());
    assert!(admit_entry(&base, &p("/home/u/.vaults/v/d/.draft.md"), false, None, None).is_none());
    let e = admit_entry(&base, &p("/home/u/.vaults/v/d"), true, None, None).unwrap();
    assert_eq!(e.rel_path, "d");
    assert!(e.is_dir);
}

#[test]
fn config_record_fields() {
    let c = build_vault_config(
        "/v".to_string(),
        "Ada".to_string(),
        "King".to_string(),
        Some("Work".to_string()),
        "id-1".to_string(),
        "2024-01-01T00:00:00+00:00".to_string(),
    );
    assert_eq!(c.space_id, "id-1");
    assert_eq!(c.vault_path, "/v");
    assert_eq!(c.label, Some("Work".to_string()));
    assert_eq!(c.owner.first_name, "Ada");
    assert_eq!(c.owner.last_name, "King");
    assert_eq!(c.created_at, "2024-01-01T00:00:00+00:00");
    assert_eq!(c.updated_at, c.created_at);
    assert_eq!(c.version, 1);
    assert_eq!(CONFIG_VERSION, 1);
}

#[test]
fn init_twice_gives_new_identifiers() {
    let a = init_vault_config("/v".to_string(), true, "A".to_string(), "B".to_string(), None).unwrap();
    let b = init_vault_config("/v".to_string(), true, "A".to_string(), "B".to_string(), None).unwrap();
    assert_ne!(a.space_id, b.space_id);
    assert_eq!(a.space_id.len(), 36);
    assert_eq!(a.space_id.matches('-').count(), 4);
    assert_eq!(a.created_at, a.updated_at);
    assert!(a.created_at.ends_with("+00:00"));
    assert!(a.created_at.len() >= 25);
    assert_eq!(a.version, 1);
}

#[test]
fn rename_keeps_name_as_given() {
    assert_eq!(plan_rename(&p("/v/a.md"), " b.md").unwrap().render(), "/v/ b.md");
    assert_eq!(plan_rename(&p("/v/a.md"), ""), Err(VaultError::InvalidName));
    assert_eq!(plan_rename(&p("/v/a.md"), ".notexia"), Err(VaultError::ReservedName));
    let target = plan_rename(&p("/v/a.md"), " b.md").unwrap();
    assert_eq!(claim_target(target, true), Err(VaultError::AlreadyExists));
}

#[test]
fn current_dir_components_are_dropped() {
    assert_eq!(p("/v/./a/b/.").render(), "/v/a/b");
    assert_eq!(p("./a/./b").render(), "./a/b");
    assert!(is_descendant(&p("/v/a"), &p("/v/./a/b")));
    assert!(p("/v/./a").same_as(&p("/v/a")));
}

#[test]
fn listing_leaves_out_the_root() {
    assert!(admit_entry(&p("/v"), &p("/v"), true, None, None).is_none());
    assert!(admit_entry(&p("/x/.v"), &p("/x/.v/"), true, None, None).is_none());
}

#[test]
fn vault_id_shape() {
    let c = init_vault_config("/v".to_string(), true, "A".to_string(), "B".to_string(), None).unwrap();
    let id: Vec<char> = c.space_id.chars().collect();
    for (i, ch) in id.iter().enumerate() {
        if i == 8 || i == 13 || i == 18 || i == 23 {
            assert_eq!(*ch, '-');
        } else {
            assert!(ch.is_ascii_hexdigit() && !ch.is_ascii_uppercase());
        }
    }
    assert_eq!(id[14], '4');
}

#[test]
fn whitespace_matches_std() {
    for c in ['\t', '\n', '\u{b}', '\u{c}', '\r', ' ', '\u{85}', '\u{a0}', '\u{1680}', '\u{2000}',
        '\u{200a}', '\u{2028}', '\u{2029}', '\u{202f}', '\u{205f}', '\u{3000}', 'a', '\u{200b}', '\u{180e}']
    {
        assert_eq!(vault_fs::text::char_is_whitespace(c), c.is_whitespace());
    }
}

#[test]
fn empty_path_lies_above_every_path() {
    assert!(is_descendant(&p(""), &p("/")));
    assert!(is_descendant(&p(""), &p("/a")));
    assert!(is_descendant(&p(""), &p("a/b")));
    assert!(!is_descendant(&p("/"), &p("a")));
    let e = admit_entry(&p(""), &p("/a/b.md"), false, None, None).unwrap();
    assert_eq!(e.rel_path, "/a/b.md");
}

#[test]
fn entry_time_texts() {
    assert_eq!(
        entry_times(Some(Some(1700000000)), Some(Some(1700000500))),
        (Some("1700000000".to_string()), Some("1700000500".to_string()))
    );
    assert_eq!(entry_times(None, Some(Some(42))), (Some("42".to_string()), Some("42".to_string())));
    assert_eq!(entry_times(Some(None), Some(Some(42))), (None, Some("42".to_string())));
    assert_eq!(entry_times(None, None), (None, None));
    assert_eq!(entry_times(Some(Some(0)), None), (Some("0".to_string()), None));
}

#[test]
fn creation_time_shape() {
    let c = init_vault_config("/v".to_string(), true, "A".to_string(), "B".to_string(), None).unwrap();
    let t: Vec<char> = c.created_at.chars().collect();
    assert!(c.created_at.ends_with("+00:00"));
    assert_eq!(t[4], '-');
    assert_eq!(t[7], '-');
    assert_eq!(t[10], 'T');
    assert_eq!(t[13], ':');
    assert_eq!(t[16], ':');
}
