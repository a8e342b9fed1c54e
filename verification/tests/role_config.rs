use mofa_studio::role_config::{escape_dollars, updated_yaml_voice, yaml_voice, RoleConfig};

const YAML: &str = "nodes:\n  - id: primespeech-student1\n    env:\n      VOICE_CHARACTER: \"yfc\"\n      SPEED: 1\n  - id: primespeech-tutor\n    env:\n      VOICE_NAME: 'Luo Xiang'\n      SPEED: 1\n  - id: other\n    env:\n      VOICE_CHARACTER: dnz\n";

#[test]
fn reads_voice_character_as_display_name() {
    assert_eq!(yaml_voice(YAML, "student1"), Some("Chen Yifan".to_string()));
}

#[test]
fn reads_voice_name_as_is() {
    assert_eq!(yaml_voice(YAML, "tutor"), Some("Luo Xiang".to_string()));
}

#[test]
fn missing_node_or_role_reads_nothing() {
    assert_eq!(yaml_voice(YAML, "student2"), None);
    assert_eq!(yaml_voice(YAML, "nobody"), None);
}

#[test]
fn updates_voice_character_with_id() {
    let out = updated_yaml_voice(YAML, "student1", "Ma Yun").unwrap().unwrap();
    assert!(out.contains("VOICE_CHARACTER: \"mayun\"\n      SPEED: 1\n  - id: primespeech-tutor"));
    // Other nodes are untouched.
    assert!(out.contains("VOICE_CHARACTER: dnz"));
    assert_eq!(yaml_voice(&out, "student1"), Some("Ma Yun".to_string()));
}

#[test]
fn updates_voice_name_with_display_name() {
    let out = updated_yaml_voice(YAML, "tutor", "Yang Mi").unwrap().unwrap();
    assert!(out.contains("VOICE_NAME: \"Yang Mi\""));
    assert_eq!(yaml_voice(&out, "tutor"), Some("Yang Mi".to_string()));
}

#[test]
fn update_errors() {
    assert_eq!(
        updated_yaml_voice(YAML, "boss", "Marc"),
        Err("Unknown role: boss".to_string())
    );
    assert_eq!(updated_yaml_voice(YAML, "student2", "Marc"), Ok(None));
    let no_voice = "nodes:\n  - id: primespeech-student2\n    env:\n      X: 1\n";
    assert_eq!(
        updated_yaml_voice(no_voice, "student2", "Marc"),
        Err("VOICE_CHARACTER/VOICE_NAME not found in primespeech-student2 section".to_string())
    );
}

#[test]
fn config_values_and_write_back() {
    let cfg = RoleConfig::from_toml_values(
        Some("m1".to_string()),
        None,
        None,
        Some(vec!["a".to_string(), "b".to_string()]),
        "cfg.toml".to_string(),
    );
    assert_eq!(cfg.voice, "Zhao Daniu");
    assert_eq!(cfg.system_prompt, "");
    assert_eq!(cfg.models, vec!["a", "b"]);
    assert_eq!(cfg.config_path, Some("cfg.toml".to_string()));
    let text = "# c\ndefault_model = \"old\"\nvoice = \"Doubao\"\nsystem_prompt = \"\"\"line1\nline2\"\"\"\nx = 1\n";
    let out = cfg.updated_config_text(text).unwrap();
    assert_eq!(
        out,
        "# c\ndefault_model = \"m1\"\nvoice = \"Zhao Daniu\"\nsystem_prompt = \"\"\"\"\"\"\nx = 1\n"
    );
    let d = RoleConfig::default();
    assert!(d.models.is_empty() && d.config_path.is_none());
}

#[test]
fn voice_line_ending_a_section_keeps_its_newline() {
    let y = "  - id: primespeech-student1\n    VOICE_CHARACTER: yfc\n  - id: x\n";
    let out = updated_yaml_voice(y, "student1", "BYS").unwrap().unwrap();
    assert_eq!(out, "  - id: primespeech-student1\n    VOICE_CHARACTER: \"bys\"\n  - id: x\n");
}

#[test]
fn dollar_signs_are_written_literally() {
    use_escape();
    let y = "  - id: primespeech-tutor\n    VOICE_NAME: 'x'\n";
    let out = updated_yaml_voice(y, "tutor", "A$1B$$").unwrap().unwrap();
    assert_eq!(out, "  - id: primespeech-tutor\n    VOICE_NAME: \"A$1B$$\"\n");
    let cfg = RoleConfig::from_toml_values(Some("m$1".to_string()), Some("p $x".to_string()), Some("v$".to_string()), None, "c".to_string());
    let text = "default_model = \"old\"\nvoice = \"Doubao\"\nsystem_prompt = \"\"\"p\"\"\"\n";
    assert_eq!(
        cfg.updated_config_text(text).unwrap(),
        "default_model = \"m$1\"\nvoice = \"v$\"\nsystem_prompt = \"\"\"p $x\"\"\"\n"
    );
}

fn use_escape() {
    assert_eq!(escape_dollars("a$b$$"), "a$$b$$$$");
    assert_eq!(escape_dollars("none"), "none");
}
