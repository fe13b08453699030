use hearth_web::config_editor;
use hearth_web::config_editor::{ConfigCheck, ConfigEditorForm, ConfigEditorParams, ConfigFile, ValidationIssue};
use hearth_web::web;
use hearth_web::web::{FlashKind, Reply};

fn session() -> web::UiSession {
    web::UiSession {
        realm_id: 7,
        user_id: 2,
        session_id: 3,
        user_email: "ada@example.com".to_string(),
        csrf: Some("t".to_string()),
    }
}

fn site() -> web::Site {
    web::Site {
        product_name: "Hearth".to_string(),
        logo_url: "/logo.svg".to_string(),
        theme_css: "css".to_string(),
        realm_theme_css: None,
    }
}

fn content(s: &str) -> ConfigFile {
    ConfigFile::Content(s.to_string())
}

#[test]
fn yaml_becomes_editor_state() {
    assert_eq!(config_editor::yaml_to_editor_json("a: 1\nb: [x, y]\n"), Ok("{\"a\":1,\"b\":[\"x\",\"y\"]}".to_string()));
    assert_eq!(
        config_editor::yaml_to_editor_json("port: ${PORT:-8420}"),
        Ok("{\"port\":\"${PORT:-8420}\"}".to_string())
    );
    assert!(matches!(config_editor::yaml_to_editor_json("a: [1"), Err(e) if e.starts_with("YAML parse error: ")));
    assert!(matches!(
        config_editor::yaml_to_editor_json("? [1]\n: 2"),
        Err(e) if e.starts_with("JSON serialization error: ")
    ));
}

#[test]
fn editor_state_becomes_yaml() {
    assert_eq!(config_editor::editor_json_to_yaml("{\"b\":1,\"a\":[\"x\"]}"), Ok("a:\n- x\nb: 1\n".to_string()));
    assert!(matches!(config_editor::editor_json_to_yaml("{"), Err(e) if e.starts_with("JSON→YAML conversion: ")));
    assert_eq!(config_editor::admin_config_editor_visual_export("[1]"), Ok("- 1\n".to_string()));
}

#[test]
fn conversions_tell_the_step_that_failed() {
    assert_eq!(config_editor::tell(Ok(Ok("x".to_string())), "r: ", "w: "), Ok("x".to_string()));
    assert_eq!(config_editor::tell(Ok(Err("e".to_string())), "r: ", "w: "), Err("w: e".to_string()));
    assert_eq!(config_editor::tell(Err("e".to_string()), "r: ", "w: "), Err("r: e".to_string()));
}

#[test]
fn fields_are_taken_from_messages() {
    let f = config_editor::field_from_parse_error;
    assert_eq!(f("server.port: invalid type: string \"asdf\", expected u16 at line 3 column 9"), "server.port");
    assert_eq!(f("a.b_2: x"), "a.b_2");
    assert_eq!(f("server: x"), "_yaml");
    assert_eq!(f("a b.c: x"), "_yaml");
    assert_eq!(f("a.b:x"), "_yaml");
    assert_eq!(f(": a.b: x"), "_yaml");
    assert_eq!(f("a.ä: x"), "_yaml");
    assert_eq!(f(""), "_yaml");
}

#[test]
fn the_file_is_read_or_told() {
    assert_eq!(config_editor::read_config_yaml(content("a: 1")), ("a: 1".to_string(), false));
    assert_eq!(
        config_editor::read_config_yaml(ConfigFile::Unreadable("denied".to_string())),
        ("# Error reading config file: denied".to_string(), true)
    );
    assert_eq!(
        config_editor::read_config_yaml(ConfigFile::Absent),
        ("# No config file path available.\n# Running in embedded/dev mode.\n".to_string(), true)
    );
}

#[test]
fn the_editor_is_shown() {
    let params = ConfigEditorParams { flash: Some("Saved".to_string()), flash_kind: None };
    match config_editor::admin_config_editor(&site(), &session(), &params, content("a: 1")) {
        Reply::Page(p) => {
            assert_eq!((p.yaml_content.as_str(), p.config_json.as_str(), p.read_only), ("a: 1", "{\"a\":1}", false));
            assert_eq!(p.chrome.active, "settings");
            assert!(p.chrome.flash.unwrap().kind == FlashKind::Success);
        }
        _ => panic!("no page"),
    }
    let params = ConfigEditorParams { flash: None, flash_kind: None };
    assert!(matches!(
        config_editor::admin_config_editor(&site(), &session(), &params, content("a: [")),
        Reply::Page(p) if p.config_json == "{}" && p.chrome.flash.is_none()
    ));
    assert!(matches!(config_editor::admin_system_info(&site(), &session(), Some(3)), Reply::Page(p) if p.config == Some(3)));
}

#[test]
fn changes_are_previewed() {
    match config_editor::admin_config_editor_preview("css", "a: 2\n", None, content("a: 1\n")) {
        Reply::Page(p) => {
            assert!(p.diff.contains("+a: 2\n") && p.diff.contains("-a: 1\n"));
            assert_eq!(p.diff_lines.len(), 5);
            assert!(p.error.is_none() && p.product_name.is_empty() && p.theme_css == "css");
        }
        _ => panic!("no page"),
    }
    assert!(matches!(
        config_editor::admin_config_editor_preview("css", "x", Some("bad".to_string()), content("a: 1\n")),
        Reply::Page(p) if p.diff.is_empty() && p.diff_lines.is_empty() && p.error == Some("bad".to_string())
    ));
    assert!(matches!(config_editor::admin_config_editor_visual_preview_request("css", "{\"a\":2}"), Ok(y) if y == "a: 2\n"));
    assert!(matches!(
        config_editor::admin_config_editor_visual_preview_request("css", "{"),
        Err(Reply::Page(p)) if p.error.is_some() && p.diff.is_empty()
    ));
    assert!(matches!(
        config_editor::admin_config_editor_visual_preview("css", "a: 1\n", None, content("a: 1\n")),
        Reply::Page(p) if p.diff.is_empty()
    ));
}

fn form() -> ConfigEditorForm {
    ConfigEditorForm { yaml: "a: 1\n".to_string(), csrf: "t".to_string() }
}

fn error_of(r: Reply<config_editor::ConfigEditorTemplate>) -> (String, bool) {
    match r {
        Reply::Page(p) => {
            let flash = p.chrome.flash.unwrap();
            assert!(flash.kind == FlashKind::Error);
            assert_eq!(p.yaml_content, "a: 1\n");
            (flash.message, p.read_only)
        }
        _ => panic!("no page"),
    }
}

#[test]
fn changes_are_applied() {
    let check = |csrf_ok: bool, invalid: Option<&str>, has_path: bool| {
        config_editor::admin_config_editor_apply_check(&site(), &session(), csrf_ok, &form(), invalid.map(String::from), has_path)
    };
    assert!(matches!(check(false, None, true), Err(Reply::Forbidden)));
    assert!(check(true, None, true).is_ok());
    assert_eq!(error_of(check(true, Some("e"), true).err().unwrap()), ("Validation failed: e".to_string(), false));
    assert_eq!(
        error_of(check(true, None, false).err().unwrap()),
        ("No config file path configured — cannot write".to_string(), true)
    );
    let (reply, reload) = config_editor::admin_config_editor_apply(&site(), &session(), &form(), Ok(()));
    assert!(reload && matches!(reply, Reply::Redirect(u) if u.ends_with("flash=Configuration+applied+successfully&flash_kind=success")));
    let (reply, reload) = config_editor::admin_config_editor_apply(&site(), &session(), &form(), Err("full".to_string()));
    assert!(!reload);
    assert_eq!(error_of(reply), ("Failed to write file: full".to_string(), false));
}

#[test]
fn the_file_is_exported() {
    let d = config_editor::admin_config_editor_export(content("a: 1"));
    assert_eq!(d.content_type, "application/x-yaml");
    assert_eq!(d.content_disposition, "attachment; filename=\"hearth.yaml\"");
    assert_eq!(d.body, "a: 1");
}

fn issues(n: usize) -> Vec<ValidationIssue> {
    (0..n).map(|i| ValidationIssue { field: format!("f{i}"), reason: "r".to_string() }).collect()
}

#[test]
fn states_are_validated() {
    assert!(config_editor::admin_config_editor_visual_validate_request("{}").is_ok());
    let bad = config_editor::admin_config_editor_visual_validate_request("{").err().unwrap();
    assert!(!bad.valid && bad.errors[0].field == "_yaml");
    let r = config_editor::admin_config_editor_visual_validate(ConfigCheck::Unparsable("server.port: no".to_string()));
    assert!(!r.valid && r.errors[0].field == "server.port" && r.errors[0].reason == "server.port: no");
    assert!(config_editor::admin_config_editor_visual_validate(ConfigCheck::Read(vec![])).valid);
    let r = config_editor::admin_config_editor_visual_validate(ConfigCheck::Read(issues(2)));
    assert!(!r.valid && r.errors.len() == 2);
}

#[test]
fn states_are_applied() {
    assert!(config_editor::admin_config_editor_visual_apply_request("{}").is_ok());
    assert!(config_editor::admin_config_editor_visual_apply_request("{").err().unwrap().error.is_some());
    let check = config_editor::admin_config_editor_visual_apply_check;
    let r = check(ConfigCheck::Unparsable("x".to_string()), true).err().unwrap();
    assert!(!r.ok && r.error == Some("Parse error: x".to_string()) && r.errors.unwrap()[0].field == "_yaml");
    let r = check(ConfigCheck::Read(issues(12)), true).err().unwrap();
    assert!(r.error == Some("12 validation error(s)".to_string()) && r.errors.unwrap().len() == 12);
    let r = check(ConfigCheck::Read(vec![]), false).err().unwrap();
    assert!(r.error == Some("No config file path configured — cannot write".to_string()) && r.errors.is_none());
    assert!(check(ConfigCheck::Read(vec![]), true).is_ok());
    let r = config_editor::admin_config_editor_visual_apply(Ok(()));
    assert!(r.ok && r.message == Some("Configuration applied successfully".to_string()));
    let r = config_editor::admin_config_editor_visual_apply(Err("full".to_string()));
    assert!(!r.ok && r.error == Some("Failed to write file: full".to_string()));
}

#[test]
fn the_editor_holds_no_state_that_cannot_be_read() {
    let page = config_editor::editor_page(&site(), &session(), "a: 1".to_string(), Err("no".to_string()), true, None);
    assert!(page.yaml_content == "a: 1" && page.config_json == "{}" && page.read_only);
    match config_editor::render_config_editor_with_flash(&site(), &session(), "a: 1", true, "bad".to_string()) {
        Reply::Page(p) => {
            assert_eq!(p.config_json, "{\"a\":1}");
            assert!(!p.read_only && matches!(p.chrome.flash, Some(f) if f.kind == FlashKind::Error && f.message == "bad"));
        }
        _ => panic!("no page"),
    }
}
