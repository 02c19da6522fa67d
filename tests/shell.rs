use pyreq::{ConfigEntries, Settings, Shell, Venv};

fn venv() -> Venv {
    let s = Settings::from_entries("t", "c", "/d", ConfigEntries::read(""));
    Venv::new(&s, "/w".to_string(), ".venv")
}

#[test]
fn init_script_wraps_the_program() {
    let sh = Shell::new("bash", "/usr/local/bin/pyreq", "pyreq");
    assert_eq!(sh.kind, "bash");
    assert_eq!(
        sh.init_script(),
        "function pyreq {\n  eval \"$(command /usr/local/bin/pyreq \"$@\")\"\n}"
    );
}

#[test]
fn activation_exports_both_variables() {
    assert_eq!(
        Shell::activation_script(&venv(), "/w/.venv/bin:/usr/bin"),
        "export VIRTUAL_ENV='/w/.venv'\nexport PATH='/w/.venv/bin:/usr/bin'\n"
    );
}

#[test]
fn search_path_puts_dir_first_once() {
    let existing = vec![
        "/usr/bin".to_string(),
        "/w/.venv/bin".to_string(),
        "/bin".to_string(),
        "/w/.venv/bin".to_string(),
    ];
    assert_eq!(
        Shell::search_path_with("/w/.venv/bin", &existing),
        vec!["/w/.venv/bin", "/usr/bin", "/bin"]
    );
    assert_eq!(Shell::search_path_with("/x", &Vec::new()), vec!["/x"]);
}

#[test]
fn info_text_reports_state() {
    let v = venv();
    assert_eq!(
        v.info_text(true, false),
        "Venv Path: /w/.venv (exists)\nVenv Name: .venv\nActivated: false\n"
    );
    assert_eq!(
        v.info_text(false, true),
        "Venv Path: /w/.venv (does not exist)\nVenv Name: .venv\nActivated: true\n"
    );
}
