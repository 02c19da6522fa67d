use pyreq::paths::join_path;
use pyreq::{ConfigEntries, Python, Settings, Strategy, Venv, VenvPaths};

fn from_config(name: &str, config_file: &str, data_root: &str, content: &str) -> Settings {
    Settings::from_entries(name, config_file, data_root, ConfigEntries::read(content))
}

fn python() -> Python {
    Python {
        exe_path: "/usr/bin/python3.11".to_string(),
        major: "3".to_string(),
        minor: "11".to_string(),
        patch: "4".to_string(),
    }
}

fn settings() -> Settings {
    from_config("tool", "/home/u/.config/tool.toml", "/home/u/.local/share", "")
}

#[test]
fn unix_path_joining() {
    assert_eq!(join_path("a", "b"), "a/b");
    assert_eq!(join_path("a/", "b"), "a/b");
    assert_eq!(join_path("", "b"), "b");
    assert_eq!(join_path("a", "/b"), "/b");
    assert_eq!(join_path("a", ""), "a/");
}

#[test]
fn venv_layout() {
    let p = VenvPaths::new("/tmp/v");
    assert_eq!(p.path, "/tmp/v");
    assert_eq!(p.scripts_path, "/tmp/v/bin");
    assert_eq!(p.include_path, "/tmp/v/include");
    assert_eq!(p.lib_path, "/tmp/v/lib");
    assert_eq!(p.lib64_path, "/tmp/v/lib64");
    assert_eq!(p.python_path, "/tmp/v/bin/python");
    assert_eq!(p.pip_path, "/tmp/v/bin/pip");
    assert_eq!(p.pyvenv_cfg, "/tmp/v/pyvenv.cfg");
    assert_eq!(p.script("black"), "/tmp/v/bin/black");
}

#[test]
fn interpreter_paths() {
    let p = VenvPaths::new("/tmp/v");
    let py = python();
    assert_eq!(p.site_packages_path(&py), "/tmp/v/lib/python3.11/site-packages");
    assert_eq!(p.python_path_major(&py), "/tmp/v/bin/python3");
    assert_eq!(p.python_path_minor(&py), "/tmp/v/bin/python3.11");
    assert_eq!(p.python_path_patch(&py), "/tmp/v/bin/python3.11.4");
}

#[test]
fn pyvenv_cfg_text() {
    let p = VenvPaths::new("/tmp/v");
    assert_eq!(
        p.pyvenv_cfg_content(&python()),
        "home = /tmp/v/bin\ninclude-system-site-packages = false\nversion = 3.11.4\nexecutable = /usr/bin/python3.11\n"
    );
}

#[test]
fn venv_for_package() {
    let s = settings();
    let v = Venv::from_package_name(&s, "black");
    assert_eq!(v.name, "black");
    assert_eq!(v.python_path, "python");
    assert_eq!(v.paths.path, "/home/u/.local/share/tool/venvs/black");
    let w = Venv::new(&s, "/work/project".to_string(), ".venv");
    assert_eq!(w.paths.scripts_path, "/work/project/.venv/bin");
}

#[test]
fn settings_defaults() {
    let s = settings();
    assert_eq!(s.name, "tool");
    assert_eq!(s.config_file, "/home/u/.config/tool.toml");
    assert_eq!(s.venv_name, ".venv");
    assert_eq!(s.strategy, Strategy::Local);
    assert_eq!(s.project_root, vec!["pyproject.toml", "setup.py", "setup.cfg", ".gitignore"]);
    assert!(s.auto_activate);
    assert_eq!(s.python_path, "python");
    assert_eq!(s.executables_path, "/home/u/.local/share/tool/venvs");
}

#[test]
fn settings_from_file() {
    let content = "venv-name = \"env\"\nstrategy = \"central\"\nproject-root = [\"Cargo.toml\", 3]\nauto-activate = false\npython-path = \"/opt/py/bin/python3\"\nexecutables-path = \"/opt/apps\"\n";
    let s = from_config("tool", "cfg", "/data", content);
    assert_eq!(s.venv_name, "env");
    assert_eq!(s.strategy, Strategy::Central);
    assert_eq!(s.project_root, vec!["Cargo.toml".to_string(), String::new()]);
    assert!(!s.auto_activate);
    assert_eq!(s.python_path, "/opt/py/bin/python3");
    assert_eq!(s.executables_path, "/opt/apps");
}

#[test]
fn unreadable_or_mistyped_settings_take_defaults() {
    let s = from_config("tool", "cfg", "/data", "this is = = not toml");
    assert_eq!(s.venv_name, ".venv");
    assert_eq!(s.executables_path, "/data/tool/venvs");
    let t = from_config("tool", "cfg", "/data", "venv-name = 5\nauto-activate = \"no\"\nstrategy = \"other\"");
    assert_eq!(t.venv_name, ".venv");
    assert!(t.auto_activate);
    assert_eq!(t.strategy, Strategy::Local);
}

#[test]
fn entries_are_read_by_key_and_type() {
    let e = ConfigEntries::read("venv-name = \"env\"\nauto-activate = true\nproject-root = [\"a\", false]\n");
    assert_eq!(e.venv_name.as_deref(), Some("env"));
    assert_eq!(e.auto_activate, Some(true));
    assert_eq!(e.project_root, Some(vec![Some("a".to_string()), None]));
    assert_eq!(e.strategy, None);
    assert_eq!(e.python_path, None);
    assert_eq!(e.executables_path, None);
    let none = ConfigEntries::read("[[[");
    assert_eq!(none.venv_name, None);
    assert_eq!(none.project_root, None);
}

#[test]
fn given_entries_override_defaults() {
    let entries = ConfigEntries {
        venv_name: None,
        strategy: Some("central".to_string()),
        project_root: Some(vec![None, Some("setup.py".to_string())]),
        auto_activate: Some(false),
        python_path: Some("py".to_string()),
        executables_path: None,
    };
    let s = Settings::from_entries("t", "c", "/d/", entries);
    assert_eq!(s.venv_name, ".venv");
    assert_eq!(s.strategy, Strategy::Central);
    assert_eq!(s.project_root, vec![String::new(), "setup.py".to_string()]);
    assert!(!s.auto_activate);
    assert_eq!(s.python_path, "py");
    assert_eq!(s.executables_path, "/d/t/venvs");
}

#[test]
fn setters_replace_only_when_given() {
    let mut s = settings();
    s.set_python_path(None);
    assert_eq!(s.python_path, "python");
    s.set_python_path(Some("/usr/bin/python3".to_string()));
    assert_eq!(s.python_path, "/usr/bin/python3");
    s.set_venv_name(None);
    assert_eq!(s.venv_name, ".venv");
    s.set_venv_name(Some("env".to_string()));
    assert_eq!(s.venv_name, "env");
}

#[test]
fn strategy_from_text() {
    assert_eq!(Strategy::from(Some("central")), Strategy::Central);
    assert_eq!(Strategy::from(Some("local")), Strategy::Local);
    assert_eq!(Strategy::from(Some("Central")), Strategy::Local);
    assert_eq!(Strategy::from(None), Strategy::Local);
}

#[test]
fn version_from_interpreter_output() {
    let p = Python::from_version_output("/usr/bin/python3".to_string(), "Python 3.11.4\n").unwrap();
    assert_eq!((p.major.as_str(), p.minor.as_str(), p.patch.as_str()), ("3", "11", "4"));
    assert_eq!(p.exe_path, "/usr/bin/python3");
    let q = Python::from_version_output(String::new(), "Python 3.1 then Python 3.12.0rc1 and Python 4.0.0").unwrap();
    assert_eq!((q.major.as_str(), q.minor.as_str(), q.patch.as_str()), ("3", "12", "0"));
    assert!(Python::from_version_output(String::new(), "Python 3.11").is_none());
    assert!(Python::from_version_output(String::new(), "").is_none());
}
