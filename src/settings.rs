use vstd::prelude::*;
use vstd::string::StringExecFns;

use crate::paths::{join_path, path_join};

verus! {

/// Where virtual environments live: in the project directory, or in one
/// central data directory.
#[derive(Debug, Clone, Copy, PartialEq, Eq, Structural)]
pub enum Strategy {
    Local,
    Central,
}

impl Strategy {
    /// `"central"` names the central strategy; anything else, or nothing,
    /// the local one.
    pub fn from(value: Option<&str>) -> (r: Strategy)
        ensures
            (r == Strategy::Central) == (match value {
                Some(v) => v@ == "central"@,
                None => false,
            }),
    {
        match value {
            Some(v) => {
                if String::from_str(v) == String::from_str("central") {
                    Strategy::Central
                } else {
                    Strategy::Local
                }
            },
            None => Strategy::Local,
        }
    }
}

/// The string stored under a top-level key of a TOML document.
pub uninterp spec fn toml_string_entry(content: Seq<char>, key: Seq<char>) -> Option<Seq<char>>;

/// The boolean stored under a top-level key of a TOML document.
pub uninterp spec fn toml_bool_entry(content: Seq<char>, key: Seq<char>) -> Option<bool>;

/// The array stored under a top-level key of a TOML document, each element
/// as its string, if it is one.
pub uninterp spec fn toml_array_entry(content: Seq<char>, key: Seq<char>) -> Option<
    Seq<Option<Seq<char>>>,
>;

/// Relies on toml_edit: `content` parsed as a `toml_edit::Document`, and the
/// string that `Item::as_str` gives for `key`; nothing when it does not parse.
#[verifier::external_body]
fn toml_string(content: &str, key: &str) -> (r: Option<String>)
    ensures
        (match r {
            Some(v) => toml_string_entry(content@, key@) == Some(v@),
            None => toml_string_entry(content@, key@) is None,
        }),
{
    match content.parse::<toml_edit::Document>() {
        Ok(doc) => doc.get(key).and_then(|v| v.as_str()).map(String::from),
        Err(_) => None,
    }
}

/// Relies on toml_edit: `content` parsed as a `toml_edit::Document`, and the
/// boolean that `Item::as_bool` gives for `key`; nothing when it does not parse.
#[verifier::external_body]
fn toml_bool(content: &str, key: &str) -> (r: Option<bool>)
    ensures
        r == toml_bool_entry(content@, key@),
{
    match content.parse::<toml_edit::Document>() {
        Ok(doc) => doc.get(key).and_then(|v| v.as_bool()),
        Err(_) => None,
    }
}

/// Relies on toml_edit: `content` parsed as a `toml_edit::Document`, the
/// array that `Item::as_array` gives for `key`, and `Value::as_str` of each
/// element; nothing when it does not parse.
#[verifier::external_body]
fn toml_string_array(content: &str, key: &str) -> (r: Option<Vec<Option<String>>>)
    ensures
        (match r {
            Some(v) => toml_array_entry(content@, key@) == Some(
                v@.map_values(|x: Option<String>| opt_view(x)),
            ),
            None => toml_array_entry(content@, key@) is None,
        }),
{
    match content.parse::<toml_edit::Document>() {
        Ok(doc) => doc.get(key).and_then(|t| t.as_array()).map(
            |a| a.iter().map(|v| v.as_str().map(String::from)).collect(),
        ),
        Err(_) => None,
    }
}

pub open spec fn opt_view(x: Option<String>) -> Option<Seq<char>> {
    match x {
        Some(s) => Some(s@),
        None => None,
    }
}

pub open spec fn or_default(x: Option<Seq<char>>, d: Seq<char>) -> Seq<char> {
    match x {
        Some(v) => v,
        None => d,
    }
}

/// The project roots used when the configuration names none.
pub open spec fn default_project_roots() -> Seq<Seq<char>> {
    seq!["pyproject.toml"@, "setup.py"@, "setup.cfg"@, ".gitignore"@]
}

/// The configured project roots: each string element, an empty one for an
/// element that is no string, or the default list.
pub open spec fn project_roots(entry: Option<Seq<Option<Seq<char>>>>) -> Seq<Seq<char>> {
    match entry {
        Some(v) => v.map_values(|x: Option<Seq<char>>| or_default(x, Seq::empty())),
        None => default_project_roots(),
    }
}

/// What a configuration file sets, each entry absent when the file does not
/// set it or sets it to a value of another type.
#[derive(Debug, Clone)]
pub struct ConfigEntries {
    pub venv_name: Option<String>,
    pub strategy: Option<String>,
    pub project_root: Option<Vec<Option<String>>>,
    pub auto_activate: Option<bool>,
    pub python_path: Option<String>,
    pub executables_path: Option<String>,
}

impl ConfigEntries {
    /// The entries of the configuration file whose text is `content`; a text
    /// that is no TOML document sets nothing.
    pub fn read(content: &str) -> (r: ConfigEntries)
        ensures
            opt_view(r.venv_name) == toml_string_entry(content@, "venv-name"@),
            opt_view(r.strategy) == toml_string_entry(content@, "strategy"@),
            (match r.project_root {
                Some(v) => toml_array_entry(content@, "project-root"@) == Some(
                    v@.map_values(|x: Option<String>| opt_view(x)),
                ),
                None => toml_array_entry(content@, "project-root"@) is None,
            }),
            r.auto_activate == toml_bool_entry(content@, "auto-activate"@),
            opt_view(r.python_path) == toml_string_entry(content@, "python-path"@),
            opt_view(r.executables_path) == toml_string_entry(content@, "executables-path"@),
    {
        ConfigEntries {
            venv_name: toml_string(content, "venv-name"),
            strategy: toml_string(content, "strategy"),
            project_root: toml_string_array(content, "project-root"),
            auto_activate: toml_bool(content, "auto-activate"),
            python_path: toml_string(content, "python-path"),
            executables_path: toml_string(content, "executables-path"),
        }
    }
}

/// The tool's settings.
#[derive(Debug)]
pub struct Settings {
    pub name: String,
    pub config_file: String,
    pub venv_name: String,
    pub strategy: Strategy,
    pub project_root: Vec<String>,
    pub auto_activate: bool,
    pub python_path: String,
    pub executables_path: String,
}

impl Settings {
    /// The settings of tool `name` whose configuration file `config_file`
    /// sets `entries`, with `data_root` the user's data directory. Each entry
    /// that is not set takes its default.
    pub fn from_entries(name: &str, config_file: &str, data_root: &str, entries: ConfigEntries) -> (r:
        Settings)
        ensures
            r.name@ == name@,
            r.config_file@ == config_file@,
            r.venv_name@ == or_default(opt_view(entries.venv_name), ".venv"@),
            (r.strategy == Strategy::Central) == (opt_view(entries.strategy) == Some("central"@)),
            r.project_root@.map_values(|x: String| x@) == project_roots(
                match entries.project_root {
                    Some(v) => Some(v@.map_values(|x: Option<String>| opt_view(x))),
                    None => None,
                },
            ),
            r.auto_activate == (match entries.auto_activate {
                Some(b) => b,
                None => true,
            }),
            r.python_path@ == or_default(opt_view(entries.python_path), "python"@),
            r.executables_path@ == or_default(
                opt_view(entries.executables_path),
                path_join(path_join(data_root@, name@), "venvs"@),
            ),
    {
        let venv_name = match entries.venv_name {
            Some(v) => v,
            None => String::from_str(".venv"),
        };
        let strategy = match &entries.strategy {
            Some(v) => Strategy::from(Some(v.as_str())),
            None => Strategy::from(None),
        };
        let project_root = match &entries.project_root {
            Some(v) => strings_or_empty(v),
            None => {
                let d = vec![
                    String::from_str("pyproject.toml"),
                    String::from_str("setup.py"),
                    String::from_str("setup.cfg"),
                    String::from_str(".gitignore"),
                ];
                assert(d@.map_values(|x: String| x@) =~= default_project_roots());
                d
            },
        };
        let auto_activate = match entries.auto_activate {
            Some(b) => b,
            None => true,
        };
        let python_path = match entries.python_path {
            Some(v) => v,
            None => String::from_str("python"),
        };
        let executables_path = match entries.executables_path {
            Some(v) => v,
            None => {
                let data_dir = join_path(data_root, name);
                join_path(data_dir.as_str(), "venvs")
            },
        };
        Settings {
            name: String::from_str(name),
            config_file: String::from_str(config_file),
            venv_name,
            strategy,
            project_root,
            auto_activate,
            python_path,
            executables_path,
        }
    }

    /// Replaces the interpreter path when one is given.
    pub fn set_python_path(&mut self, maybe_path: Option<String>)
        ensures
            final(self).python_path == (match maybe_path {
                Some(p) => p,
                None => old(self).python_path,
            }),
            final(self).name == old(self).name,
            final(self).config_file == old(self).config_file,
            final(self).venv_name == old(self).venv_name,
            final(self).strategy == old(self).strategy,
            final(self).project_root == old(self).project_root,
            final(self).auto_activate == old(self).auto_activate,
            final(self).executables_path == old(self).executables_path,
    {
        if let Some(path) = maybe_path {
            self.python_path = path;
        }
    }

    /// Replaces the environment's directory name when one is given.
    pub fn set_venv_name(&mut self, maybe_name: Option<String>)
        ensures
            final(self).venv_name == (match maybe_name {
                Some(n) => n,
                None => old(self).venv_name,
            }),
            final(self).name == old(self).name,
            final(self).config_file == old(self).config_file,
            final(self).strategy == old(self).strategy,
            final(self).project_root == old(self).project_root,
            final(self).auto_activate == old(self).auto_activate,
            final(self).python_path == old(self).python_path,
            final(self).executables_path == old(self).executables_path,
    {
        if let Some(name) = maybe_name {
            self.venv_name = name;
        }
    }
}

/// Each string, or an empty string for an element that is none.
fn strings_or_empty(v: &Vec<Option<String>>) -> (r: Vec<String>)
    ensures
        r@.map_values(|x: String| x@) == v@.map_values(|x: Option<String>| opt_view(x)).map_values(
            |x: Option<Seq<char>>| or_default(x, Seq::empty()),
        ),
{
    let mut out: Vec<String> = Vec::new();
    let mut i: usize = 0;
    while i < v.len()
        invariant
            i <= v@.len(),
            out@.len() == i,
            forall|j: int|
                0 <= j < i ==> (#[trigger] out@[j])@ == or_default(opt_view(v@[j]), Seq::empty()),
        decreases v@.len() - i,
    {
        let s = match &v[i] {
            Some(x) => x.clone(),
            None => String::new(),
        };
        out.push(s);
        i = i + 1;
    }
    assert(out@.map_values(|x: String| x@) =~= v@.map_values(|x: Option<String>| opt_view(x)).map_values(
        |x: Option<Seq<char>>| or_default(x, Seq::empty()),
    ));
    out
}

} // verus!
