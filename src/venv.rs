use vstd::prelude::*;
use vstd::string::StringExecFns;

use crate::paths::{join_path, path_join};
use crate::python::Python;
use crate::settings::Settings;

verus! {

/// The files and directories of a virtual environment.
#[derive(Debug, Clone)]
pub struct VenvPaths {
    pub path: String,
    pub scripts_path: String,
    pub include_path: String,
    pub lib_path: String,
    pub lib64_path: String,
    pub python_path: String,
    pub pip_path: String,
    pub pyvenv_cfg: String,
}

impl VenvPaths {
    /// The layout of an environment rooted at `path`.
    pub open spec fn laid_out(&self, path: Seq<char>) -> bool {
        &&& self.path@ == path
        &&& self.scripts_path@ == path_join(path, "bin"@)
        &&& self.include_path@ == path_join(path, "include"@)
        &&& self.lib_path@ == path_join(path, "lib"@)
        &&& self.lib64_path@ == path_join(path, "lib64"@)
        &&& self.python_path@ == path_join(path_join(path, "bin"@), "python"@)
        &&& self.pip_path@ == path_join(path_join(path, "bin"@), "pip"@)
        &&& self.pyvenv_cfg@ == path_join(path, "pyvenv.cfg"@)
    }

    pub fn new(path: &str) -> (r: VenvPaths)
        ensures
            r.laid_out(path@),
    {
        let scripts_path = join_path(path, "bin");
        VenvPaths {
            path: String::from_str(path),
            python_path: join_path(scripts_path.as_str(), "python"),
            pip_path: join_path(scripts_path.as_str(), "pip"),
            scripts_path,
            include_path: join_path(path, "include"),
            lib_path: join_path(path, "lib"),
            lib64_path: join_path(path, "lib64"),
            pyvenv_cfg: join_path(path, "pyvenv.cfg"),
        }
    }

    /// The path of script `name`.
    pub fn script(&self, name: &str) -> (r: String)
        ensures
            r@ == path_join(self.scripts_path@, name@),
    {
        join_path(self.scripts_path.as_str(), name)
    }

    pub fn site_packages_path(&self, python: &Python) -> (r: String)
        ensures
            r@ == path_join(
                self.lib_path@,
                "python"@ + python.major@ + "."@ + python.minor@ + "/site-packages"@,
            ),
    {
        let mut seg = String::from_str("python");
        seg.append(python.major.as_str());
        seg.append(".");
        seg.append(python.minor.as_str());
        seg.append("/site-packages");
        join_path(self.lib_path.as_str(), seg.as_str())
    }

    /// `pythonX` among the scripts.
    pub fn python_path_major(&self, python: &Python) -> (r: String)
        ensures
            r@ == path_join(self.scripts_path@, "python"@ + python.major@),
    {
        let mut seg = String::from_str("python");
        seg.append(python.major.as_str());
        join_path(self.scripts_path.as_str(), seg.as_str())
    }

    /// `pythonX.Y` among the scripts.
    pub fn python_path_minor(&self, python: &Python) -> (r: String)
        ensures
            r@ == path_join(self.scripts_path@, "python"@ + python.major@ + "."@ + python.minor@),
    {
        let mut seg = String::from_str("python");
        seg.append(python.major.as_str());
        seg.append(".");
        seg.append(python.minor.as_str());
        join_path(self.scripts_path.as_str(), seg.as_str())
    }

    /// `pythonX.Y.Z` among the scripts.
    pub fn python_path_patch(&self, python: &Python) -> (r: String)
        ensures
            r@ == path_join(
                self.scripts_path@,
                "python"@ + python.major@ + "."@ + python.minor@ + "."@ + python.patch@,
            ),
    {
        let mut seg = String::from_str("python");
        seg.append(python.major.as_str());
        seg.append(".");
        seg.append(python.minor.as_str());
        seg.append(".");
        seg.append(python.patch.as_str());
        join_path(self.scripts_path.as_str(), seg.as_str())
    }

    /// The text of `pyvenv.cfg` for `python`.
    pub fn pyvenv_cfg_content(&self, python: &Python) -> (r: String)
        ensures
            r@ == "home = "@ + self.scripts_path@ + "\ninclude-system-site-packages = false\nversion = "@
                + python.major@ + "."@ + python.minor@ + "."@ + python.patch@ + "\nexecutable = "@
                + python.exe_path@ + "\n"@,
    {
        let mut out = String::from_str("home = ");
        out.append(self.scripts_path.as_str());
        out.append("\ninclude-system-site-packages = false\nversion = ");
        out.append(python.major.as_str());
        out.append(".");
        out.append(python.minor.as_str());
        out.append(".");
        out.append(python.patch.as_str());
        out.append("\nexecutable = ");
        out.append(python.exe_path.as_str());
        out.append("\n");
        out
    }
}

/// A virtual environment: its directory layout, its name, and the
/// interpreter it is made from.
#[derive(Debug, Clone)]
pub struct Venv {
    pub python_path: String,
    pub paths: VenvPaths,
    pub name: String,
}

impl Venv {
    /// The environment for an installed executable package.
    pub fn from_package_name(settings: &Settings, package_name: &str) -> (r: Venv)
        ensures
            r.python_path == settings.python_path,
            r.paths.laid_out(path_join(settings.executables_path@, package_name@)),
            r.name@ == package_name@,
    {
        Self::new(settings, settings.executables_path.clone(), package_name)
    }

    /// What `info` prints of the environment, given whether its directory
    /// exists and whether it is the active one.
    pub fn info_text(&self, exists: bool, activated: bool) -> (r: String)
        ensures
            r@ == "Venv Path: "@ + self.paths.path@ + " ("@ + (if exists {
                "exists"@
            } else {
                "does not exist"@
            }) + ")\nVenv Name: "@ + self.name@ + "\nActivated: "@ + (if activated {
                "true"@
            } else {
                "false"@
            }) + "\n"@,
    {
        let mut out = String::from_str("Venv Path: ");
        out.append(self.paths.path.as_str());
        out.append(" (");
        out.append(if exists { "exists" } else { "does not exist" });
        out.append(")\nVenv Name: ");
        out.append(self.name.as_str());
        out.append("\nActivated: ");
        out.append(if activated { "true" } else { "false" });
        out.append("\n");
        out
    }

    /// The environment `name` under `root_path`.
    pub fn new(settings: &Settings, root_path: String, name: &str) -> (r: Venv)
        ensures
            r.python_path == settings.python_path,
            r.paths.laid_out(path_join(root_path@, name@)),
            r.name@ == name@,
    {
        let path = join_path(root_path.as_str(), name);
        Venv {
            python_path: settings.python_path.clone(),
            paths: VenvPaths::new(path.as_str()),
            name: String::from_str(name),
        }
    }
}

} // verus!
