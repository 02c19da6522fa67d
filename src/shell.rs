use vstd::prelude::*;
use vstd::string::StringExecFns;

use crate::venv::Venv;

verus! {

/// The user's shell, and this program as the shell calls it.
#[derive(Debug, Clone)]
pub struct Shell {
    pub exe_name: String,
    pub exe_path: String,
    pub kind: String,
}

/// `paths` without the entries equal to `dir`, in order.
pub open spec fn paths_without(paths: Seq<Seq<char>>, dir: Seq<char>) -> Seq<Seq<char>>
    decreases paths.len(),
{
    if paths.len() == 0 {
        paths
    } else if paths.last() == dir {
        paths_without(paths.drop_last(), dir)
    } else {
        paths_without(paths.drop_last(), dir).push(paths.last())
    }
}

impl Shell {
    /// A shell of kind `kind` that calls this program as `exe_name` at `exe_path`.
    pub fn new(kind: &str, exe_path: &str, exe_name: &str) -> (r: Shell)
        ensures
            r.kind@ == kind@,
            r.exe_path@ == exe_path@,
            r.exe_name@ == exe_name@,
    {
        Shell {
            exe_name: String::from_str(exe_name),
            exe_path: String::from_str(exe_path),
            kind: String::from_str(kind),
        }
    }

    /// The shell function that evaluates what this program prints.
    pub fn init_script(&self) -> (r: String)
        ensures
            r@ == "function "@ + self.exe_name@ + " {\n  eval \"$(command "@ + self.exe_path@
                + " \"$@\")\"\n}"@,
    {
        let mut out = String::from_str("function ");
        out.append(self.exe_name.as_str());
        out.append(" {\n  eval \"$(command ");
        out.append(self.exe_path.as_str());
        out.append(" \"$@\")\"\n}");
        out
    }

    /// The commands that activate `venv`, with `search_path` as the new `PATH`.
    pub fn activation_script(venv: &Venv, search_path: &str) -> (r: String)
        ensures
            r@ == "export VIRTUAL_ENV='"@ + venv.paths.path@ + "'\nexport PATH='"@ + search_path@
                + "'\n"@,
    {
        let mut out = String::from_str("export VIRTUAL_ENV='");
        out.append(venv.paths.path.as_str());
        out.append("'\nexport PATH='");
        out.append(search_path);
        out.append("'\n");
        out
    }

    /// The search path with `dir` first, followed by the other entries of
    /// `existing` in their order.
    pub fn search_path_with(dir: &str, existing: &Vec<String>) -> (r: Vec<String>)
        ensures
            r@.map_values(|p: String| p@) == seq![dir@] + paths_without(
                existing@.map_values(|p: String| p@),
                dir@,
            ),
    {
        let first = String::from_str(dir);
        let mut out: Vec<String> = vec![String::from_str(dir)];
        assert(out@.map_values(|p: String| p@) =~= seq![dir@]);
        assert(existing@.map_values(|p: String| p@).take(0) =~= Seq::<Seq<char>>::empty());
        let ghost all = existing@.map_values(|p: String| p@);
        let mut i: usize = 0;
        while i < existing.len()
            invariant
                first@ == dir@,
                i <= existing@.len(),
                all == existing@.map_values(|p: String| p@),
                out@.map_values(|p: String| p@) == seq![dir@] + paths_without(
                    all.take(i as int),
                    dir@,
                ),
            decreases existing@.len() - i,
        {
            let ghost before = out@.map_values(|p: String| p@);
            proof {
                assert(all.take(i as int + 1).drop_last() =~= all.take(i as int));
                assert(all.take(i as int + 1).last() == existing@[i as int]@);
            }
            if existing[i] != first {
                out.push(existing[i].clone());
                assert(out@.map_values(|p: String| p@) =~= before.push(existing@[i as int]@));
            }
            i = i + 1;
        }
        assert(all.take(existing@.len() as int) =~= all);
        out
    }
}

} // verus!
