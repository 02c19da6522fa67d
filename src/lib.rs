//! Python requirement strings: package names, version clauses and
//! environment markers, read from and written back to their source syntax;
//! and the settings, layout and shell texts of the virtual environments that
//! requirements are installed into.
pub mod chars;
pub mod error;
pub mod eval;
pub mod grammar;
pub mod marker;
pub mod name;
pub mod package_specifier;
pub mod parser;
pub mod paths;
pub mod python;
pub mod requirement;
pub mod roundtrip;
pub mod settings;
pub mod shell;
pub mod specifier;
pub mod venv;
pub mod views;

pub use error::{Expected, RequirementError};
pub use eval::Env;
pub use marker::{EnvMarkerExpr, Op, Value};
pub use name::{normalize, PackageName};
pub use package_specifier::PackageSpecifier;
pub use python::Python;
pub use requirement::{ParseExtra, Requirement, StandaloneMarkerExpr};
pub use settings::{ConfigEntries, Settings, Strategy};
pub use shell::Shell;
pub use specifier::{CompareOp, Specifier, Specifiers};
pub use venv::{Venv, VenvPaths};
pub use views::{PackageRequirement, PythonRequirement, UserRequirement};
