use vstd::prelude::*;
use vstd::string::StringExecFns;

use crate::error::{ErrorView, RequirementError};
use crate::grammar::parse_requirement;
use crate::name::canonical_name;
use crate::requirement::{requirement_text, ParseExtra, Requirement, RequirementView};

verus! {

/// What a user asks to install.
#[derive(Debug)]
pub enum PackageSpecifier {
    /// A requirement string.
    Pep508Specifier(Requirement),
    /// A package in a local directory.
    LocalPackage(String),
    /// A package at a remote location.
    RemotePackage(String),
}

impl PackageSpecifier {
    /// Reads `value` as a requirement string, extras allowed.
    pub fn parse(value: &str) -> (r: Result<PackageSpecifier, RequirementError>)
        ensures
            (match r {
                Ok(PackageSpecifier::Pep508Specifier(req)) => parse_requirement(
                    value@,
                    ParseExtra::Allowed,
                ) == Ok::<RequirementView, ErrorView>(req@),
                Ok(_) => false,
                Err(e) => parse_requirement(value@, ParseExtra::Allowed) == Err::<
                    RequirementView,
                    ErrorView,
                >(e@),
            }),
    {
        match Requirement::parse(value, ParseExtra::Allowed) {
            Ok(req) => Ok(PackageSpecifier::Pep508Specifier(req)),
            Err(e) => Err(e),
        }
    }

    /// The canonical name of the requested package.
    pub fn name(&self) -> (r: String)
        requires
            self is Pep508Specifier,
        ensures
            r@ == canonical_name(self->Pep508Specifier_0.name@),
    {
        match self {
            PackageSpecifier::Pep508Specifier(req) => String::from_str(req.name.normalized()),
            _ => String::new(),
        }
    }

    /// The requirement text handed to the installer.
    pub fn to_string(&self) -> (r: String)
        requires
            self is Pep508Specifier,
        ensures
            r@ == requirement_text(self->Pep508Specifier_0@),
    {
        match self {
            PackageSpecifier::Pep508Specifier(req) => req.to_string(),
            _ => String::new(),
        }
    }
}

} // verus!
