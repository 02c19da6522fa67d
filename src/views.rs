use vstd::prelude::*;

use crate::error::{ErrorView, RequirementError};
use crate::grammar::parse_requirement;
use crate::requirement::{requirement_text, ParseExtra, Requirement, RequirementView};

verus! {

/// A requirement as a package lists it: extras and a marker are allowed.
#[derive(Debug, Clone, PartialEq, Eq)]
pub struct PackageRequirement(Requirement);

impl View for PackageRequirement {
    type V = RequirementView;

    closed spec fn view(&self) -> RequirementView {
        self.0@
    }
}

impl PackageRequirement {
    pub fn parse(input: &str) -> (r: Result<PackageRequirement, RequirementError>)
        ensures
            (match r {
                Ok(p) => parse_requirement(input@, ParseExtra::Allowed) == Ok::<
                    RequirementView,
                    ErrorView,
                >(p@),
                Err(e) => parse_requirement(input@, ParseExtra::Allowed) == Err::<
                    RequirementView,
                    ErrorView,
                >(e@),
            }),
    {
        match Requirement::parse(input, ParseExtra::Allowed) {
            Ok(req) => Ok(PackageRequirement(req)),
            Err(e) => Err(e),
        }
    }

    pub fn requirement(&self) -> (r: &Requirement)
        ensures
            r@ == self@,
    {
        &self.0
    }

    pub fn to_string(&self) -> (r: String)
        ensures
            r@ == requirement_text(self@),
    {
        self.0.to_string()
    }
}

/// A requirement as a user types it: a marker is allowed, extras are not.
#[derive(Debug, Clone, PartialEq, Eq)]
pub struct UserRequirement(Requirement);

impl View for UserRequirement {
    type V = RequirementView;

    closed spec fn view(&self) -> RequirementView {
        self.0@
    }
}

impl UserRequirement {
    pub fn parse(input: &str) -> (r: Result<UserRequirement, RequirementError>)
        ensures
            (match r {
                Ok(p) => parse_requirement(input@, ParseExtra::NotAllowed) == Ok::<
                    RequirementView,
                    ErrorView,
                >(p@),
                Err(e) => parse_requirement(input@, ParseExtra::NotAllowed) == Err::<
                    RequirementView,
                    ErrorView,
                >(e@),
            }),
    {
        match Requirement::parse(input, ParseExtra::NotAllowed) {
            Ok(req) => Ok(UserRequirement(req)),
            Err(e) => Err(e),
        }
    }

    pub fn requirement(&self) -> (r: &Requirement)
        ensures
            r@ == self@,
    {
        &self.0
    }

    pub fn to_string(&self) -> (r: String)
        ensures
            r@ == requirement_text(self@),
    {
        self.0.to_string()
    }
}

/// A requirement on the Python interpreter itself: neither extras nor a
/// marker.
#[derive(Debug, PartialEq, Eq)]
pub struct PythonRequirement(Requirement);

/// Why a requirement cannot stand as a Python requirement, if it cannot.
pub open spec fn python_requirement_check(r: RequirementView) -> Result<(), ErrorView> {
    if r.extras.len() > 0 {
        Err(ErrorView::UnexpectedExtras)
    } else if r.marker is Some {
        Err(ErrorView::UnexpectedMarker)
    } else {
        Ok(())
    }
}

impl View for PythonRequirement {
    type V = RequirementView;

    closed spec fn view(&self) -> RequirementView {
        self.0@
    }
}

impl PythonRequirement {
    #[verifier::type_invariant]
    spec fn inv(&self) -> bool {
        python_requirement_check(self.0@) is Ok
    }

    /// Accepts `r` when it has no extras and no marker.
    pub fn try_from(r: Requirement) -> (res: Result<PythonRequirement, RequirementError>)
        ensures
            (match res {
                Ok(p) => python_requirement_check(r@) is Ok && p@ == r@,
                Err(e) => python_requirement_check(r@) == Err::<(), ErrorView>(e@),
            }),
    {
        if r.extras.len() > 0 {
            return Err(RequirementError::UnexpectedExtras);
        }
        if r.env_marker_expr.is_some() {
            return Err(RequirementError::UnexpectedMarker);
        }
        Ok(PythonRequirement(r))
    }

    /// Reads a requirement without extras, then checks it has no marker.
    pub fn parse(input: &str) -> (res: Result<PythonRequirement, RequirementError>)
        ensures
            (match res {
                Ok(p) => parse_requirement(input@, ParseExtra::NotAllowed) == Ok::<
                    RequirementView,
                    ErrorView,
                >(p@) && python_requirement_check(p@) is Ok,
                Err(e) => match parse_requirement(input@, ParseExtra::NotAllowed) {
                    Ok(r) => python_requirement_check(r) == Err::<(), ErrorView>(e@),
                    Err(pe) => pe == e@,
                },
            }),
    {
        match Requirement::parse(input, ParseExtra::NotAllowed) {
            Ok(req) => PythonRequirement::try_from(req),
            Err(e) => Err(e),
        }
    }

    pub fn requirement(&self) -> (r: &Requirement)
        ensures
            r@ == self@,
            python_requirement_check(r@) is Ok,
    {
        proof {
            use_type_invariant(self);
        }
        &self.0
    }

    pub fn to_string(&self) -> (r: String)
        ensures
            r@ == requirement_text(self@),
    {
        self.0.to_string()
    }
}

} // verus!
