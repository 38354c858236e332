use vstd::prelude::*;

verus! {

/// Why a topology could not be started. Each of these is found before any
/// module runs, so a graph never runs in part.
#[derive(Debug, Clone, PartialEq, Eq)]
pub enum ManagerError {
    /// The named module's constructor refused its settings, for the reason given.
    ConfigurationError(String, String),
    /// Two declared modules share this name.
    DuplicateModuleName(String),
    /// No constructor is registered under this type tag.
    UnknownModuleType(String),
    /// The route (first) refers to a module (second) that was never declared.
    DanglingRouteReference(String, String),
    /// The named route has no module on one of its two sides.
    EmptyRouteEndpoint(String),
    /// The route (first) hands the module (second) an endpoint that its kind
    /// cannot have.
    UnsupportedOperation(String, String),
}

/// A `ManagerError` with every name as a sequence of characters.
pub enum ManagerErrorView {
    ConfigurationError(Seq<char>, Seq<char>),
    DuplicateModuleName(Seq<char>),
    UnknownModuleType(Seq<char>),
    DanglingRouteReference(Seq<char>, Seq<char>),
    EmptyRouteEndpoint(Seq<char>),
    UnsupportedOperation(Seq<char>, Seq<char>),
}

impl View for ManagerError {
    type V = ManagerErrorView;

    open spec fn view(&self) -> ManagerErrorView {
        match self {
            ManagerError::ConfigurationError(module, reason) => ManagerErrorView::ConfigurationError(
                module@,
                reason@,
            ),
            ManagerError::DuplicateModuleName(module) => ManagerErrorView::DuplicateModuleName(
                module@,
            ),
            ManagerError::UnknownModuleType(tag) => ManagerErrorView::UnknownModuleType(tag@),
            ManagerError::DanglingRouteReference(route, module) => ManagerErrorView::DanglingRouteReference(
                route@,
                module@,
            ),
            ManagerError::EmptyRouteEndpoint(route) => ManagerErrorView::EmptyRouteEndpoint(route@),
            ManagerError::UnsupportedOperation(route, module) => ManagerErrorView::UnsupportedOperation(
                route@,
                module@,
            ),
        }
    }
}

} // verus!
