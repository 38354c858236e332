use crate::configuration::module_configuration::ModuleConfiguration;
use vstd::prelude::*;

verus! {

/// How many modules stand at one end of a route: one name, or a list of names.
#[derive(Debug, Clone)]
pub enum RouteCardinality {
    Multiple(Vec<String>),
    Single(String),
}

/// A named, directed connection from the modules in `from` to those in `to`.
#[derive(Debug, Clone)]
pub struct RouteConfiguration {
    /// Identity of the declaration; it plays no part in routing.
    pub id: u128,
    pub from: RouteCardinality,
    pub to: RouteCardinality,
}

/// A whole topology: the declared modules and the routes between them, each
/// list in the order of declaration and each entry under its name.
#[derive(Debug, Clone)]
pub struct GlobalConfiguration {
    /// Identity of the deployment; it plays no part in routing.
    pub stage_id: u128,
    pub modules: Vec<(String, ModuleConfiguration)>,
    pub routes: Vec<(String, RouteConfiguration)>,
}

impl Default for GlobalConfiguration {
    /// The empty topology: no module and no route.
    fn default() -> (configuration: Self)
        ensures
            configuration.stage_id == 0,
            configuration.modules@.len() == 0,
            configuration.routes@.len() == 0,
    {
        GlobalConfiguration { stage_id: 0, modules: Vec::new(), routes: Vec::new() }
    }
}

/// The names held by a list of strings.
pub open spec fn names_of(list: Seq<String>) -> Seq<Seq<char>> {
    list.map_values(|name: String| name@)
}

/// What a route says, with every name as a sequence of characters.
pub struct RouteView {
    pub name: Seq<char>,
    pub from: Seq<Seq<char>>,
    pub to: Seq<Seq<char>>,
}

impl RouteCardinality {
    /// The module names that this end of a route expands to: the one name, or
    /// the list as it was given, repetitions included.
    pub open spec fn names(&self) -> Seq<Seq<char>> {
        match self {
            RouteCardinality::Multiple(list) => names_of(list@),
            RouteCardinality::Single(name) => seq![name@],
        }
    }

    /// Expands this end of a route into the list of module names it stands for.
    pub fn get_modules(&self) -> (modules: Vec<String>)
        ensures
            names_of(modules@) == self.names(),
    {
        match self {
            RouteCardinality::Multiple(list) => {
                let mut modules: Vec<String> = Vec::new();
                let mut i: usize = 0;
                while i < list.len()
                    invariant
                        i <= list.len(),
                        modules.len() == i,
                        forall|k: int| 0 <= k < i ==> modules[k]@ == list[k]@,
                    decreases list.len() - i,
                {
                    modules.push(list[i].clone());
                    i += 1;
                }
                assert(names_of(modules@) =~= names_of(list@));
                modules
            },
            RouteCardinality::Single(name) => {
                let mut modules: Vec<String> = Vec::new();
                modules.push(name.clone());
                assert(names_of(modules@) =~= seq![name@]);
                modules
            },
        }
    }
}

impl RouteConfiguration {
    /// This route under the name it was declared with.
    pub open spec fn view_as(&self, name: Seq<char>) -> RouteView {
        RouteView { name, from: self.from.names(), to: self.to.names() }
    }
}

impl GlobalConfiguration {
    /// The declared module names, in the order of declaration.
    pub open spec fn module_names(&self) -> Seq<Seq<char>> {
        module_names_of(self.modules@)
    }

    /// The type tag of each declared module, in the order of declaration.
    pub open spec fn module_types(&self) -> Seq<Seq<char>> {
        module_types_of(self.modules@)
    }

    /// The declared routes, in the order of declaration.
    pub open spec fn route_views(&self) -> Seq<RouteView> {
        route_views_of(self.routes@)
    }
}

/// The names of a list of declared modules.
pub open spec fn module_names_of(modules: Seq<(String, ModuleConfiguration)>) -> Seq<Seq<char>> {
    modules.map_values(|entry: (String, ModuleConfiguration)| entry.0@)
}

/// The type tags of a list of declared modules.
pub open spec fn module_types_of(modules: Seq<(String, ModuleConfiguration)>) -> Seq<Seq<char>> {
    modules.map_values(|entry: (String, ModuleConfiguration)| entry.1.module@)
}

/// The views of a list of declared routes.
pub open spec fn route_views_of(routes: Seq<(String, RouteConfiguration)>) -> Seq<RouteView> {
    routes.map_values(|entry: (String, RouteConfiguration)| entry.1.view_as(entry.0@))
}

} // verus!
