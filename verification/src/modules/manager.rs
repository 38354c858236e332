use crate::configuration::global_configuration::{
    module_names_of, module_types_of, names_of, route_views_of, GlobalConfiguration, RouteView,
};
use crate::configuration::module_configuration::ModuleConfiguration;
use crate::configuration::module_properties::ModuleProperties;
use crate::modules::error::{ManagerError, ManagerErrorView};
use crate::modules::graph::{lemma_selected_contains, selected, Launched, ModuleGraph};
use crate::modules::registry::{ModuleConstructor, ModulesRegistry};
use crate::modules::topology::{
    find_repeat, first_repeat, has_dangling, routable, routes_valid, wiring_refused,
};
use vstd::prelude::*;

verus! {

/// The type tag at position `i` is the first that is not among the `known` ones.
pub open spec fn first_unknown(types: Seq<Seq<char>>, known: Seq<Seq<char>>, i: int) -> bool {
    &&& 0 <= i < types.len()
    &&& !known.contains(types[i])
    &&& forall|k: int| 0 <= k < i ==> known.contains(#[trigger] types[k])
}

/// Every type tag is among the `known` ones.
pub open spec fn all_known(types: Seq<Seq<char>>, known: Seq<Seq<char>>) -> bool {
    forall|k: int| 0 <= k < types.len() ==> known.contains(#[trigger] types[k])
}

/// How instantiating the declared modules can fail, and what each failure
/// says: the first name that stands twice; where the names differ, the first
/// type tag that the registry does not know; where all tags are known, a
/// declared module whose constructor refused its settings.
pub open spec fn instantiation_refused(
    names: Seq<Seq<char>>,
    types: Seq<Seq<char>>,
    known: Seq<Seq<char>>,
    error: ManagerErrorView,
) -> bool {
    match error {
        ManagerErrorView::DuplicateModuleName(name) => exists|j: int|
            first_repeat(names, j) && name == names[j],
        ManagerErrorView::UnknownModuleType(tag) => names.no_duplicates() && exists|i: int|
            first_unknown(types, known, i) && tag == types[i],
        ManagerErrorView::ConfigurationError(name, reason) => names.no_duplicates() && all_known(
            types,
            known,
        ) && names.contains(name),
        _ => false,
    }
}

/// For each of `names`, whether some route mentions it.
pub open spec fn reached(names: Seq<Seq<char>>, routes: Seq<RouteView>) -> Seq<bool> {
    Seq::new(names.len(), |m: int| routable(routes, names[m]))
}

/// A declared module that no route mentions is set aside and never started; a
/// declared module that some route mentions is started.
pub proof fn lemma_only_routed_modules_run(
    names: Seq<Seq<char>>,
    routes: Seq<RouteView>,
    m: int,
)
    requires
        0 <= m < names.len(),
    ensures
        !routable(routes, names[m]) ==> {
            &&& selected(names, reached(names, routes), false).contains(names[m])
            &&& !selected(names, reached(names, routes), true).contains(names[m])
        },
        routable(routes, names[m]) ==> {
            &&& selected(names, reached(names, routes), true).contains(names[m])
            &&& !selected(names, reached(names, routes), false).contains(names[m])
        },
{
    let flags = reached(names, routes);
    lemma_selected_contains(names, flags, true, names[m]);
    lemma_selected_contains(names, flags, false, names[m]);
    assert(flags[m] == routable(routes, names[m]));
}

/// Turns a topology into a wired graph of running modules.
pub struct Manager {
    configuration: GlobalConfiguration,
}

impl Manager {
    /// The topology that the manager was made for.
    pub closed spec fn configuration(&self) -> GlobalConfiguration {
        self.configuration
    }

    /// A manager for the topology `configuration`.
    pub fn new(configuration: GlobalConfiguration) -> (manager: Self)
        ensures
            manager.configuration() == configuration,
    {
        Manager { configuration }
    }

    /// Builds every declared module, in the order of declaration, into a graph
    /// that is not yet wired.
    ///
    /// The declarations are checked before any constructor is called: a name
    /// that stands twice is refused with `DuplicateModuleName`, and a type tag
    /// that the registry does not know with `UnknownModuleType`. Each module is
    /// then built from the properties that `ModuleProperties::from_configuration`
    /// gives for its declaration; a constructor that refuses ends the
    /// instantiation with its `ConfigurationError`.
    pub fn instantiate<C: ModuleConstructor>(
        modules: Vec<(String, ModuleConfiguration)>,
        registry: &ModulesRegistry<C>,
    ) -> (result: Result<ModuleGraph<C::Module>, ManagerError>)
        ensures
            match result {
                Ok(graph) => {
                    &&& module_names_of(modules@).no_duplicates()
                    &&& all_known(module_types_of(modules@), registry.type_names())
                    &&& graph.wf()
                    &&& graph.names() == module_names_of(modules@)
                    &&& graph.channels().len() == 0
                    &&& forall|m: int| 0 <= m < graph.routed().len() ==> !graph.routed()[m]
                },
                Err(error) => instantiation_refused(
                    module_names_of(modules@),
                    module_types_of(modules@),
                    registry.type_names(),
                    error@,
                ),
            },
    {
        let ghost names = module_names_of(modules@);
        let ghost types = module_types_of(modules@);
        let ghost known = registry.type_names();
        let mut declared: Vec<String> = Vec::new();
        let mut i: usize = 0;
        while i < modules.len()
            invariant
                i <= modules.len(),
                declared.len() == i,
                forall|k: int| 0 <= k < i ==> declared[k]@ == modules[k].0@,
            decreases modules.len() - i,
        {
            declared.push(modules[i].0.clone());
            i += 1;
        }
        assert(names_of(declared@) =~= names);
        match find_repeat(&declared) {
            Some(j) => {
                return Err(ManagerError::DuplicateModuleName(declared[j].clone()));
            },
            None => {},
        }
        let mut i: usize = 0;
        while i < modules.len()
            invariant
                i <= modules.len(),
                names == module_names_of(modules@),
                names.no_duplicates(),
                types == module_types_of(modules@),
                known == registry.type_names(),
                forall|k: int| 0 <= k < i ==> known.contains(#[trigger] types[k]),
            decreases modules.len() - i,
        {
            if !registry.contains(&modules[i].1.module) {
                assert(first_unknown(types, known, i as int));
                return Err(ManagerError::UnknownModuleType(modules[i].1.module.clone()));
            }
            i += 1;
        }
        let mut graph: ModuleGraph<C::Module> = ModuleGraph::new();
        for entry in it: modules
            invariant
                it.seq() == modules@,
                names == module_names_of(modules@),
                types == module_types_of(modules@),
                known == registry.type_names(),
                names.no_duplicates(),
                all_known(types, known),
                graph.wf(),
                graph.names() == names.take(it.index() as int),
                graph.channels().len() == 0,
                graph.routed().len() == it.index(),
                forall|m: int| 0 <= m < graph.routed().len() ==> !graph.routed()[m],
        {
            let ghost at = it.index() as int;
            let (name, configuration) = entry;
            let properties = ModuleProperties::from_configuration(name.clone(), configuration);
            let tag = properties.module_type.clone();
            assert(tag@ == types[at]);
            assert(known.contains(types[at]));
            assert(name@ == names[at]);
            let module = match registry.get_module(tag.as_str(), properties) {
                Ok(module) => module,
                Err(error) => {
                    return Err(error);
                },
            };
            proof {
                if names.take(at).contains(name@) {
                    let k = choose|k: int| 0 <= k < at && names.take(at)[k] == name@;
                    assert(names[k] == names[at]);
                }
            }
            match graph.insert(name, module) {
                Ok(()) => {},
                Err(error) => {
                    return Err(error);
                },
            }
            assert(graph.names() =~= names.take(at + 1));
        }
        assert(names.take(names.len() as int) =~= names);
        Ok(graph)
    }

    /// Brings the topology up: instantiates the declared modules, wires them as
    /// the routes say, and launches those that a route reaches.
    ///
    /// Every check comes before the first module is started, so that either the
    /// whole graph starts or nothing does. The errors come in this order: a
    /// duplicate module name, an unknown module type, a constructor's refusal,
    /// a dangling route reference, a route without a module on one side, a
    /// module's refusal of an endpoint.
    pub fn run<C: ModuleConstructor>(self, registry: &ModulesRegistry<C>) -> (result: Result<
        Launched,
        ManagerError,
    >)
        ensures
            !self.configuration().module_names().no_duplicates() ==> (result matches Err(error)
                && error is DuplicateModuleName),
            (result matches Err(error) && error is DanglingRouteReference) ==> has_dangling(
                self.configuration().module_names(),
                self.configuration().route_views(),
            ),
            has_dangling(self.configuration().module_names(), self.configuration().route_views())
                ==> (result matches Err(error) && (error is DuplicateModuleName
                || error is UnknownModuleType || error is ConfigurationError
                || error is DanglingRouteReference)),
            match result {
                Ok(launched) => {
                    &&& self.configuration().module_names().no_duplicates()
                    &&& all_known(self.configuration().module_types(), registry.type_names())
                    &&& routes_valid(
                        self.configuration().module_names(),
                        self.configuration().route_views(),
                    )
                    &&& launched.running_names() == selected(
                        self.configuration().module_names(),
                        reached(
                            self.configuration().module_names(),
                            self.configuration().route_views(),
                        ),
                        true,
                    )
                    &&& names_of(launched.idle@) == selected(
                        self.configuration().module_names(),
                        reached(
                            self.configuration().module_names(),
                            self.configuration().route_views(),
                        ),
                        false,
                    )
                    &&& launched.channels@.len() == self.configuration().route_views().len()
                },
                Err(error) => {
                    ||| instantiation_refused(
                        self.configuration().module_names(),
                        self.configuration().module_types(),
                        registry.type_names(),
                        error@,
                    )
                    ||| {
                        &&& self.configuration().module_names().no_duplicates()
                        &&& all_known(self.configuration().module_types(), registry.type_names())
                        &&& wiring_refused(
                            self.configuration().module_names(),
                            self.configuration().route_views(),
                            error@,
                        )
                    }
                },
            },
    {
        let Manager { configuration } = self;
        let GlobalConfiguration { stage_id: _, modules, routes } = configuration;
        let ghost names = module_names_of(modules@);
        let ghost views = route_views_of(routes@);
        let mut graph = match Self::instantiate(modules, registry) {
            Ok(graph) => graph,
            Err(error) => {
                return Err(error);
            },
        };
        match graph.wire(&routes) {
            Ok(()) => {},
            Err(error) => {
                return Err(error);
            },
        }
        assert(graph.routed() =~= reached(names, views));
        Ok(graph.launch())
    }
}

} // verus!
