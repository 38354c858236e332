use crate::configuration::module_properties::ModuleProperties;
use crate::modules::error::{ManagerError, ManagerErrorView};
use crate::modules::module::{ConfigurationError, ModuleTrait};
use core::marker::PhantomData;
use vstd::prelude::*;

verus! {

/// Builds the modules of one type tag. What it builds is one type for a whole
/// graph: where the kinds differ, that type is their tagged union.
pub trait ModuleConstructor {
    type Module: ModuleTrait;

    /// Builds a module from its properties, or says why the settings do not fit.
    fn construct(&self, configuration: ModuleProperties) -> Result<
        Self::Module,
        ConfigurationError,
    >;
}

/// The constructor that builds a module of type `M` with `M::new`.
pub struct TypeConstructor<M> {
    marker: PhantomData<M>,
}

impl<M: ModuleTrait> ModuleConstructor for TypeConstructor<M> {
    type Module = M;

    /// Builds with `M::new`: the result is what `M::new` returns for these
    /// properties, a module or a refusal.
    fn construct(&self, configuration: ModuleProperties) -> (result: Result<M, ConfigurationError>)
        ensures
            call_ensures(M::new, (configuration,), result),
    {
        M::new(configuration)
    }
}

/// Turns what a constructor returned for the module `name` into what the
/// registry returns: the module as it is, or the refusal under the module's
/// name.
pub fn construction_outcome<M>(name: String, outcome: Result<M, ConfigurationError>) -> (result:
    Result<M, ManagerError>)
    ensures
        match outcome {
            Ok(module) => result == Ok::<M, ManagerError>(module),
            Err(refusal) => (result matches Err(error) && error@
                == ManagerErrorView::ConfigurationError(name@, refusal.reason@)),
        },
{
    match outcome {
        Ok(module) => Ok(module),
        Err(refusal) => Err(ManagerError::ConfigurationError(name, refusal.reason)),
    }
}

/// One line of the registry: a type tag and the constructor that stands for it.
pub struct Registration<C> {
    pub tag: String,
    pub constructor: C,
}

/// The type tags of a list of registrations.
pub open spec fn tags_of<C>(entries: Seq<Registration<C>>) -> Seq<Seq<char>> {
    entries.map_values(|entry: Registration<C>| entry.tag@)
}

/// The table from type tags to constructors: the one place where a new kind of
/// module is made known. It holds no routing and no lifecycle logic.
pub struct ModulesRegistry<C> {
    entries: Vec<Registration<C>>,
}

impl<C: ModuleConstructor> ModulesRegistry<C> {
    /// The registrations, in the order in which their tags were first seen.
    pub closed spec fn entries(&self) -> Seq<Registration<C>> {
        self.entries@
    }

    /// The registered type tags.
    pub open spec fn type_names(&self) -> Seq<Seq<char>> {
        tags_of(self.entries())
    }

    /// No tag stands twice.
    pub open spec fn wf(&self) -> bool {
        self.type_names().no_duplicates()
    }

    /// Whether a constructor is registered under `tag`.
    pub open spec fn knows(&self, tag: Seq<char>) -> bool {
        self.type_names().contains(tag)
    }

    /// A registry that knows no type.
    pub fn new() -> (registry: Self)
        ensures
            registry.wf(),
            registry.entries() == Seq::<Registration<C>>::empty(),
    {
        ModulesRegistry { entries: Vec::new() }
    }

    /// Finds the first line that stands for `tag`.
    fn line_of(&self, tag: &String) -> (found: Option<usize>)
        ensures
            match found {
                Some(i) => i < self.entries().len() && self.type_names()[i as int] == tag@,
                None => !self.knows(tag@),
            },
    {
        let mut i: usize = 0;
        while i < self.entries.len()
            invariant
                i <= self.entries.len(),
                forall|k: int| 0 <= k < i ==> self.type_names()[k] != tag@,
            decreases self.entries.len() - i,
        {
            if self.entries[i].tag == *tag {
                return Some(i);
            }
            i += 1;
        }
        None
    }

    /// Makes `constructor` the constructor of the type tag `tag`. A tag that is
    /// already known keeps its line and gets the new constructor; a new tag
    /// gets a line of its own after all others.
    pub fn register(&mut self, tag: String, constructor: C)
        requires
            old(self).wf(),
        ensures
            final(self).wf(),
            forall|other: Seq<char>|
                final(self).knows(other) <==> (old(self).knows(other) || other == tag@),
            old(self).knows(tag@) ==> exists|i: int|
                {
                    &&& 0 <= i < old(self).entries().len()
                    &&& old(self).type_names()[i] == tag@
                    &&& final(self).entries() == old(self).entries().update(
                        i,
                        (Registration { tag, constructor }),
                    )
                },
            !old(self).knows(tag@) ==> final(self).entries() == old(self).entries().push(
                (Registration { tag, constructor }),
            ),
    {
        let ghost before = self.type_names();
        match self.line_of(&tag) {
            Some(i) => {
                assert(before.contains(tag@));
                self.entries[i] = Registration { tag, constructor };
                assert(self.type_names() =~= before);
                assert forall|other: Seq<char>| self.knows(other) <==> (before.contains(other)
                    || other == tag@) by {}
            },
            None => {
                self.entries.push(Registration { tag, constructor });
                let ghost after = self.type_names();
                assert(after =~= before.push(tag@));
                assert(after[before.len() as int] == tag@);
                assert forall|a: int, b: int|
                    0 <= a < after.len() && 0 <= b < after.len() && a != b implies after[a]
                    != after[b] by {
                    if a < before.len() && b < before.len() {
                        assert(before[a] != before[b]);
                    } else if a < before.len() {
                        assert(before[a] != tag@);
                    } else {
                        assert(before[b] != tag@);
                    }
                }
                assert forall|other: Seq<char>| self.knows(other) <==> (before.contains(other)
                    || other == tag@) by {
                    if before.contains(other) {
                        let k = choose|k: int| 0 <= k < before.len() && before[k] == other;
                        assert(after[k] == other);
                    }
                    if after.contains(other) {
                        let k = choose|k: int| 0 <= k < after.len() && after[k] == other;
                        if k < before.len() {
                            assert(before[k] == other);
                        }
                    }
                }
            },
        }
    }

    /// Whether a constructor is registered under the type tag `name`.
    pub fn contains(&self, name: &String) -> (known: bool)
        ensures
            known == self.knows(name@),
    {
        self.line_of(name).is_some()
    }

    /// Builds the module that `configuration` describes with the constructor
    /// registered under the type tag `name`.
    ///
    /// An unknown tag is refused with `UnknownModuleType`. For a known tag the
    /// constructor decides: its module is handed on, and its refusal becomes a
    /// `ConfigurationError` under the module's name, as `construction_outcome`
    /// says.
    pub fn get_module(&self, name: &str, configuration: ModuleProperties) -> (result: Result<
        C::Module,
        ManagerError,
    >)
        ensures
            !self.knows(name@) ==> (result matches Err(error) && error@
                == ManagerErrorView::UnknownModuleType(name@)),
            self.knows(name@) ==> match result {
                Ok(_) => true,
                Err(error) => exists|reason: Seq<char>|
                    error@ == ManagerErrorView::ConfigurationError(configuration.name@, reason),
            },
    {
        let tag = name.to_owned();
        match self.line_of(&tag) {
            Some(i) => {
                let module_name = configuration.name.clone();
                let outcome = self.entries[i].constructor.construct(configuration);
                construction_outcome(module_name, outcome)
            },
            None => Err(ManagerError::UnknownModuleType(tag)),
        }
    }
}

impl<M: ModuleTrait> ModulesRegistry<TypeConstructor<M>> {
    /// Makes `M::new` the constructor of the type tag `tag`.
    pub fn register_type(&mut self, tag: String)
        requires
            old(self).wf(),
        ensures
            final(self).wf(),
            forall|other: Seq<char>|
                final(self).knows(other) <==> (old(self).knows(other) || other == tag@),
            final(self).type_names() == if old(self).knows(tag@) {
                old(self).type_names()
            } else {
                old(self).type_names().push(tag@)
            },
    {
        let ghost before = self.type_names();
        self.register(tag, TypeConstructor::<M> { marker: PhantomData });
        assert(self.type_names() =~= if before.contains(tag@) {
            before
        } else {
            before.push(tag@)
        });
    }
}

} // verus!
