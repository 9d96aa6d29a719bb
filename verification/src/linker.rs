use vstd::prelude::*;
use crate::error::HostError;
use crate::signature::{Signature, SignatureShape};

verus! {

/// What an import asks for, or what the host binds to a name.
#[derive(Clone, Debug, PartialEq, Eq)]
pub enum Shape {
    /// A function of this signature.
    Function(Signature),
    /// A memory with these limits, in pages.
    Memory { minimum: u64, maximum: Option<u64>, shared: bool },
    /// Something the host does not provide: a global, a table or a tag.
    Other,
}

/// What a shape says, as mathematical values.
pub ghost enum ShapeView {
    Function(SignatureShape),
    Memory { minimum: u64, maximum: Option<u64>, shared: bool },
    Other,
}

impl View for Shape {
    type V = ShapeView;

    open spec fn view(&self) -> ShapeView {
        match self {
            Shape::Function(signature) => ShapeView::Function(signature@),
            Shape::Memory { minimum, maximum, shared } => ShapeView::Memory {
                minimum: *minimum,
                maximum: *maximum,
                shared: *shared,
            },
            Shape::Other => ShapeView::Other,
        }
    }
}

/// Whether what the host `defined` is exactly what the module `declared`:
/// the same arguments and results for a function, the same limits and
/// sharing for a memory. Nothing satisfies an import of another kind.
pub open spec fn satisfies(defined: ShapeView, declared: ShapeView) -> bool {
    match (defined, declared) {
        (ShapeView::Function(have), ShapeView::Function(want)) => have == want,
        (
            ShapeView::Memory { minimum: have_min, maximum: have_max, shared: have_shared },
            ShapeView::Memory { minimum: want_min, maximum: want_max, shared: want_shared },
        ) => have_min == want_min && have_max == want_max && have_shared == want_shared,
        _ => false,
    }
}

/// A host capability registered under a two-part name.
#[derive(Clone, Debug, PartialEq, Eq)]
pub struct Definition {
    pub namespace: String,
    pub name: String,
    pub shape: Shape,
}

/// An import that a module declares under a two-part name.
#[derive(Clone, Debug, PartialEq, Eq)]
pub struct Import {
    pub namespace: String,
    pub name: String,
    pub shape: Shape,
}

/// What is registered under the two-part name; the latest registration of a
/// name is the one that counts.
pub open spec fn lookup(definitions: Seq<Definition>, namespace: Seq<char>, name: Seq<char>) -> Option<
    ShapeView,
>
    decreases definitions.len(),
{
    if definitions.len() == 0 {
        None
    } else if definitions.last().namespace@ == namespace && definitions.last().name@ == name {
        Some(definitions.last().shape@)
    } else {
        lookup(definitions.drop_last(), namespace, name)
    }
}

/// What an import says, as mathematical values.
pub ghost struct ImportView {
    pub namespace: Seq<char>,
    pub name: Seq<char>,
    pub shape: ShapeView,
}

impl View for Import {
    type V = ImportView;

    open spec fn view(&self) -> ImportView {
        ImportView { namespace: self.namespace@, name: self.name@, shape: self.shape@ }
    }
}

/// An export that a module declares under a name.
#[derive(Clone, Debug, PartialEq, Eq)]
pub struct Export {
    pub name: String,
    pub shape: Shape,
}

/// What an export says, as mathematical values.
pub ghost struct ExportView {
    pub name: Seq<char>,
    pub shape: ShapeView,
}

impl View for Export {
    type V = ExportView;

    open spec fn view(&self) -> ExportView {
        ExportView { name: self.name@, shape: self.shape@ }
    }
}

/// What a list of exports says, entry by entry.
pub open spec fn export_views(exports: Seq<Export>) -> Seq<ExportView> {
    Seq::new(exports.len(), |i: int| exports[i]@)
}

/// What a list of imports says, entry by entry.
pub open spec fn import_views(imports: Seq<Import>) -> Seq<ImportView> {
    Seq::new(imports.len(), |i: int| imports[i]@)
}

/// Whether the definitions bind an import that says `import` to exactly what
/// it declares.
pub open spec fn bound_view(definitions: Seq<Definition>, import: ImportView) -> bool {
    match lookup(definitions, import.namespace, import.name) {
        Some(defined) => satisfies(defined, import.shape),
        None => false,
    }
}

/// Whether the definitions bind the import to exactly what it declares.
pub open spec fn bound(definitions: Seq<Definition>, import: Import) -> bool {
    bound_view(definitions, import@)
}

/// Whether the definitions bind every one of the imports to exactly what it
/// declares.
pub open spec fn all_bound(definitions: Seq<Definition>, imports: Seq<ImportView>) -> bool {
    forall|j: int| 0 <= j < imports.len() ==> bound_view(definitions, #[trigger] imports[j])
}

/// Whether the error reports the first of the imports that is not bound to
/// exactly what it declares: by its two names, and by whether nothing is
/// defined under them or something of another shape.
pub open spec fn reports_unbound(
    e: HostError,
    definitions: Seq<Definition>,
    imports: Seq<ImportView>,
) -> bool {
    exists|k: int|
        0 <= k < imports.len() && (forall|j: int|
            0 <= j < k ==> bound_view(definitions, #[trigger] imports[j])) && !bound_view(
            definitions,
            #[trigger] imports[k],
        ) && (e matches HostError::LinkError { namespace, name, detail } && namespace@
            == imports[k].namespace && name@ == imports[k].name && detail@ == (if lookup(
            definitions,
            imports[k].namespace,
            imports[k].name,
        ) is None {
            "not defined"@
        } else {
            "defined with another shape"@
        }))
}

/// Whether every import before the `index`-th is bound.
pub open spec fn bound_before(definitions: Seq<Definition>, imports: Seq<Import>, index: int) -> bool {
    forall|j: int| 0 <= j < index ==> bound(definitions, #[trigger] imports[j])
}

impl Shape {
    /// A shape that says the same.
    pub fn duplicate(&self) -> (copy: Shape)
        ensures
            copy@ == self@,
    {
        match self {
            Shape::Function(signature) => Shape::Function(signature.duplicate()),
            Shape::Memory { minimum, maximum, shared } => Shape::Memory {
                minimum: *minimum,
                maximum: *maximum,
                shared: *shared,
            },
            Shape::Other => Shape::Other,
        }
    }

    /// Whether `self`, as defined by the host, is exactly what a module
    /// `declared`.
    pub fn satisfies(&self, declared: &Shape) -> (exact: bool)
        ensures
            exact == satisfies(self@, declared@),
    {
        match (self, declared) {
            (Shape::Function(have), Shape::Function(want)) => have.matches(want),
            (
                Shape::Memory { minimum: have_min, maximum: have_max, shared: have_shared },
                Shape::Memory { minimum: want_min, maximum: want_max, shared: want_shared },
            ) => {
                let same_max: bool = match (have_max, want_max) {
                    (Some(have), Some(want)) => *have == *want,
                    (None, None) => true,
                    _ => false,
                };
                *have_min == *want_min && same_max && *have_shared == *want_shared
            },
            _ => false,
        }
    }
}

/// The capabilities that the host offers to the modules it instantiates.
#[derive(Clone, Debug)]
pub struct ImportLinker {
    definitions: Vec<Definition>,
}

impl View for ImportLinker {
    type V = Seq<Definition>;

    closed spec fn view(&self) -> Seq<Definition> {
        self.definitions@
    }
}

impl ImportLinker {
    /// A linker that offers nothing.
    pub fn new() -> (made: ImportLinker)
        ensures
            made@.len() == 0,
    {
        ImportLinker { definitions: Vec::new() }
    }

    /// Registers `shape` under the two-part name. A name registered before
    /// now stands for the new shape; every other name stands for what it
    /// stood for.
    pub fn define(&mut self, namespace: &str, name: &str, shape: Shape)
        ensures
            final(self)@.len() == old(self)@.len() + 1,
            lookup(final(self)@, namespace@, name@) == Some(shape@),
            forall|other_namespace: Seq<char>, other_name: Seq<char>|
                !(other_namespace == namespace@ && other_name == name@) ==> #[trigger] lookup(
                    final(self)@,
                    other_namespace,
                    other_name,
                ) == lookup(old(self)@, other_namespace, other_name),
    {
        let definition = Definition { namespace: namespace.to_owned(), name: name.to_owned(), shape };
        self.definitions.push(definition);
        assert(self.definitions@.drop_last() =~= old(self).definitions@);
    }

    /// What is registered under the two-part name.
    pub fn resolve(&self, namespace: &str, name: &str) -> (found: Option<&Shape>)
        ensures
            match found {
                Some(shape) => lookup(self@, namespace@, name@) == Some(shape@),
                None => lookup(self@, namespace@, name@) is None,
            },
    {
        let wanted_namespace: String = namespace.to_owned();
        let wanted_name: String = name.to_owned();
        let mut remaining: usize = self.definitions.len();
        assert(self.definitions@.take(remaining as int) =~= self@);
        while remaining > 0
            invariant
                remaining <= self.definitions@.len(),
                wanted_namespace@ == namespace@,
                wanted_name@ == name@,
                lookup(self@, namespace@, name@) == lookup(
                    self.definitions@.take(remaining as int),
                    namespace@,
                    name@,
                ),
            decreases remaining,
        {
            let candidate: &Definition = &self.definitions[remaining - 1];
            let ghost prefix = self.definitions@.take(remaining as int);
            assert(prefix.last() == *candidate);
            assert(prefix.drop_last() =~= self.definitions@.take(remaining - 1));
            if candidate.namespace == wanted_namespace && candidate.name == wanted_name {
                return Some(&candidate.shape);
            }
            remaining -= 1;
        }
        assert(self.definitions@.take(0).len() == 0);
        None
    }

    /// Checks the imports of a module against what is registered, in the
    /// order the module declares them. The first import that is not bound to
    /// exactly what it declares is reported by name.
    pub fn check(&self, imports: &Vec<Import>) -> (checked: Result<(), HostError>)
        ensures
            checked is Ok <==> bound_before(self@, imports@, imports@.len() as int),
            checked matches Err(e) ==> reports_unbound(e, self@, import_views(imports@)),
    {
        let count: usize = imports.len();
        let mut index: usize = 0;
        while index < count
            invariant
                index <= count,
                count == imports@.len(),
                bound_before(self@, imports@, index as int),
            decreases count - index,
        {
            let import: &Import = &imports[index];
            let fault: Option<&str> = match self.resolve(
                import.namespace.as_str(),
                import.name.as_str(),
            ) {
                Some(defined) => if defined.satisfies(&import.shape) {
                    None
                } else {
                    Some("defined with another shape")
                },
                None => Some("not defined"),
            };
            if let Some(detail) = fault {
                assert(!bound(self@, imports@[index as int]));
                proof {
                    let views = import_views(imports@);
                    assert(views[index as int] == imports@[index as int]@);
                    assert forall|j: int| 0 <= j < index implies bound_view(
                        self@,
                        #[trigger] views[j],
                    ) by {
                        assert(bound(self@, imports@[j]));
                    }
                    assert(!bound_view(self@, views[index as int]));
                }
                return Err(
                    HostError::LinkError {
                        namespace: import.namespace.clone(),
                        name: import.name.clone(),
                        detail: detail.to_owned(),
                    },
                );
            }
            index += 1;
        }
        Ok(())
    }
}

/// Whether a list of imports is bound depends on what the imports say alone.
pub proof fn lemma_bound_by_view(definitions: Seq<Definition>, imports: Seq<Import>)
    ensures
        bound_before(definitions, imports, imports.len() as int) == all_bound(
            definitions,
            import_views(imports),
        ),
{
    let views = import_views(imports);
    if bound_before(definitions, imports, imports.len() as int) {
        assert forall|j: int| 0 <= j < views.len() implies bound_view(
            definitions,
            #[trigger] views[j],
        ) by {
            assert(bound(definitions, imports[j]));
        }
    }
    if all_bound(definitions, views) {
        assert forall|j: int| 0 <= j < imports.len() implies bound(
            definitions,
            #[trigger] imports[j],
        ) by {
            assert(bound_view(definitions, views[j]));
        }
    }
}

/// Two linkers that register the same capabilities in the same order accept
/// the same modules: what is bound depends on the definitions alone.
pub proof fn lemma_same_definitions_same_binding(
    first: Seq<Definition>,
    second: Seq<Definition>,
    import: Import,
)
    requires
        first.len() == second.len(),
        forall|i: int|
            0 <= i < first.len() ==> (#[trigger] first[i]).namespace@ == second[i].namespace@
                && first[i].name@ == second[i].name@ && first[i].shape@ == second[i].shape@,
    ensures
        bound(first, import) == bound(second, import),
        lookup(first, import.namespace@, import.name@) == lookup(
            second,
            import.namespace@,
            import.name@,
        ),
    decreases first.len(),
{
    if first.len() > 0 {
        assert(first.last() == first[first.len() - 1]);
        assert(second.last() == second[second.len() - 1]);
        let shorter_first = first.drop_last();
        let shorter_second = second.drop_last();
        assert forall|i: int| 0 <= i < shorter_first.len() implies (#[trigger] shorter_first[i]).namespace@
            == shorter_second[i].namespace@ && shorter_first[i].name@ == shorter_second[i].name@
            && shorter_first[i].shape@ == shorter_second[i].shape@ by {
            assert(shorter_first[i] == first[i]);
            assert(shorter_second[i] == second[i]);
        }
        lemma_same_definitions_same_binding(shorter_first, shorter_second, import);
    }
}

} // verus!
