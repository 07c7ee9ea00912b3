use vstd::prelude::*;

verus! {

/// The kinds of component an entity can hold.
#[derive(Debug, Clone, Copy, PartialEq, Eq, Structural)]
pub enum ComponentKind {
    Renderable,
    Camera,
}

/// A component as its entity keeps it: its kind and, for a renderable, the renderable.
#[derive(Debug, Clone, Copy, PartialEq, Eq, Structural)]
pub enum ComponentEntry {
    Renderable(u64),
    Camera,
}

/// The kind of a component.
pub open spec fn kind_of(component: ComponentEntry) -> ComponentKind {
    match component {
        ComponentEntry::Renderable(_) => ComponentKind::Renderable,
        ComponentEntry::Camera => ComponentKind::Camera,
    }
}

fn entry_kind(component: &ComponentEntry) -> (r: ComponentKind)
    ensures
        r == kind_of(*component),
{
    match component {
        ComponentEntry::Renderable(_) => ComponentKind::Renderable,
        ComponentEntry::Camera => ComponentKind::Camera,
    }
}

/// The renderables among some components, in order.
pub open spec fn renderables_of(components: Seq<ComponentEntry>) -> Seq<u64>
    decreases components.len(),
{
    if components.len() == 0 {
        Seq::empty()
    } else {
        let previous = renderables_of(components.drop_last());
        match components.last() {
            ComponentEntry::Renderable(renderable_id) => previous.push(renderable_id),
            ComponentEntry::Camera => previous,
        }
    }
}

/// The components of an entity, in the order they were added.
pub struct EntityComponents {
    components: Vec<ComponentEntry>,
}

impl View for EntityComponents {
    type V = Seq<ComponentEntry>;

    closed spec fn view(&self) -> Seq<ComponentEntry> {
        self.components@
    }
}

/// Collects the renderables among `components`, in order.
fn collect_renderables(components: &[ComponentEntry]) -> (r: Vec<u64>)
    ensures
        r@ == renderables_of(components@),
{
    let mut renderables: Vec<u64> = Vec::new();
    let mut k: usize = 0;
    while k < components.len()
        invariant
            k <= components@.len(),
            renderables@ == renderables_of(components@.take(k as int)),
        decreases components@.len() - k,
    {
        proof {
            assert(components@.take(k + 1).drop_last() =~= components@.take(k as int));
        }
        match components[k] {
            ComponentEntry::Renderable(renderable_id) => renderables.push(renderable_id),
            ComponentEntry::Camera => {},
        }
        k = k + 1;
    }
    assert(components@.take(components@.len() as int) =~= components@);
    renderables
}

impl EntityComponents {
    /// An entity without components.
    pub fn new() -> (r: Self)
        ensures
            r@ == Seq::<ComponentEntry>::empty(),
    {
        EntityComponents { components: Vec::new() }
    }

    /// Adds a component. Returns the renderable whose addition is announced to the
    /// engine, when the component is one.
    pub fn add_component(&mut self, component: ComponentEntry) -> (announced: Option<u64>)
        ensures
            final(self)@ == old(self)@.push(component),
            announced == match component {
                ComponentEntry::Renderable(renderable_id) => Some(renderable_id),
                ComponentEntry::Camera => None::<u64>,
            },
    {
        self.components.push(component);
        match component {
            ComponentEntry::Renderable(renderable_id) => Some(renderable_id),
            ComponentEntry::Camera => None,
        }
    }

    /// Whether some component is of the given kind: the components of that kind are the
    /// ones an action on that kind reaches.
    pub fn has_component(&self, kind: ComponentKind) -> (r: bool)
        ensures
            r == exists|i: int| 0 <= i < self@.len() && kind_of(#[trigger] self@[i]) == kind,
    {
        let mut k: usize = 0;
        while k < self.components.len()
            invariant
                k <= self@.len(),
                forall|i: int| 0 <= i < k ==> kind_of(#[trigger] self@[i]) != kind,
            decreases self@.len() - k,
        {
            if entry_kind(&self.components[k]) == kind {
                return true;
            }
            k = k + 1;
        }
        false
    }

    /// The renderables among the components, in order.
    pub fn renderables(&self) -> (r: Vec<u64>)
        ensures
            r@ == renderables_of(self@),
    {
        collect_renderables(self.components.as_slice())
    }

    /// Takes out every component whose kind is not `kind`, keeping the order of the
    /// others. Returns the renderables taken out, whose removal is announced to the
    /// engine, in order.
    pub fn remove_components(&mut self, kind: ComponentKind) -> (announced: Vec<u64>)
        ensures
            final(self)@ == old(self)@.filter(|c: ComponentEntry| kind_of(c) == kind),
            announced@ == renderables_of(old(self)@.filter(|c: ComponentEntry| kind_of(c) != kind)),
    {
        let mut kept: Vec<ComponentEntry> = Vec::new();
        let mut removed: Vec<ComponentEntry> = Vec::new();
        let mut k: usize = 0;
        while k < self.components.len()
            invariant
                k <= self@.len(),
                kept@ == self@.take(k as int).filter(|c: ComponentEntry| kind_of(c) == kind),
                removed@ == self@.take(k as int).filter(|c: ComponentEntry| kind_of(c) != kind),
            decreases self@.len() - k,
        {
            let component = self.components[k];
            proof {
                let next = self@.take(k + 1);
                assert(next.drop_last() =~= self@.take(k as int));
                assert(next.last() == component);
                reveal(Seq::filter);
            }
            if entry_kind(&component) == kind {
                kept.push(component);
            } else {
                removed.push(component);
            }
            k = k + 1;
        }
        assert(self@.take(self@.len() as int) =~= self@);
        self.components = kept;
        collect_renderables(removed.as_slice())
    }
}

/// Keeping the components of one kind keeps all of them a second time, and leaves none of
/// another kind.
proof fn lemma_filter_kind_twice(components: Seq<ComponentEntry>, kind: ComponentKind)
    ensures
        components.filter(|c: ComponentEntry| kind_of(c) == kind).filter(|c: ComponentEntry| kind_of(c) == kind)
            == components.filter(|c: ComponentEntry| kind_of(c) == kind),
        components.filter(|c: ComponentEntry| kind_of(c) == kind).filter(|c: ComponentEntry| kind_of(c) != kind).len()
            == 0,
    decreases components.len(),
{
    reveal(Seq::filter);
    if components.len() > 0 {
        let keep = |c: ComponentEntry| kind_of(c) == kind;
        let drop = |c: ComponentEntry| kind_of(c) != kind;
        lemma_filter_kind_twice(components.drop_last(), kind);
        let previous = components.drop_last().filter(keep);
        if kind_of(components.last()) == kind {
            assert(previous.push(components.last()).drop_last() =~= previous);
        }
    }
}

/// Taking out the components of other kinds a second time changes nothing and
/// announces no renderable.
pub proof fn law_remove_components_twice(components: Seq<ComponentEntry>, kind: ComponentKind)
    ensures
        ({
            let kept = components.filter(|c: ComponentEntry| kind_of(c) == kind);
            &&& kept.filter(|c: ComponentEntry| kind_of(c) == kind) == kept
            &&& renderables_of(kept.filter(|c: ComponentEntry| kind_of(c) != kind)) == Seq::<u64>::empty()
        }),
{
    lemma_filter_kind_twice(components, kind);
    let kept = components.filter(|c: ComponentEntry| kind_of(c) == kind);
    assert(kept.filter(|c: ComponentEntry| kind_of(c) != kind) =~= Seq::<ComponentEntry>::empty());
}

/// The renderables of some components are those of their parts, in order: a renderable
/// component gives its renderable, a camera gives none, and joined components give the
/// renderables of the first part followed by those of the second.
pub proof fn law_renderables_of_parts(components: Seq<ComponentEntry>, more: Seq<ComponentEntry>, renderable_id: u64)
    ensures
        renderables_of(Seq::empty()) == Seq::<u64>::empty(),
        renderables_of(seq![ComponentEntry::Renderable(renderable_id)]) == seq![renderable_id],
        renderables_of(seq![ComponentEntry::Camera]) == Seq::<u64>::empty(),
        renderables_of(components + more) == renderables_of(components) + renderables_of(more),
    decreases more.len(),
{
    assert(seq![ComponentEntry::Renderable(renderable_id)].drop_last() =~= Seq::<ComponentEntry>::empty());
    assert(seq![ComponentEntry::Camera].drop_last() =~= Seq::<ComponentEntry>::empty());
    assert(Seq::<u64>::empty().push(renderable_id) =~= seq![renderable_id]);
    if more.len() == 0 {
        assert(components + more =~= components);
        assert(renderables_of(components) + Seq::<u64>::empty() =~= renderables_of(components));
    } else {
        law_renderables_of_parts(components, more.drop_last(), renderable_id);
        assert((components + more).drop_last() =~= components + more.drop_last());
        assert((components + more).last() == more.last());
        match more.last() {
            ComponentEntry::Renderable(r) => {
                assert(renderables_of(components) + renderables_of(more.drop_last()).push(r) =~= (renderables_of(
                    components,
                ) + renderables_of(more.drop_last())).push(r));
            },
            ComponentEntry::Camera => {},
        }
    }
}

} // verus!
