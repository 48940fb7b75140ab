//! Basic adapters, and adapters behind streams.

use std::convert::Infallible;
use std::sync::Arc;

use trustfall_errors::adapter::{
    Adapter, AsVertex, ContextIterator, ContextOutcomeIterator, DataContext, NeighborResolution,
    ResolveEdgeInfo, ResolveInfo, Typename,
};
use trustfall_errors::basic_adapter::{
    coercion_of, neighbors_of, property_of, starting_vertices_of, typename_value, BasicAdapter,
};
use trustfall_errors::bridge::{Bridge, Step, SyncToAsyncAdapter};
use trustfall_errors::helpers::{resolve_coercion_with, resolve_property_with};
use trustfall_errors::ir::{EdgeParameters, FieldValue};
use trustfall_errors::pull::{from_fn, Empty, Pull, VertexIterator};

#[derive(Debug, Clone, PartialEq, Eq)]
enum Animal {
    Cat(&'static str),
    Dog(&'static str),
}

impl Typename for Animal {
    fn typename(&self) -> &'static str {
        match self {
            Animal::Cat(_) => "Cat",
            Animal::Dog(_) => "Dog",
        }
    }
}

fn items<'a, T: 'a, S: 'a>(items: Vec<T>) -> VertexIterator<'a, S, T> {
    let mut items = items.into_iter();
    VertexIterator::new(from_fn(move |_state: &mut S| items.next()))
}

fn collected<T>(sequence: &mut impl Pull<(), T>) -> Vec<T> {
    let mut collected = vec![];
    while let Some(item) = sequence.next(&mut ()) {
        collected.push(item);
    }
    collected
}

struct Shelter;

impl<'a> BasicAdapter<'a> for Shelter {
    type Vertex = Animal;
    type Error = Infallible;

    fn resolve_starting_vertices<S: 'a>(
        &self,
        edge_name: &str,
        _parameters: &EdgeParameters,
    ) -> VertexIterator<'a, S, Result<Animal, Infallible>> {
        assert_eq!(edge_name, "Animal");
        items(vec![Ok(Animal::Cat("Tom")), Ok(Animal::Dog("Rex"))])
    }

    fn resolve_property<S: 'a, V: AsVertex<Animal> + 'a>(
        &self,
        contexts: ContextIterator<'a, S, V>,
        vertex_type: &str,
        property_name: &str,
    ) -> ContextOutcomeIterator<'a, S, V, Result<FieldValue, Infallible>> {
        assert_eq!(vertex_type, "Animal");
        assert_eq!(property_name, "name");
        VertexIterator::new(resolve_property_with(contexts, |vertex: &Animal| match vertex {
            Animal::Cat(name) | Animal::Dog(name) => FieldValue::String(name.to_string()),
        }))
    }

    fn resolve_neighbors<S: 'a, V: AsVertex<Animal> + 'a>(
        &self,
        contexts: ContextIterator<'a, S, V>,
        _vertex_type: &str,
        edge_name: &str,
        _parameters: &EdgeParameters,
    ) -> ContextOutcomeIterator<'a, S, V, NeighborResolution<'a, S, Animal, Infallible>> {
        assert_eq!(edge_name, "friend");
        let mut contexts = contexts;
        VertexIterator::new(from_fn(move |state: &mut S| {
            let context = contexts.next(state)?;
            let neighbors = match context.active_vertex() {
                Some(_) => items(vec![Ok(Animal::Cat("Friend"))]),
                None => Empty::new().boxed(),
            };
            Some((context, Ok(neighbors)))
        }))
    }

    fn resolve_coercion<S: 'a, V: AsVertex<Animal> + 'a>(
        &self,
        contexts: ContextIterator<'a, S, V>,
        _vertex_type: &str,
        coerce_to_type: &str,
    ) -> ContextOutcomeIterator<'a, S, V, Result<bool, Infallible>> {
        let wanted = coerce_to_type.to_string();
        VertexIterator::new(resolve_coercion_with(contexts, move |vertex: &Animal| {
            vertex.typename() == wanted
        }))
    }
}

fn name(text: &str) -> Arc<str> {
    Arc::from(text)
}

fn text(text: &str) -> FieldValue {
    FieldValue::String(text.to_string())
}

fn no_parameters() -> EdgeParameters {
    EdgeParameters { contents: Arc::new(vec![]) }
}

fn present(vertex: Animal) -> DataContext<Animal> {
    DataContext { active_vertex: Some(vertex), values: vec![] }
}

fn absent() -> DataContext<Animal> {
    DataContext { active_vertex: None, values: vec![] }
}

fn all() -> Vec<DataContext<Animal>> {
    vec![present(Animal::Cat("Tom")), absent(), present(Animal::Dog("Rex"))]
}

fn outcomes_of(property: &str) -> Vec<Result<FieldValue, Infallible>> {
    let mut outcomes = Adapter::resolve_property::<(), Animal>(
        &Shelter,
        items(all()),
        &name("Animal"),
        &name(property),
        &ResolveInfo { vid: 1 },
    );
    collected(&mut outcomes).into_iter().map(|(_, outcome)| outcome).collect()
}

#[test]
fn the_typename_is_resolved_by_the_vertices() {
    assert_eq!(typename_value(&Animal::Cat("Tom")), text("Cat"));
    assert_eq!(
        outcomes_of("__typename"),
        vec![Ok(text("Cat")), Ok(FieldValue::Null), Ok(text("Dog"))]
    );
}

#[test]
fn other_properties_go_to_the_basic_adapter() {
    assert_eq!(outcomes_of("name"), vec![Ok(text("Tom")), Ok(FieldValue::Null), Ok(text("Rex"))]);
}

#[test]
fn a_basic_adapter_is_an_adapter() {
    let mut vertices = Adapter::resolve_starting_vertices::<()>(
        &Shelter,
        &name("Animal"),
        &no_parameters(),
        &ResolveInfo { vid: 1 },
    );
    assert_eq!(collected(&mut vertices), vec![Ok(Animal::Cat("Tom")), Ok(Animal::Dog("Rex"))]);

    let mut outcomes = Adapter::resolve_neighbors::<(), Animal>(
        &Shelter,
        items(all()),
        &name("Animal"),
        &name("friend"),
        &no_parameters(),
        &ResolveEdgeInfo { eid: 1 },
    );
    let mut counts = vec![];
    for (_, resolution) in collected(&mut outcomes) {
        match resolution {
            Ok(mut neighbors) => counts.push(collected(&mut neighbors).len()),
            Err(never) => match never {},
        }
    }
    assert_eq!(counts, vec![1, 0, 1]);

    let mut outcomes = Adapter::resolve_coercion::<(), Animal>(
        &Shelter,
        items(all()),
        &name("Animal"),
        &name("Dog"),
        &ResolveInfo { vid: 1 },
    );
    let tests: Vec<_> = collected(&mut outcomes).into_iter().map(|(_, outcome)| outcome).collect();
    assert_eq!(tests, vec![Ok(false), Ok(false), Ok(true)]);
}

#[test]
fn names_reach_the_basic_adapter_as_they_are() {
    let mut vertices =
        starting_vertices_of::<Shelter, ()>(&Shelter, &name("Animal"), &no_parameters());
    assert_eq!(collected(&mut vertices).len(), 2);

    let mut outcomes = property_of::<Shelter, (), Animal>(
        &Shelter,
        items(all()),
        &name("Animal"),
        &name("__typename"),
    );
    assert_eq!(outcomes.next(&mut ()), Some((present(Animal::Cat("Tom")), Ok(text("Cat")))));

    let mut outcomes = neighbors_of::<Shelter, (), Animal>(
        &Shelter,
        items(all()),
        &name("Animal"),
        &name("friend"),
        &no_parameters(),
    );
    assert_eq!(collected(&mut outcomes).len(), 3);

    let mut outcomes = coercion_of::<Shelter, (), Animal>(
        &Shelter,
        items(all()),
        &name("Animal"),
        &name("Cat"),
    );
    assert_eq!(outcomes.next(&mut ()), Some((present(Animal::Cat("Tom")), Ok(true))));
}

#[test]
fn a_value_stands_for_itself_as_a_vertex() {
    let context = present(Animal::Cat("Tom"));
    assert_eq!(context.active_vertex::<Animal>(), Some(&Animal::Cat("Tom")));
    assert_eq!(absent().active_vertex::<Animal>(), None);
}

#[test]
fn a_bridge_yields_each_context_before_it_asks_for_the_next() {
    let adapter = SyncToAsyncAdapter::new(Arc::new(Shelter));
    let mut bridge: Bridge<'_, (), Animal, _, _> = adapter.resolve_property(
        &name("Animal"),
        &name("name"),
        &ResolveInfo { vid: 1 },
    );
    assert!(matches!(bridge.poll(&mut ()), Step::NeedContext));

    bridge.supply(present(Animal::Dog("Rex")));
    match bridge.poll(&mut ()) {
        Step::Yield((context, outcome)) => {
            assert_eq!(context, present(Animal::Dog("Rex")));
            assert_eq!(outcome, Ok(text("Rex")));
        }
        Step::NeedContext => panic!("the context at hand was not yielded"),
    }
    assert!(matches!(bridge.poll(&mut ()), Step::NeedContext));
    assert!(matches!(bridge.poll(&mut ()), Step::NeedContext));

    bridge.supply(absent());
    match bridge.poll(&mut ()) {
        Step::Yield((context, outcome)) => {
            assert_eq!(context, absent());
            assert_eq!(outcome, Ok(FieldValue::Null));
        }
        Step::NeedContext => panic!("the context at hand was not yielded"),
    }
    assert!(matches!(bridge.poll(&mut ()), Step::NeedContext));
}

#[test]
fn a_bridge_carries_edges_and_coercions() {
    let adapter = SyncToAsyncAdapter::new(Arc::new(Shelter)).clone();
    let mut bridge: Bridge<'_, (), Animal, _, _> = adapter.resolve_neighbors(
        &name("Animal"),
        &name("friend"),
        &no_parameters(),
        &ResolveEdgeInfo { eid: 1 },
    );
    bridge.supply(present(Animal::Dog("Rex")));
    match bridge.poll(&mut ()) {
        Step::Yield((_, Ok(mut neighbors))) => {
            assert_eq!(collected(&mut neighbors), vec![Ok(Animal::Cat("Friend"))]);
        }
        _ => panic!("expected the neighbors"),
    }
    assert!(matches!(bridge.poll(&mut ()), Step::NeedContext));

    let mut bridge: Bridge<'_, (), Animal, _, _> = adapter.resolve_coercion(
        &name("Animal"),
        &name("Dog"),
        &ResolveInfo { vid: 1 },
    );
    bridge.supply(present(Animal::Dog("Rex")));
    assert!(matches!(bridge.poll(&mut ()), Step::Yield((_, Ok(true)))));
}

#[test]
fn a_bridge_takes_starting_vertices_as_they_are() {
    let shelter = Arc::new(Shelter);
    let adapter = SyncToAsyncAdapter::new(shelter.clone());
    assert!(Arc::ptr_eq(adapter.inner(), &shelter));
    let mut vertices = adapter.resolve_starting_vertices::<()>(
        &name("Animal"),
        &no_parameters(),
        &ResolveInfo { vid: 1 },
    );
    assert_eq!(collected(&mut vertices).len(), 2);
}
