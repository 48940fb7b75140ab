//! End-to-end tests for adapter errors.
//!
//! A fault-injecting `NumbersAdapter` verifies the fail-fast contract: preceding rows are
//! yielded, then one error, then the results end. The queries run on a small interpreter that
//! works with the infallible side of an `ErrorTrackingAdapter`.

use std::collections::BTreeMap;
use std::convert::Infallible;
use std::rc::Rc;
use std::sync::atomic::{AtomicBool, AtomicUsize, Ordering};
use std::sync::Arc;

use trustfall_errors::adapter::{
    Adapter, AsVertex, ContextIterator, ContextOutcomeIterator, DataContext, NeighborResolution,
    ResolveEdgeInfo, ResolveInfo,
};
use trustfall_errors::error::{ExecutionError, IntoRow};
use trustfall_errors::error_tracking::{
    new_error_slot, ErrorSlot, ErrorTrackingAdapter, RawAdapter,
};
use trustfall_errors::helpers::{
    resolve_coercion_with, resolve_neighbors_with, resolve_property_with,
};
use trustfall_errors::ir::{EdgeParameters, FieldValue};
use trustfall_errors::pull::{from_fn, Pull, VertexIterator};
use trustfall_errors::surface::surface_errors;

type Row = BTreeMap<Arc<str>, FieldValue>;

// ---------------------------------------------------------------------------
// Numbers
// ---------------------------------------------------------------------------

/// The natural numbers: `value`, `predecessor`, `successor`, `multiple(max)`, and the subtype
/// `Prime`.
struct NumbersAdapter;

fn parameter(parameters: &EdgeParameters, name: &str, default: i64) -> i64 {
    for (key, value) in parameters.contents.iter() {
        if key.as_ref() == name {
            match value {
                FieldValue::Int64(number) => return *number,
                other => panic!("unexpected parameter {other:?}"),
            }
        }
    }
    default
}

fn is_prime(number: i64) -> bool {
    number >= 2 && (2..number).all(|divisor| number % divisor != 0)
}

fn items<'a, S: 'a, T: 'a>(iter: impl Iterator<Item = T> + 'a) -> VertexIterator<'a, S, T> {
    let mut iter = iter;
    VertexIterator::new(from_fn(move |_state: &mut S| iter.next()))
}

fn mapped<'a, S: 'a, T: 'a, U: 'a>(
    source: VertexIterator<'a, S, T>,
    function: impl FnMut(T) -> U + 'a,
) -> VertexIterator<'a, S, U> {
    let mut source = source;
    let mut function = function;
    VertexIterator::new(from_fn(move |state: &mut S| source.next(state).map(&mut function)))
}

impl<'a> Adapter<'a> for NumbersAdapter {
    type Vertex = i64;
    type Error = Infallible;

    fn resolve_starting_vertices<S: 'a>(
        &self,
        edge_name: &Arc<str>,
        parameters: &EdgeParameters,
        _resolve_info: &ResolveInfo,
    ) -> VertexIterator<'a, S, Result<i64, Infallible>> {
        assert_eq!(edge_name.as_ref(), "Number");
        let min = parameter(parameters, "min", 0);
        let max = parameter(parameters, "max", 10);
        items((min..=max).map(Ok))
    }

    fn resolve_property<S: 'a, V: AsVertex<i64> + 'a>(
        &self,
        contexts: ContextIterator<'a, S, V>,
        _vertex_type: &Arc<str>,
        property_name: &Arc<str>,
        _resolve_info: &ResolveInfo,
    ) -> ContextOutcomeIterator<'a, S, V, Result<FieldValue, Infallible>> {
        assert_eq!(property_name.as_ref(), "value");
        VertexIterator::new(resolve_property_with(contexts, |number: &i64| {
            FieldValue::Int64(*number)
        }))
    }

    fn resolve_neighbors<S: 'a, V: AsVertex<i64> + 'a>(
        &self,
        contexts: ContextIterator<'a, S, V>,
        _vertex_type: &Arc<str>,
        edge_name: &Arc<str>,
        parameters: &EdgeParameters,
        _resolve_info: &ResolveEdgeInfo,
    ) -> ContextOutcomeIterator<'a, S, V, NeighborResolution<'a, S, i64, Infallible>> {
        let edge_name = edge_name.clone();
        let max = parameter(parameters, "max", 0);
        let outcomes = resolve_neighbors_with(contexts, move |number: &i64| {
            let number = *number;
            match edge_name.as_ref() {
                "successor" => items(std::iter::once(number + 1)),
                "predecessor" => items((number > 0).then_some(number - 1).into_iter()),
                "multiple" => items((2..=max).map(move |factor| factor * number)),
                other => panic!("unexpected edge {other}"),
            }
        });
        mapped(VertexIterator::new(outcomes), |(context, neighbors)| (context, Ok(neighbors)))
    }

    fn resolve_coercion<S: 'a, V: AsVertex<i64> + 'a>(
        &self,
        contexts: ContextIterator<'a, S, V>,
        _vertex_type: &Arc<str>,
        coerce_to_type: &Arc<str>,
        _resolve_info: &ResolveInfo,
    ) -> ContextOutcomeIterator<'a, S, V, Result<bool, Infallible>> {
        assert_eq!(coerce_to_type.as_ref(), "Prime");
        VertexIterator::new(resolve_coercion_with(contexts, |number: &i64| is_prime(*number)))
    }
}

// ---------------------------------------------------------------------------
// Queries
// ---------------------------------------------------------------------------

#[derive(Debug, Clone, PartialEq)]
enum Token {
    Mark(char),
    Spread,
    Word(String),
    Number(i64),
}

fn tokens(query: &str) -> Vec<Token> {
    let chars: Vec<char> = query.chars().collect();
    let mut tokens = vec![];
    let mut at = 0;
    while at < chars.len() {
        let start = at;
        let c = chars[at];
        if c.is_whitespace() || c == ',' {
            at += 1;
        } else if c == '.' {
            at += 3;
            tokens.push(Token::Spread);
        } else if c.is_ascii_digit() {
            while at < chars.len() && chars[at].is_ascii_digit() {
                at += 1;
            }
            let digits: String = chars[start..at].iter().collect();
            tokens.push(Token::Number(digits.parse().expect("a number")));
        } else if c.is_alphabetic() || c == '_' {
            while at < chars.len() && (chars[at].is_alphanumeric() || chars[at] == '_') {
                at += 1;
            }
            tokens.push(Token::Word(chars[start..at].iter().collect()));
        } else {
            at += 1;
            tokens.push(Token::Mark(c));
        }
    }
    tokens
}

#[derive(Debug, Clone)]
struct Field {
    output_name: Arc<str>,
    name: Arc<str>,
    parameters: EdgeParameters,
    directives: Vec<(String, EdgeParameters)>,
    body: Vec<Selection>,
}

#[derive(Debug, Clone)]
enum Selection {
    Field(Field),
    Coercion(Arc<str>, Vec<Selection>),
}

struct Parser {
    tokens: Vec<Token>,
    at: usize,
}

impl Parser {
    fn peek(&self) -> Option<&Token> {
        self.tokens.get(self.at)
    }

    fn take(&mut self) -> Token {
        let token = self.tokens[self.at].clone();
        self.at += 1;
        token
    }

    fn word(&mut self) -> String {
        match self.take() {
            Token::Word(word) => word,
            other => panic!("unexpected {other:?}"),
        }
    }

    fn skip(&mut self, mark: char) -> bool {
        let found = self.peek() == Some(&Token::Mark(mark));
        if found {
            self.at += 1;
        }
        found
    }

    fn parameters(&mut self) -> EdgeParameters {
        let mut contents = vec![];
        if self.skip('(') {
            while !self.skip(')') {
                let name = self.word();
                assert!(self.skip(':'));
                match self.take() {
                    Token::Number(number) => {
                        contents.push((Arc::from(name.as_str()), FieldValue::Int64(number)))
                    }
                    other => panic!("unexpected {other:?}"),
                }
            }
        }
        EdgeParameters { contents: Arc::new(contents) }
    }

    fn body(&mut self) -> Vec<Selection> {
        let mut selections = vec![];
        if self.skip('{') {
            while !self.skip('}') {
                if self.peek() == Some(&Token::Spread) {
                    self.at += 1;
                    assert_eq!(self.word(), "on");
                    let to = self.word();
                    let body = self.body();
                    selections.push(Selection::Coercion(Arc::from(to.as_str()), body));
                } else {
                    selections.push(Selection::Field(self.field()));
                }
            }
        }
        selections
    }

    fn field(&mut self) -> Field {
        let first = self.word();
        let (output_name, name) =
            if self.skip(':') { (first, self.word()) } else { (first.clone(), first) };
        let parameters = self.parameters();
        let mut directives = vec![];
        while self.skip('@') {
            let directive = self.word();
            let arguments = self.parameters();
            directives.push((directive, arguments));
        }
        let body = self.body();
        Field {
            output_name: Arc::from(output_name.as_str()),
            name: Arc::from(name.as_str()),
            parameters,
            directives,
            body,
        }
    }
}

fn parse(query: &str) -> Field {
    let mut parser = Parser { tokens: tokens(query), at: 0 };
    let mut selections = parser.body();
    assert_eq!(parser.at, parser.tokens.len(), "query failed to parse");
    assert_eq!(selections.len(), 1);
    match selections.pop() {
        Some(Selection::Field(field)) => field,
        other => panic!("unexpected {other:?}"),
    }
}

impl Field {
    fn directive(&self, name: &str) -> Option<&EdgeParameters> {
        self.directives.iter().find(|(found, _)| found == name).map(|(_, arguments)| arguments)
    }
}

/// The names of the outputs, in the order in which the interpreter gathers their values.
fn output_names(body: &[Selection], names: &mut Vec<Arc<str>>) {
    for selection in body {
        match selection {
            Selection::Coercion(_, body) => output_names(body, names),
            Selection::Field(field) => {
                if field.directive("output").is_some() {
                    names.push(field.output_name.clone());
                }
                output_names(&field.body, names);
            }
        }
    }
}

// ---------------------------------------------------------------------------
// The interpreter
// ---------------------------------------------------------------------------

type Contexts<E> = ContextIterator<'static, ErrorSlot<E>, i64>;
type Tracker<A> = Arc<ErrorTrackingAdapter<'static, A>>;

fn number_type() -> Arc<str> {
    Arc::from("Number")
}

fn neighbors_of<A: Adapter<'static, Vertex = i64> + 'static>(
    tracker: &Tracker<A>,
    contexts: Contexts<A::Error>,
    field: &Field,
) -> ContextOutcomeIterator<
    'static,
    ErrorSlot<A::Error>,
    i64,
    VertexIterator<'static, ErrorSlot<A::Error>, i64>,
> {
    tracker.resolve_neighbors(
        contexts,
        &number_type(),
        &field.name,
        &field.parameters,
        &ResolveEdgeInfo { eid: 1 },
    )
}

/// One context for each neighbor; with `optional`, one without a vertex where there is none.
fn expand<A: Adapter<'static, Vertex = i64> + 'static>(
    tracker: &Tracker<A>,
    contexts: Contexts<A::Error>,
    field: &Field,
    optional: bool,
) -> Contexts<A::Error> {
    let mut pairs = neighbors_of(tracker, contexts, field);
    let mut current: Option<(
        DataContext<i64>,
        VertexIterator<'static, ErrorSlot<A::Error>, i64>,
        bool,
    )> = None;
    VertexIterator::new(from_fn(move |slot: &mut ErrorSlot<A::Error>| loop {
        match current.take() {
            None => {
                let (context, neighbors) = pairs.next(slot)?;
                current = Some((context, neighbors, false));
            }
            Some((context, mut neighbors, any)) => match neighbors.next(slot) {
                Some(neighbor) => {
                    let expanded = DataContext {
                        active_vertex: Some(neighbor),
                        values: context.values.clone(),
                    };
                    current = Some((context, neighbors, true));
                    return Some(expanded);
                }
                None if optional && !any => {
                    return Some(DataContext { active_vertex: None, values: context.values })
                }
                None => {}
            },
        }
    }))
}

/// Each context itself, then its neighbors, their neighbors, and so on, `depth` levels down.
fn recurse<A: Adapter<'static, Vertex = i64> + 'static>(
    tracker: &Tracker<A>,
    contexts: Contexts<A::Error>,
    field: &Field,
    depth: i64,
) -> Contexts<A::Error> {
    let tracker = tracker.clone();
    let field = field.clone();
    let mut contexts = contexts;
    let mut levels: Vec<Contexts<A::Error>> = vec![];
    VertexIterator::new(from_fn(move |slot: &mut ErrorSlot<A::Error>| loop {
        let context = match levels.last_mut() {
            None => contexts.next(slot)?,
            Some(level) => match level.next(slot) {
                Some(context) => context,
                None => {
                    levels.pop();
                    continue;
                }
            },
        };
        if (levels.len() as i64) < depth {
            let alone = items(std::iter::once(context.clone()));
            levels.push(expand(&tracker, alone, &field, false));
        }
        return Some(context);
    }))
}

/// Each context with, for every output below the fold, the list of its values.
fn fold<A: Adapter<'static, Vertex = i64> + 'static>(
    tracker: &Tracker<A>,
    contexts: Contexts<A::Error>,
    field: &Field,
) -> Contexts<A::Error> {
    let tracker = tracker.clone();
    let field = field.clone();
    let mut names = vec![];
    output_names(&field.body, &mut names);
    let mut pairs = neighbors_of(&tracker, contexts, &field);
    VertexIterator::new(from_fn(move |slot: &mut ErrorSlot<A::Error>| {
        let (mut context, mut neighbors) = pairs.next(slot)?;
        let mut elements = vec![];
        while let Some(neighbor) = neighbors.next(slot) {
            elements.push(DataContext { active_vertex: Some(neighbor), values: vec![] });
        }
        let mut columns: Vec<Vec<FieldValue>> = names.iter().map(|_| vec![]).collect();
        let mut outcomes = select(&tracker, items(elements.into_iter()), &field.body);
        while let Some(element) = outcomes.next(slot) {
            for (column, value) in columns.iter_mut().zip(element.values) {
                column.push(value);
            }
        }
        context.values.extend(columns.into_iter().map(|column| FieldValue::List(Arc::new(column))));
        Some(context)
    }))
}

fn select<A: Adapter<'static, Vertex = i64> + 'static>(
    tracker: &Tracker<A>,
    contexts: Contexts<A::Error>,
    body: &[Selection],
) -> Contexts<A::Error> {
    let mut contexts = contexts;
    for selection in body {
        contexts = match selection {
            Selection::Coercion(to, body) => {
                let mut outcomes = tracker.resolve_coercion(
                    contexts,
                    &number_type(),
                    to,
                    &ResolveInfo { vid: 1 },
                );
                let coerced = VertexIterator::new(from_fn(
                    move |slot: &mut ErrorSlot<A::Error>| loop {
                        let (context, coerces) = outcomes.next(slot)?;
                        if coerces || context.active_vertex.is_none() {
                            return Some(context);
                        }
                    },
                ));
                select(tracker, coerced, body)
            }
            Selection::Field(field) if field.directive("output").is_some() => {
                let outcomes = tracker.resolve_property(
                    contexts,
                    &number_type(),
                    &field.name,
                    &ResolveInfo { vid: 1 },
                );
                mapped(outcomes, |(mut context, value): (DataContext<i64>, FieldValue)| {
                    context.values.push(value);
                    context
                })
            }
            Selection::Field(field) => {
                // The active vertex goes back to what it was once the edge's body is done.
                if field.directive("fold").is_some() {
                    fold(tracker, contexts, field)
                } else {
                    let below = match field.directive("recurse") {
                        Some(arguments) => {
                            recurse(tracker, contexts, field, parameter(arguments, "depth", 0))
                        }
                        None => {
                            let optional = field.directive("optional").is_some();
                            expand(tracker, contexts, field, optional)
                        }
                    };
                    select(tracker, below, &field.body)
                }
            }
        };
    }
    contexts
}

fn interpret<A: Adapter<'static, Vertex = i64> + 'static>(
    adapter: Arc<A>,
    query: &Field,
) -> Vec<Result<Row, ExecutionError<A::Error>>> {
    let tracker: Tracker<A> = Arc::new(ErrorTrackingAdapter::new(adapter));
    let vertices = tracker.resolve_starting_vertices(
        &query.name,
        &query.parameters,
        &ResolveInfo { vid: 1 },
    );
    let contexts = mapped(vertices, |vertex| DataContext {
        active_vertex: Some(vertex),
        values: vec![],
    });
    let mut names = vec![];
    output_names(&query.body, &mut names);
    let rows = mapped(select(&tracker, contexts, &query.body), move |context| {
        names.iter().cloned().zip(context.values).collect::<Row>()
    });
    let mut results = surface_errors(rows, new_error_slot());
    let mut collected = vec![];
    while let Some(result) = results.next() {
        collected.push(result);
    }
    assert!(results.next().is_none(), "the results went on after their end");
    collected
}

// ---------------------------------------------------------------------------
// Faults
// ---------------------------------------------------------------------------

/// Deliberately local-only.
#[derive(Debug)]
struct TestError {
    _local: Rc<()>,
}

impl TestError {
    fn new() -> Self {
        Self { _local: Rc::new(()) }
    }
}

#[derive(Debug, Clone, Copy, PartialEq, Eq)]
enum Fault {
    StartingVertices,
    Property,
    Neighbors,
    Coercion,
}

/// Wraps `NumbersAdapter` and injects an error after a configurable number of values.
struct FaultyAdapter {
    inner: NumbersAdapter,
    fault: Fault,
    remaining: Arc<AtomicUsize>,
    error_emitted: Arc<AtomicBool>,
}

impl FaultyAdapter {
    fn new(fault: Fault, fail_after: usize) -> Self {
        Self {
            inner: NumbersAdapter,
            fault,
            remaining: Arc::new(AtomicUsize::new(fail_after)),
            error_emitted: Arc::new(AtomicBool::new(false)),
        }
    }

    /// What becomes of a value at the place of the given fault.
    fn inject<T>(&self, fault: Fault) -> impl FnMut(T) -> Result<T, TestError> {
        let faulted = self.fault == fault;
        let remaining = self.remaining.clone();
        let error_emitted = self.error_emitted.clone();
        move |value| {
            if faulted && should_error(&remaining, &error_emitted) {
                Err(TestError::new())
            } else {
                Ok(value)
            }
        }
    }
}

fn should_error(remaining: &AtomicUsize, error_emitted: &AtomicBool) -> bool {
    let current = remaining.load(Ordering::SeqCst);
    if current == 0 {
        assert!(
            !error_emitted.swap(true, Ordering::SeqCst),
            "adapter was polled after its first error"
        );
        true
    } else {
        remaining.store(current - 1, Ordering::SeqCst);
        false
    }
}

/// `NumbersAdapter` is infallible, so its outcomes are `Result<_, Infallible>`.
fn unwrap_ok<T>(result: Result<T, Infallible>) -> T {
    match result {
        Ok(value) => value,
        Err(never) => match never {},
    }
}

impl<'a> Adapter<'a> for FaultyAdapter {
    type Vertex = i64;
    type Error = TestError;

    fn resolve_starting_vertices<S: 'a>(
        &self,
        edge_name: &Arc<str>,
        parameters: &EdgeParameters,
        resolve_info: &ResolveInfo,
    ) -> VertexIterator<'a, S, Result<i64, TestError>> {
        let inner: VertexIterator<'a, S, Result<i64, Infallible>> =
            self.inner.resolve_starting_vertices(edge_name, parameters, resolve_info);
        let mut inject = self.inject(Fault::StartingVertices);
        mapped(inner, move |vertex| inject(unwrap_ok(vertex)))
    }

    fn resolve_property<S: 'a, V: AsVertex<i64> + 'a>(
        &self,
        contexts: ContextIterator<'a, S, V>,
        vertex_type: &Arc<str>,
        property_name: &Arc<str>,
        resolve_info: &ResolveInfo,
    ) -> ContextOutcomeIterator<'a, S, V, Result<FieldValue, TestError>> {
        let inner = self.inner.resolve_property(contexts, vertex_type, property_name, resolve_info);
        let mut inject = self.inject(Fault::Property);
        mapped(inner, move |(context, value)| (context, inject(unwrap_ok(value))))
    }

    fn resolve_neighbors<S: 'a, V: AsVertex<i64> + 'a>(
        &self,
        contexts: ContextIterator<'a, S, V>,
        vertex_type: &Arc<str>,
        edge_name: &Arc<str>,
        parameters: &EdgeParameters,
        resolve_info: &ResolveEdgeInfo,
    ) -> ContextOutcomeIterator<'a, S, V, NeighborResolution<'a, S, i64, TestError>> {
        let inner = self.inner.resolve_neighbors(
            contexts,
            vertex_type,
            edge_name,
            parameters,
            resolve_info,
        );
        let faulted = self.fault == Fault::Neighbors;
        let remaining = self.remaining.clone();
        let error_emitted = self.error_emitted.clone();
        mapped(inner, move |(context, resolution)| {
            let remaining = remaining.clone();
            let error_emitted = error_emitted.clone();
            let neighbors = mapped(unwrap_ok(resolution), move |neighbor| {
                let neighbor = unwrap_ok(neighbor);
                if faulted && should_error(&remaining, &error_emitted) {
                    Err(TestError::new())
                } else {
                    Ok(neighbor)
                }
            });
            (context, Ok(neighbors))
        })
    }

    fn resolve_coercion<S: 'a, V: AsVertex<i64> + 'a>(
        &self,
        contexts: ContextIterator<'a, S, V>,
        vertex_type: &Arc<str>,
        coerce_to_type: &Arc<str>,
        resolve_info: &ResolveInfo,
    ) -> ContextOutcomeIterator<'a, S, V, Result<bool, TestError>> {
        let inner =
            self.inner.resolve_coercion(contexts, vertex_type, coerce_to_type, resolve_info);
        let mut inject = self.inject(Fault::Coercion);
        mapped(inner, move |(context, value)| (context, inject(unwrap_ok(value))))
    }
}

fn run(
    fault: Fault,
    fail_after: usize,
    query: &str,
) -> Vec<Result<Row, ExecutionError<TestError>>> {
    interpret(Arc::new(FaultyAdapter::new(fault, fail_after)), &parse(query))
}

/// Baseline row count for a query run against a never-erroring adapter.
fn baseline_row_count(query: &str) -> usize {
    let results = run(Fault::Property, usize::MAX, query);
    assert!(results.iter().all(Result::is_ok), "baseline run unexpectedly errored");
    results.len()
}

fn assert_fail_fast_exact(results: &[Result<Row, ExecutionError<TestError>>], expected_ok: usize) {
    assert_eq!(
        results.len(),
        expected_ok + 1,
        "expected {expected_ok} Ok rows then exactly one Err; got {} items",
        results.len()
    );
    for (i, r) in results.iter().take(expected_ok).enumerate() {
        assert!(r.is_ok(), "result {i} should be Ok, was {r:?}");
    }
    assert!(
        matches!(results[expected_ok], Err(ExecutionError::Adapter(TestError { .. }))),
        "final item should be the injected adapter error, was {:?}",
        results[expected_ok],
    );
}

fn assert_fail_fast_terminal(results: &[Result<Row, ExecutionError<TestError>>]) {
    assert!(!results.is_empty(), "expected at least the terminal error");
    let (last, rest) = results.split_last().unwrap();
    assert!(
        matches!(last, Err(ExecutionError::Adapter(TestError { .. }))),
        "last item should be the injected adapter error, was {last:?}"
    );
    for (i, r) in rest.iter().enumerate() {
        assert!(r.is_ok(), "item {i} before the error should be Ok, was {r:?}");
    }
}

const FLAT: &str = r#"{ Number(min: 0, max: 50) { value @output } }"#;
const SUCCESSOR: &str = r#"{ Number(min: 0, max: 50) { successor { value @output } } }"#;

#[test]
fn error_in_resolve_starting_vertices_is_fail_fast() {
    assert!(baseline_row_count(FLAT) > 5);
    let results = run(Fault::StartingVertices, 5, FLAT);
    assert_fail_fast_exact(&results, 5);
}

#[test]
fn error_in_resolve_property_is_fail_fast() {
    assert!(baseline_row_count(FLAT) > 3);
    let results = run(Fault::Property, 3, FLAT);
    assert_fail_fast_exact(&results, 3);
}

#[test]
fn error_in_resolve_neighbors_is_fail_fast() {
    assert!(baseline_row_count(SUCCESSOR) > 4);
    let results = run(Fault::Neighbors, 4, SUCCESSOR);
    assert_fail_fast_exact(&results, 4);
}

#[test]
fn error_after_zero_rows_yields_only_the_error() {
    let results = run(Fault::StartingVertices, 0, FLAT);
    assert_fail_fast_exact(&results, 0);
}

#[test]
fn no_error_when_budget_exceeds_work() {
    let total = baseline_row_count(FLAT);
    let results = run(Fault::Property, total + 10, FLAT);
    assert_eq!(results.len(), total);
    assert!(results.iter().all(Result::is_ok));
}

#[test]
fn error_in_coercion_is_fail_fast() {
    let query = r#"{ Number(min: 0, max: 50) { successor { ... on Prime { value @output } } } }"#;
    let results = run(Fault::Coercion, 4, query);
    assert_fail_fast_terminal(&results);
}

#[test]
fn error_inside_fold_terminates() {
    let query = r#"{
        Number(min: 1, max: 50) {
            value @output
            multiple(max: 30) @fold {
                factor: value @output
            }
        }
    }"#;
    let results = run(Fault::Neighbors, 5, query);
    assert_fail_fast_terminal(&results);
}

#[test]
fn scalar_error_inside_materialized_fold_stops_adapter_polls() {
    let query = r#"{
        Number(min: 1, max: 50) {
            multiple(max: 30) @fold {
                factor: value @output
            }
        }
    }"#;
    let results = run(Fault::Property, 5, query);
    assert_fail_fast_terminal(&results);
}

#[test]
fn error_inside_recurse_terminates() {
    let query = r#"{
        Number(min: 0, max: 10) {
            value @output
            successor @recurse(depth: 3) {
                succ: value @output
            }
        }
    }"#;
    let results = run(Fault::Neighbors, 5, query);
    assert_fail_fast_terminal(&results);
}

#[test]
fn error_inside_optional_terminates() {
    let query = r#"{
        Number(min: 0, max: 50) {
            value @output
            predecessor @optional {
                pred: value @output
            }
        }
    }"#;
    let results = run(Fault::Neighbors, 5, query);
    assert_fail_fast_terminal(&results);
}

/// Injects a context-level neighbor-resolution error.
struct ContextFaultyAdapter {
    inner: NumbersAdapter,
    remaining: Arc<AtomicUsize>,
    error_emitted: Arc<AtomicBool>,
    code: u32,
}

impl ContextFaultyAdapter {
    fn new(fail_after: usize, code: u32) -> Self {
        Self {
            inner: NumbersAdapter,
            remaining: Arc::new(AtomicUsize::new(fail_after)),
            error_emitted: Arc::new(AtomicBool::new(false)),
            code,
        }
    }
}

#[derive(Debug, PartialEq, Eq)]
struct CodedError(u32);

impl<'a> Adapter<'a> for ContextFaultyAdapter {
    type Vertex = i64;
    type Error = CodedError;

    fn resolve_starting_vertices<S: 'a>(
        &self,
        edge_name: &Arc<str>,
        parameters: &EdgeParameters,
        resolve_info: &ResolveInfo,
    ) -> VertexIterator<'a, S, Result<i64, CodedError>> {
        mapped(
            self.inner.resolve_starting_vertices(edge_name, parameters, resolve_info),
            |vertex| Ok(unwrap_ok(vertex)),
        )
    }

    fn resolve_property<S: 'a, V: AsVertex<i64> + 'a>(
        &self,
        contexts: ContextIterator<'a, S, V>,
        vertex_type: &Arc<str>,
        property_name: &Arc<str>,
        resolve_info: &ResolveInfo,
    ) -> ContextOutcomeIterator<'a, S, V, Result<FieldValue, CodedError>> {
        mapped(
            self.inner.resolve_property(contexts, vertex_type, property_name, resolve_info),
            |(context, value)| (context, Ok(unwrap_ok(value))),
        )
    }

    fn resolve_neighbors<S: 'a, V: AsVertex<i64> + 'a>(
        &self,
        contexts: ContextIterator<'a, S, V>,
        vertex_type: &Arc<str>,
        edge_name: &Arc<str>,
        parameters: &EdgeParameters,
        resolve_info: &ResolveEdgeInfo,
    ) -> ContextOutcomeIterator<'a, S, V, NeighborResolution<'a, S, i64, CodedError>> {
        let remaining = self.remaining.clone();
        let error_emitted = self.error_emitted.clone();
        let code = self.code;
        let inner = self.inner.resolve_neighbors(
            contexts,
            vertex_type,
            edge_name,
            parameters,
            resolve_info,
        );
        mapped(inner, move |(context, resolution)| {
            if should_error(&remaining, &error_emitted) {
                (context, Err(CodedError(code)))
            } else {
                let neighbors = mapped(unwrap_ok(resolution), |vertex| Ok(unwrap_ok(vertex)));
                (context, Ok(neighbors))
            }
        })
    }

    fn resolve_coercion<S: 'a, V: AsVertex<i64> + 'a>(
        &self,
        contexts: ContextIterator<'a, S, V>,
        vertex_type: &Arc<str>,
        coerce_to_type: &Arc<str>,
        resolve_info: &ResolveInfo,
    ) -> ContextOutcomeIterator<'a, S, V, Result<bool, CodedError>> {
        mapped(
            self.inner.resolve_coercion(contexts, vertex_type, coerce_to_type, resolve_info),
            |(context, value)| (context, Ok(unwrap_ok(value))),
        )
    }
}

fn run_context_fault(
    fail_after: usize,
    code: u32,
    query: &str,
) -> Vec<Result<Row, ExecutionError<CodedError>>> {
    interpret(Arc::new(ContextFaultyAdapter::new(fail_after, code)), &parse(query))
}

#[test]
fn context_level_neighbor_failure_is_fail_fast_and_identifiable() {
    let results = run_context_fault(3, 4242, SUCCESSOR);
    assert!(!results.is_empty());
    let (last, rest) = results.split_last().unwrap();
    for (i, r) in rest.iter().enumerate() {
        assert!(r.is_ok(), "item {i} before the error should be Ok, was {r:?}");
    }
    match last {
        Err(ExecutionError::Adapter(error)) => assert_eq!(error.0, 4242),
        other => panic!("expected the injected context-level error, got {other:?}"),
    }
}

#[test]
fn context_level_neighbor_failure_at_zero_budget() {
    let results = run_context_fault(0, 7, SUCCESSOR);
    assert_eq!(results.len(), 1);
    assert!(matches!(&results[0], Err(ExecutionError::Adapter(e)) if e.0 == 7));
}

#[test]
fn rows_of_an_infallible_adapter_need_no_unwrapping() {
    let query = parse(r#"{ Number(min: 3, max: 5) { value @output } }"#);
    let rows: Vec<Row> = interpret(Arc::new(NumbersAdapter), &query)
        .into_iter()
        .map(IntoRow::into_row)
        .collect();
    let values: Vec<&FieldValue> = rows.iter().map(|row| &row["value"]).collect();
    assert_eq!(
        values,
        vec![&FieldValue::Int64(3), &FieldValue::Int64(4), &FieldValue::Int64(5)]
    );
}
