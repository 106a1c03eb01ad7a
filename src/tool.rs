//! Tool calls: the functions a model may call, their parameter schemas, and
//! the calls it makes.
use vstd::prelude::*;

use crate::content::opt_text;
use crate::error::Error;

verus! {

/// The JSON type of a parameter.
#[allow(non_camel_case_types)]
#[derive(Debug, Clone, Copy, PartialEq, Eq, Structural)]
pub enum ParameterType {
    string,
    number,
    integer,
    boolean,
    array,
    object,
}

/// The schema of one parameter.
#[derive(Debug, Clone)]
pub struct ParameterProperty {
    pub typ: Option<ParameterType>,
    pub description: String,
    /// Item schema entries, keys unique, in order of insertion.
    pub items: Option<Vec<(String, String)>>,
}

/// The parameters of a function: an object schema.
#[derive(Debug, Clone)]
pub struct Parameters {
    pub typ: String,
    /// Property schemas by name, names unique, in order of insertion.
    pub properties: Vec<(String, ParameterProperty)>,
    pub required: Vec<String>,
}

/// A function offered to the model, or the function part of a call the model
/// makes (then `name` and `arguments` arrive in fragments).
#[derive(Debug, Clone)]
pub struct Function {
    pub name: Option<String>,
    pub description: Option<String>,
    pub parameters: Option<Parameters>,
    pub arguments: Option<String>,
}

/// A tool: a function, with an identifier and a type tag.
#[derive(Debug, Clone)]
pub struct ToolCall {
    pub id: Option<String>,
    pub typ: Option<String>,
    pub function: Function,
}

/// A function as a value.
pub struct FunctionView {
    pub name: Option<Seq<char>>,
    pub description: Option<Seq<char>>,
    pub parameters: Option<Parameters>,
    pub arguments: Option<Seq<char>>,
}

/// A tool call as a value.
pub struct ToolCallView {
    pub id: Option<Seq<char>>,
    pub typ: Option<Seq<char>>,
    pub function: FunctionView,
}

impl View for Function {
    type V = FunctionView;

    open spec fn view(&self) -> FunctionView {
        FunctionView {
            name: opt_text(self.name),
            description: opt_text(self.description),
            parameters: self.parameters,
            arguments: opt_text(self.arguments),
        }
    }
}

impl View for ToolCall {
    type V = ToolCallView;

    open spec fn view(&self) -> ToolCallView {
        ToolCallView { id: opt_text(self.id), typ: opt_text(self.typ), function: self.function@ }
    }
}

/// The values of a sequence of tool calls.
pub open spec fn tool_calls_view(ts: Seq<ToolCall>) -> Seq<ToolCallView> {
    ts.map_values(|t: ToolCall| t@)
}

/// Folding a later fragment `g` of a function call into `f`: a non-empty
/// name replaces the held one; argument text is appended to the held text,
/// or taken as it is when none is held.
pub open spec fn merge_function(f: FunctionView, g: FunctionView) -> FunctionView {
    FunctionView {
        name: match g.name {
            Some(n) => if n.len() > 0 {
                Some(n)
            } else {
                f.name
            },
            None => f.name,
        },
        arguments: match (f.arguments, g.arguments) {
            (Some(a), Some(b)) => Some(a + b),
            (None, Some(b)) => Some(b),
            (a, None) => a,
        },
        ..f
    }
}

/// Folding a later fragment of a tool call into the held one.
pub open spec fn merge_tool_call(t: ToolCallView, u: ToolCallView) -> ToolCallView {
    ToolCallView { function: merge_function(t.function, u.function), ..t }
}

/// Folding a list of tool-call fragments into the held list: an empty list
/// takes the fragments as they are; otherwise fragments pair with held calls
/// by position, and fragments past the end of the held list are dropped.
pub open spec fn merge_tool_calls(held: Seq<ToolCallView>, frags: Seq<ToolCallView>) -> Seq<
    ToolCallView,
> {
    if held.len() == 0 {
        frags
    } else {
        Seq::new(
            held.len(),
            |i: int|
                if i < frags.len() {
                    merge_tool_call(held[i], frags[i])
                } else {
                    held[i]
                },
        )
    }
}

impl Function {
    /// Folds a later fragment of this function call into it.
    pub fn absorb(&mut self, frag: Function)
        ensures
            final(self)@ == merge_function(old(self)@, frag@),
    {
        if let Some(name) = frag.name {
            if !name.as_str().is_empty() {
                self.name = Some(name);
            }
        }
        let held = self.arguments.take();
        self.arguments = match (held, frag.arguments) {
            (Some(mut a), Some(b)) => {
                a.append(b.as_str());
                Some(a)
            },
            (None, Some(b)) => Some(b),
            (a, None) => a,
        };
    }
}

impl ToolCall {
    /// Folds a later fragment of this tool call into it.
    pub fn absorb(&mut self, frag: ToolCall)
        ensures
            final(self)@ == merge_tool_call(old(self)@, frag@),
    {
        self.function.absorb(frag.function);
    }
}

/// Folds tool-call fragments into the held list, by position.
pub fn merge_tool_call_list(held: &mut Vec<ToolCall>, frags: Vec<ToolCall>)
    ensures
        tool_calls_view(final(held)@) == merge_tool_calls(tool_calls_view(old(held)@), tool_calls_view(frags@)),
{
    if held.len() == 0 {
        *held = frags;
        return;
    }
    let ghost h0 = tool_calls_view(held@);
    let ghost fv = tool_calls_view(frags@);
    let n = held.len();
    let m = frags.len();
    let mut i: usize = 0;
    for frag in it: frags.into_iter()
        invariant
            n == held@.len(),
            n > 0,
            h0.len() == n,
            it.seq() == frags@,
            fv == tool_calls_view(frags@),
            m == fv.len(),
            i == it.index(),
            i <= m,
            forall|k: int|
                0 <= k < n ==> #[trigger] held@[k]@ == (if k < i && k < fv.len() {
                    merge_tool_call(h0[k], fv[k])
                } else {
                    h0[k]
                }),
    {
        if i < n {
            held[i].absorb(frag);
        }
        i = i + 1;
    }
    assert(tool_calls_view(held@) =~= merge_tool_calls(h0, fv));
}

/// The values of keyed entries: each key by its text.
pub open spec fn entries_view<V>(es: Seq<(String, V)>) -> Seq<(Seq<char>, V)> {
    es.map_values(|e: (String, V)| (e.0@, e.1))
}

/// The position of the first entry with key `key`, if any.
pub open spec fn key_position<V>(es: Seq<(Seq<char>, V)>, key: Seq<char>) -> Option<int>
    decreases es.len(),
{
    if es.len() == 0 {
        None
    } else {
        match key_position(es.drop_last(), key) {
            Some(k) => Some(k),
            None => if es.last().0 == key {
                Some(es.len() - 1)
            } else {
                None
            },
        }
    }
}

/// Setting `key` to `value` in keyed entries: an entry with that key has its
/// value replaced in place; otherwise the entry is appended.
pub open spec fn upsert<V>(es: Seq<(Seq<char>, V)>, key: Seq<char>, value: V) -> Seq<(Seq<char>, V)> {
    match key_position(es, key) {
        Some(k) => es.update(k, (key, value)),
        None => es.push((key, value)),
    }
}

/// Whether no two entries share a key.
pub open spec fn keys_unique<V>(es: Seq<(Seq<char>, V)>) -> bool {
    forall|i: int, j: int| 0 <= i < j < es.len() ==> es[i].0 != es[j].0
}

proof fn lemma_key_position<V>(es: Seq<(Seq<char>, V)>, key: Seq<char>)
    ensures
        match key_position(es, key) {
            Some(k) => 0 <= k < es.len() && es[k].0 == key,
            None => forall|i: int| 0 <= i < es.len() ==> es[i].0 != key,
        },
    decreases es.len(),
{
    if es.len() > 0 {
        lemma_key_position(es.drop_last(), key);
        assert forall|i: int| 0 <= i < es.len() - 1 implies es[i] == es.drop_last()[i] by {}
    }
}

/// Setting a key keeps keys unique.
pub proof fn lemma_upsert_keeps_keys_unique<V>(es: Seq<(Seq<char>, V)>, key: Seq<char>, value: V)
    requires
        keys_unique(es),
    ensures
        keys_unique(upsert(es, key, value)),
        key_position(upsert(es, key, value), key) is Some,
{
    lemma_key_position(es, key);
    let u = upsert(es, key, value);
    lemma_key_position(u, key);
    match key_position(es, key) {
        Some(k) => assert(u[k].0 == key),
        None => assert(u[es.len() as int].0 == key),
    }
}

/// The position of the first entry with key `key`, if any.
fn find_key<V>(es: &Vec<(String, V)>, key: &String) -> (r: Option<usize>)
    ensures
        match r {
            Some(k) => k < es@.len() && key_position(entries_view(es@), key@) == Some(k as int),
            None => key_position(entries_view(es@), key@) is None,
        },
{
    let ghost ev = entries_view(es@);
    let mut k: usize = 0;
    while k < es.len()
        invariant
            k <= es@.len(),
            ev == entries_view(es@),
            key_position(ev.take(k as int), key@) is None,
        decreases es@.len() - k,
    {
        assert(ev.take(k as int + 1).drop_last() =~= ev.take(k as int));
        if es[k].0 == *key {
            assert(key_position(ev.take(k as int + 1), key@) == Some(k as int));
            proof {
                lemma_key_position_prefix(ev, k as int + 1, key@);
            }
            return Some(k);
        }
        k = k + 1;
    }
    assert(ev.take(k as int) =~= ev);
    None
}

/// Sets `key` to `value` in keyed entries.
fn upsert_entry<V>(es: &mut Vec<(String, V)>, key: String, value: V)
    ensures
        entries_view(final(es)@) == upsert(entries_view(old(es)@), key@, value),
{
    let ghost ev = entries_view(es@);
    match find_key(es, &key) {
        Some(k) => {
            es.set(k, (key, value));
        },
        None => {
            es.push((key, value));
        },
    }
    assert(entries_view(es@) =~= upsert(ev, key@, value));
}

proof fn lemma_key_position_prefix<V>(es: Seq<(Seq<char>, V)>, n: int, key: Seq<char>)
    requires
        0 <= n <= es.len(),
        key_position(es.take(n), key) is Some,
    ensures
        key_position(es, key) == key_position(es.take(n), key),
    decreases es.len() - n,
{
    if n < es.len() {
        assert(es.take(n + 1).drop_last() =~= es.take(n));
        lemma_key_position_prefix(es, n + 1, key);
    } else {
        assert(es.take(n) =~= es);
    }
}

/// The tool a function becomes: no identifier, type tag `function`.
pub open spec fn tool_of(f: FunctionView) -> ToolCallView {
    ToolCallView { id: None, typ: Some("function"@), function: f }
}

impl ToolCall {
    /// The tool a function becomes: no identifier, type tag `function`.
    pub fn from_function(f: Function) -> (r: Self)
        ensures
            r@ == tool_of(f@),
    {
        ToolCall { id: None, typ: Some("function".to_owned()), function: f }
    }

    /// A builder with type tag `function` and nothing else set.
    pub fn builder() -> (r: ToolCallBuilder)
        ensures
            r@ == (ToolCallBuilderView { id: None, typ: Some("function"@), function: None }),
    {
        ToolCallBuilder::default()
    }
}

/// Builds a tool call.
#[derive(Debug, Clone)]
pub struct ToolCallBuilder {
    pub id: Option<String>,
    typ: Option<String>,
    function: Option<Function>,
}

/// A tool-call builder as a value.
pub struct ToolCallBuilderView {
    pub id: Option<Seq<char>>,
    pub typ: Option<Seq<char>>,
    pub function: Option<FunctionView>,
}

/// The value of an optional function.
pub open spec fn opt_function(f: Option<Function>) -> Option<FunctionView> {
    match f {
        Some(f) => Some(f@),
        None => None,
    }
}

impl View for ToolCallBuilder {
    type V = ToolCallBuilderView;

    closed spec fn view(&self) -> ToolCallBuilderView {
        ToolCallBuilderView {
            id: opt_text(self.id),
            typ: opt_text(self.typ),
            function: opt_function(self.function),
        }
    }
}

impl Default for ToolCallBuilder {
    fn default() -> (r: Self)
        ensures
            r@ == (ToolCallBuilderView { id: None, typ: Some("function"@), function: None }),
    {
        ToolCallBuilder { id: None, typ: Some("function".to_owned()), function: None }
    }
}

impl ToolCallBuilder {
    /// Sets the function.
    pub fn with_function(self, function: Function) -> (r: Self)
        ensures
            r@ == (ToolCallBuilderView { function: Some(function@), ..self@ }),
    {
        ToolCallBuilder { function: Some(function), ..self }
    }

    /// The tool call; it needs a type tag and a function.
    pub fn build(self) -> (r: Result<ToolCall, Error>)
        ensures
            r is Ok <==> self@.typ is Some && self@.function is Some,
            match r {
                Ok(t) => t@ == ToolCallView {
                    id: self@.id,
                    typ: self@.typ,
                    function: self@.function.unwrap(),
                },
                Err(e) => e == Error::ToolCallBuild,
            },
    {
        let ToolCallBuilder { id, typ, function } = self;
        match (typ, function) {
            (Some(typ), Some(function)) => Ok(ToolCall { id, typ: Some(typ), function }),
            _ => Err(Error::ToolCallBuild),
        }
    }
}

/// Builds a function description.
#[derive(Debug, Clone)]
pub struct FunctionBuilder {
    pub name: Option<String>,
    pub description: Option<String>,
    pub parameters: Option<Parameters>,
    pub arguments: Option<String>,
}

impl View for FunctionBuilder {
    type V = FunctionView;

    open spec fn view(&self) -> FunctionView {
        FunctionView {
            name: opt_text(self.name),
            description: opt_text(self.description),
            parameters: self.parameters,
            arguments: opt_text(self.arguments),
        }
    }
}

/// A function with nothing set.
pub open spec fn empty_function() -> FunctionView {
    FunctionView { name: None, description: None, parameters: None, arguments: None }
}

impl Default for FunctionBuilder {
    fn default() -> (r: Self)
        ensures
            r@ == empty_function(),
    {
        FunctionBuilder { name: None, description: None, parameters: None, arguments: None }
    }
}

impl Function {
    /// A builder with nothing set.
    pub fn builder() -> (r: FunctionBuilder)
        ensures
            r@ == empty_function(),
    {
        FunctionBuilder::default()
    }
}

impl FunctionBuilder {
    /// Sets the name.
    pub fn with_name(self, name: &str) -> (r: Self)
        ensures
            r@ == (FunctionView { name: Some(name@), ..self@ }),
    {
        FunctionBuilder { name: Some(name.to_owned()), ..self }
    }

    /// Sets the description.
    pub fn with_description(self, description: &str) -> (r: Self)
        ensures
            r@ == (FunctionView { description: Some(description@), ..self@ }),
    {
        FunctionBuilder { description: Some(description.to_owned()), ..self }
    }

    /// Sets the parameter schema.
    pub fn with_parameters(self, parameters: Parameters) -> (r: Self)
        ensures
            r@ == (FunctionView { parameters: Some(parameters), ..self@ }),
    {
        FunctionBuilder { parameters: Some(parameters), ..self }
    }

    /// The function; it needs a name.
    pub fn build(self) -> (r: Result<Function, Error>)
        ensures
            r is Ok <==> self@.name is Some,
            match r {
                Ok(f) => f@ == self@,
                Err(e) => e == Error::ToolCallFunctionBuild,
            },
    {
        let FunctionBuilder { name, description, parameters, arguments } = self;
        match name {
            Some(name) => Ok(Function { name: Some(name), description, parameters, arguments }),
            None => Err(Error::ToolCallFunctionBuild),
        }
    }
}

/// Builds an object schema for function parameters.
#[derive(Debug, Clone)]
pub struct ParametersBuilder {
    typ: Option<String>,
    properties: Vec<(String, ParameterProperty)>,
    required: Vec<String>,
}

/// A parameters builder as a value.
pub struct ParametersBuilderView {
    pub typ: Option<Seq<char>>,
    pub properties: Seq<(Seq<char>, ParameterProperty)>,
    pub required: Seq<Seq<char>>,
}

/// The values of a sequence of texts.
pub open spec fn names_view(ts: Seq<String>) -> Seq<Seq<char>> {
    ts.map_values(|t: String| t@)
}

impl View for ParametersBuilder {
    type V = ParametersBuilderView;

    closed spec fn view(&self) -> ParametersBuilderView {
        ParametersBuilderView {
            typ: opt_text(self.typ),
            properties: entries_view(self.properties@),
            required: names_view(self.required@),
        }
    }
}

/// An object schema with no properties.
pub open spec fn empty_parameters() -> ParametersBuilderView {
    ParametersBuilderView { typ: Some("object"@), properties: Seq::empty(), required: Seq::empty() }
}

impl Default for ParametersBuilder {
    fn default() -> (r: Self)
        ensures
            r@ == empty_parameters(),
    {
        let r = ParametersBuilder { typ: Some("object".to_owned()), properties: Vec::new(), required: Vec::new() };
        assert(entries_view(r.properties@) =~= Seq::<(Seq<char>, ParameterProperty)>::empty());
        assert(names_view(r.required@) =~= Seq::<Seq<char>>::empty());
        r
    }
}

impl Parameters {
    /// A builder for an object schema with no properties.
    pub fn builder() -> (r: ParametersBuilder)
        ensures
            r@ == empty_parameters(),
    {
        ParametersBuilder::default()
    }
}

impl ParametersBuilder {
    /// Sets the schema of property `name`, replacing an earlier one of that
    /// name.
    pub fn add_property(self, name: &str, property: ParameterProperty) -> (r: Self)
        ensures
            r@ == (ParametersBuilderView { properties: upsert(self@.properties, name@, property), ..self@ }),
            keys_unique(self@.properties) ==> keys_unique(r@.properties),
    {
        let ParametersBuilder { typ, mut properties, required } = self;
        upsert_entry(&mut properties, name.to_owned(), property);
        proof {
            if keys_unique(self@.properties) {
                lemma_upsert_keeps_keys_unique(self@.properties, name@, property);
            }
        }
        ParametersBuilder { typ, properties, required }
    }

    /// Marks property `name` as required.
    pub fn add_required(self, name: &str) -> (r: Self)
        ensures
            r@ == (ParametersBuilderView { required: self@.required.push(name@), ..self@ }),
    {
        let ParametersBuilder { typ, properties, mut required } = self;
        let ghost before = required@;
        required.push(name.to_owned());
        assert(names_view(required@) =~= names_view(before).push(name@));
        ParametersBuilder { typ, properties, required }
    }

    /// The schema; it needs a type tag.
    pub fn build(self) -> (r: Result<Parameters, Error>)
        ensures
            r is Ok <==> self@.typ is Some,
            match r {
                Ok(p) => Some(p.typ@) == self@.typ && entries_view(p.properties@) == self@.properties
                    && names_view(p.required@) == self@.required,
                Err(e) => e == Error::ToolCallParametersBuild,
            },
    {
        let ParametersBuilder { typ, properties, required } = self;
        match typ {
            Some(typ) => Ok(Parameters { typ, properties, required }),
            None => Err(Error::ToolCallParametersBuild),
        }
    }
}

/// Builds the schema of one parameter.
#[derive(Debug, Clone)]
pub struct ParameterPropertyBuilder {
    typ: Option<ParameterType>,
    description: Option<String>,
    items: Option<Vec<(String, String)>>,
}

/// A parameter schema builder as a value.
pub struct ParameterPropertyBuilderView {
    pub typ: Option<ParameterType>,
    pub description: Option<Seq<char>>,
    pub items: Option<Seq<(Seq<char>, Seq<char>)>>,
}

/// The value of optional item entries.
pub open spec fn opt_items(items: Option<Vec<(String, String)>>) -> Option<Seq<(Seq<char>, Seq<char>)>> {
    match items {
        Some(es) => Some(es@.map_values(|e: (String, String)| (e.0@, e.1@))),
        None => None,
    }
}

impl View for ParameterPropertyBuilder {
    type V = ParameterPropertyBuilderView;

    closed spec fn view(&self) -> ParameterPropertyBuilderView {
        ParameterPropertyBuilderView {
            typ: self.typ,
            description: opt_text(self.description),
            items: opt_items(self.items),
        }
    }
}

/// A parameter schema with nothing set.
pub open spec fn empty_property() -> ParameterPropertyBuilderView {
    ParameterPropertyBuilderView { typ: None, description: None, items: None }
}

impl Default for ParameterPropertyBuilder {
    fn default() -> (r: Self)
        ensures
            r@ == empty_property(),
    {
        ParameterPropertyBuilder { typ: None, description: None, items: None }
    }
}

impl ParameterProperty {
    /// A builder with nothing set.
    pub fn builder() -> (r: ParameterPropertyBuilder)
        ensures
            r@ == empty_property(),
    {
        ParameterPropertyBuilder::default()
    }
}

/// Item entries with texts for values, as keyed entries.
pub open spec fn text_entries(es: Seq<(String, String)>) -> Seq<(Seq<char>, Seq<char>)> {
    es.map_values(|e: (String, String)| (e.0@, e.1@))
}

/// Sets `key` to `value` in item entries.
fn upsert_item(es: &mut Vec<(String, String)>, key: String, value: String)
    ensures
        text_entries(final(es)@) == upsert(text_entries(old(es)@), key@, value@),
{
    let ghost ev = text_entries(es@);
    let ghost v = value@;
    assert(text_entries(es@) =~= entries_view(es@).map_values(|e: (Seq<char>, String)| (e.0, e.1@)));
    match find_key(es, &key) {
        Some(k) => {
            proof {
                lemma_key_position_map(entries_view(es@), key@);
            }
            es.set(k, (key, value));
        },
        None => {
            proof {
                lemma_key_position_map(entries_view(es@), key@);
            }
            es.push((key, value));
        },
    }
    assert(text_entries(es@) =~= upsert(ev, key@, v));
}

/// Reading the values of keyed entries as texts keeps key positions.
proof fn lemma_key_position_map(es: Seq<(Seq<char>, String)>, key: Seq<char>)
    ensures
        key_position(es.map_values(|e: (Seq<char>, String)| (e.0, e.1@)), key) == key_position(es, key),
    decreases es.len(),
{
    if es.len() > 0 {
        lemma_key_position_map(es.drop_last(), key);
        assert(es.map_values(|e: (Seq<char>, String)| (e.0, e.1@)).drop_last() =~= es.drop_last().map_values(
            |e: (Seq<char>, String)| (e.0, e.1@),
        ));
    }
}

impl ParameterPropertyBuilder {
    /// Sets the type.
    pub fn with_type(self, typ: ParameterType) -> (r: Self)
        ensures
            r@ == (ParameterPropertyBuilderView { typ: Some(typ), ..self@ }),
    {
        ParameterPropertyBuilder { typ: Some(typ), ..self }
    }

    /// Sets the description.
    pub fn with_description(self, description: &str) -> (r: Self)
        ensures
            r@ == (ParameterPropertyBuilderView { description: Some(description@), ..self@ }),
    {
        ParameterPropertyBuilder { description: Some(description.to_owned()), ..self }
    }

    /// Sets item entry `key` to `value`, replacing an earlier one of that key.
    pub fn with_items(self, key: &str, value: &str) -> (r: Self)
        ensures
            r@ == (ParameterPropertyBuilderView {
                items: Some(
                    upsert(
                        match self@.items {
                            Some(es) => es,
                            None => Seq::empty(),
                        },
                        key@,
                        value@,
                    ),
                ),
                ..self@
            }),
            match (self@.items, r@.items) {
                (Some(before), Some(after)) => keys_unique(before) ==> keys_unique(after),
                _ => true,
            },
    {
        let ParameterPropertyBuilder { typ, description, items } = self;
        let mut es = match items {
            Some(es) => es,
            None => Vec::new(),
        };
        proof {
            assert(text_entries(es@) == match self@.items {
                Some(es) => es,
                None => Seq::empty(),
            }) by {
                if self@.items is None {
                    assert(text_entries(es@) =~= Seq::<(Seq<char>, Seq<char>)>::empty());
                }
            }
        }
        upsert_item(&mut es, key.to_owned(), value.to_owned());
        proof {
            if let Some(before) = self@.items {
                if keys_unique(before) {
                    lemma_upsert_keeps_keys_unique(before, key@, value@);
                }
            }
        }
        ParameterPropertyBuilder { typ, description, items: Some(es) }
    }

    /// The schema; it needs a type and a description.
    pub fn build(self) -> (r: Result<ParameterProperty, Error>)
        ensures
            r is Ok <==> self@.typ is Some && self@.description is Some,
            match r {
                Ok(p) => p.typ == self@.typ && Some(p.description@) == self@.description
                    && opt_items(p.items) == self@.items,
                Err(e) => e == Error::ToolCallParametersBuild,
            },
    {
        let ParameterPropertyBuilder { typ, description, items } = self;
        match (typ, description) {
            (Some(typ), Some(description)) => Ok(ParameterProperty { typ: Some(typ), description, items }),
            _ => Err(Error::ToolCallParametersBuild),
        }
    }
}

} // verus!
