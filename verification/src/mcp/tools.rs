//! Tools that a model can call: their declarations, their handlers, and the
//! registry that answers a call by name.

use vstd::prelude::*;
use crate::json::{
    JsonModel, JsonValue, entry_models_of, lemma_entry_models_of, lemma_models_of, model_get, models_of,
};
use crate::strmap::StrMap;

verus! {

/// Whether a tool can run its handler.
pub enum HandlerState<H> {
    /// The handler is there.
    Present(H),
    /// No handler was ever set.
    Unset,
    /// The tool is a clone, which does not carry the handler.
    RemovedDuringClone,
}

/// The outcome of a handler, as the JSON value that answers a tool call: the
/// handler's value, or an object whose "error" member holds the message.
pub open spec fn call_answer(res: Result<JsonValue, String>) -> JsonModel {
    match res {
        Ok(v) => v@,
        Err(e) => error_object(e@),
    }
}

/// The object `{"error": message}`.
pub open spec fn error_object(message: Seq<char>) -> JsonModel {
    JsonModel::Object(seq![("error"@, JsonModel::Str(message))])
}

/// The declaration of a tool, as a model is told of it.
pub open spec fn declaration_json(name: Seq<char>, description: Seq<char>, parameters: JsonModel) -> JsonModel {
    JsonModel::Object(
        seq![
            ("name"@, JsonModel::Str(name)),
            ("description"@, JsonModel::Str(description)),
            ("parameters"@, parameters),
        ],
    )
}

/// What executing a tool named `name` on `args` may give: what its handler
/// may give, or else the error that says why there is no handler.
pub open spec fn executes_to<H: Fn(JsonValue) -> Result<JsonValue, String>>(
    handler: Option<H>,
    lost_by_clone: bool,
    name: Seq<char>,
    args: JsonValue,
    res: Result<JsonValue, String>,
) -> bool {
    match handler {
        Some(h) => call_ensures(h, (args,), res),
        None => if lost_by_clone {
            res matches Err(e) && e@ == "Handler for tool "@ + name
                + " was removed during cloning. Use original tool instance for execution."@
        } else {
            res matches Err(e) && e@ == "No handler defined for tool "@ + name
        },
    }
}

/// Whether a handler accepts every argument.
pub open spec fn accepts_all<H: Fn(JsonValue) -> Result<JsonValue, String>>(h: H) -> bool {
    forall|a: JsonValue| call_requires(h, (a,))
}

/// A function that the model can call.  `H` is its handler: it must accept
/// every argument.
pub struct Tool<H: Fn(JsonValue) -> Result<JsonValue, String>> {
    /// The name of the tool.
    pub name: String,
    /// What the tool does.
    pub description: String,
    /// The parameters the tool accepts, as a JSON Schema.
    pub parameters: JsonValue,
    /// Whether the tool can run its handler.
    pub handler_state: HandlerState<H>,
}

impl<H: Fn(JsonValue) -> Result<JsonValue, String>> Tool<H> {
    /// The tool's handler, if it has one.
    pub open spec fn handler(self) -> Option<H> {
        match self.handler_state {
            HandlerState::Present(h) => Some(h),
            _ => None,
        }
    }

    /// Whether the tool is a clone, which lost its handler.
    pub open spec fn lost_by_clone(self) -> bool {
        self.handler_state is RemovedDuringClone
    }

    /// A tool without a handler.
    pub fn new(name: &str, description: &str, parameters: JsonValue) -> (t: Self)
        ensures
            t.name@ == name@,
            t.description@ == description@,
            t.parameters == parameters,
            t.handler() is None,
            !t.lost_by_clone(),
    {
        Tool {
            name: name.to_owned(),
            description: description.to_owned(),
            parameters,
            handler_state: HandlerState::Unset,
        }
    }

    /// The tool with `handler` as its handler.
    pub fn with_handler(self, handler: H) -> (t: Self)
        ensures
            t.name == self.name,
            t.description == self.description,
            t.parameters == self.parameters,
            t.handler() == Some(handler),
            !t.lost_by_clone(),
    {
        Tool {
            name: self.name,
            description: self.description,
            parameters: self.parameters,
            handler_state: HandlerState::Present(handler),
        }
    }

    /// Whether the tool has a handler.
    pub fn handler_available(&self) -> (b: bool)
        ensures
            b == self.handler().is_some(),
    {
        match self.handler_state {
            HandlerState::Present(_) => true,
            _ => false,
        }
    }

    /// Why the tool has a handler or not, in words.
    pub fn handler_state_description(&self) -> (s: &'static str)
        ensures
            self.handler().is_some() ==> s@ == "available"@,
            self.handler().is_none() && self.lost_by_clone() ==> s@ == "removed during clone"@,
            self.handler().is_none() && !self.lost_by_clone() ==> s@ == "not set"@,
    {
        match self.handler_state {
            HandlerState::Present(_) => "available",
            HandlerState::Unset => "not set",
            HandlerState::RemovedDuringClone => "removed during clone",
        }
    }

    /// The tool's declaration: its name, description and parameters.
    pub fn to_function_declaration(&self) -> (v: JsonValue)
        ensures
            v@ == declaration_json(self.name@, self.description@, self.parameters@),
    {
        let mut e: Vec<(String, JsonValue)> = Vec::new();
        e.push((String::from_str("name"), JsonValue::String(self.name.clone())));
        e.push((String::from_str("description"), JsonValue::String(self.description.clone())));
        e.push((String::from_str("parameters"), self.parameters.deep_clone()));
        proof {
            lemma_entry_models_of(e@);
            assert(entry_models_of(e@) =~= declaration_json(
                self.name@,
                self.description@,
                self.parameters@,
            )->Object_0);
        }
        JsonValue::Object(e)
    }

    /// Runs the tool's handler on `args`.
    pub fn execute(&self, args: JsonValue) -> (r: Result<JsonValue, String>)
        requires
            self.handler() matches Some(h) ==> call_requires(h, (args,)),
        ensures
            executes_to(self.handler(), self.lost_by_clone(), self.name@, args, r),
    {
        match &self.handler_state {
            HandlerState::Present(h) => h(args),
            HandlerState::Unset => {
                let mut m = String::from_str("No handler defined for tool ");
                m.append(self.name.as_str());
                Err(m)
            },
            HandlerState::RemovedDuringClone => {
                let mut m = String::from_str("Handler for tool ");
                m.append(self.name.as_str());
                m.append(" was removed during cloning. Use original tool instance for execution.");
                Err(m)
            },
        }
    }

    /// A copy of the tool without its handler: a handler cannot be copied.
    pub fn clone_declaration(&self) -> (t: Self)
        ensures
            t.name@ == self.name@,
            t.description@ == self.description@,
            t.parameters@ == self.parameters@,
            t.handler() is None,
            t.lost_by_clone(),
    {
        Tool {
            name: self.name.clone(),
            description: self.description.clone(),
            parameters: self.parameters.deep_clone(),
            handler_state: HandlerState::RemovedDuringClone,
        }
    }
}

impl<H: Fn(JsonValue) -> Result<JsonValue, String>> Clone for Tool<H> {
    /// A copy of the tool without its handler.
    fn clone(&self) -> (t: Self)
        ensures
            t.name@ == self.name@,
            t.description@ == self.description@,
            t.parameters@ == self.parameters@,
            t.handler() is None,
            t.lost_by_clone(),
    {
        self.clone_declaration()
    }
}

/// The words that say why a tool has no handler.
pub open spec fn missing_handler_text<H: Fn(JsonValue) -> Result<JsonValue, String>>(t: Tool<H>) -> Seq<char> {
    if t.lost_by_clone() {
        "removed during clone"@
    } else {
        "not set"@
    }
}

/// The answer to a call of the tool named `name` on `args`, given the
/// registered tools and one outcome `res` of the handler that was run.
pub open spec fn tool_call_answer<H: Fn(JsonValue) -> Result<JsonValue, String>>(
    tools: Map<Seq<char>, Tool<H>>,
    name: Seq<char>,
    args: JsonValue,
    answer: JsonModel,
) -> bool {
    if !tools.contains_key(name) {
        answer == error_object("Tool not found: "@ + name)
    } else {
        match tools[name].handler() {
            Some(h) => exists|res: Result<JsonValue, String>|
                call_ensures(h, (args,), res) && answer == #[trigger] call_answer(res),
            None => answer == error_object(
                "Tool handler not available: "@ + name + " ("@ + missing_handler_text(tools[name])
                    + ")"@,
            ),
        }
    }
}

/// The tools that a model may call, by name.
pub struct ToolRegistry<H: Fn(JsonValue) -> Result<JsonValue, String>> {
    tools: StrMap<Tool<H>>,
}

impl<H: Fn(JsonValue) -> Result<JsonValue, String>> View for ToolRegistry<H> {
    type V = Map<Seq<char>, Tool<H>>;

    closed spec fn view(&self) -> Map<Seq<char>, Tool<H>> {
        self.tools@
    }
}

impl<H: Fn(JsonValue) -> Result<JsonValue, String>> ToolRegistry<H> {
    #[verifier::type_invariant]
    spec fn well_formed(self) -> bool {
        forall|k: Seq<char>|
            #![trigger self.tools@.contains_key(k)]
            self.tools@.contains_key(k) ==> self.tools@[k].name@ == k && match self.tools@[k].handler() {
                Some(h) => accepts_all(h),
                None => true,
            }
    }

    /// The names of the tools, in the order they were first registered.
    pub closed spec fn order(&self) -> Seq<Seq<char>> {
        self.tools.key_order()
    }

    /// An empty registry.
    pub fn new() -> (r: Self)
        ensures
            r@ == Map::<Seq<char>, Tool<H>>::empty(),
            r.order() == Seq::<Seq<char>>::empty(),
    {
        ToolRegistry { tools: StrMap::new() }
    }

    /// Registers `tool` under its name, in place of any tool of that name.
    /// A new name goes last in the order; a replaced tool keeps its place.
    pub fn register(&mut self, tool: Tool<H>)
        requires
            tool.handler() matches Some(h) ==> accepts_all(h),
        ensures
            final(self)@ == old(self)@.insert(tool.name@, tool),
            old(self)@.contains_key(tool.name@) ==> final(self).order() == old(self).order(),
            !old(self)@.contains_key(tool.name@) ==> final(self).order() == old(self).order().push(
                tool.name@,
            ),
    {
        proof {
            use_type_invariant(&*self);
        }
        let name = tool.name.clone();
        let mut tools = StrMap::new();
        std::mem::swap(&mut tools, &mut self.tools);
        tools.insert(name, tool);
        self.tools = tools;
    }

    /// The tool named `name`.
    pub fn get(&self, name: &str) -> (r: Option<&Tool<H>>)
        ensures
            r.is_some() == self@.contains_key(name@),
            r matches Some(t) ==> *t == self@[name@],
    {
        self.tools.get(name)
    }

    /// Every tool, in the order of registration; the order lists each
    /// registered name once.
    pub fn get_all(&self) -> (r: Vec<&Tool<H>>)
        ensures
            r@.len() == self.order().len(),
            r@.len() == self@.len(),
            forall|i: int, j: int| 0 <= i < j < self.order().len() ==> self.order()[i] != self.order()[j],
            forall|k: Seq<char>|
                #![trigger self@.contains_key(k)]
                self@.contains_key(k) <==> self.order().contains(k),
            forall|i: int| 0 <= i < r@.len() ==> #[trigger] self@.contains_key(self.order()[i]),
            forall|i: int| #![trigger r@[i]] 0 <= i < r@.len() ==> r@[i] == &self@[self.order()[i]],
    {
        let n = self.tools.len();
        let mut r: Vec<&Tool<H>> = Vec::new();
        let mut i: usize = 0;
        while i < n
            invariant
                n == self.tools.key_order().len(),
                i <= n,
                r@.len() == i,
                forall|j: int|
                    0 <= j < i ==> #[trigger] self.tools@.contains_key(self.tools.key_order()[j]),
                forall|j: int|
                    #![trigger r@[j]]
                    0 <= j < i ==> r@[j] == &self.tools@[self.tools.key_order()[j]],
            decreases n - i,
        {
            let (_, t) = self.tools.entry_at(i);
            r.push(t);
            i = i + 1;
        }
        r
    }

    /// The declarations of every tool, in the order of registration: one for
    /// each registered tool.
    pub fn to_tool_declarations(&self) -> (r: Vec<JsonValue>)
        ensures
            r@.len() == self.order().len(),
            r@.len() == self@.len(),
            forall|i: int, j: int| 0 <= i < j < self.order().len() ==> self.order()[i] != self.order()[j],
            forall|k: Seq<char>|
                #![trigger self@.contains_key(k)]
                self@.contains_key(k) <==> self.order().contains(k),
            forall|i: int|
                0 <= i < r@.len() ==> self@.contains_key(self.order()[i]) && (#[trigger] r@[i])@
                    == declaration_json(
                    self@[self.order()[i]].name@,
                    self@[self.order()[i]].description@,
                    self@[self.order()[i]].parameters@,
                ),
    {
        let n = self.tools.len();
        let mut r: Vec<JsonValue> = Vec::new();
        let mut i: usize = 0;
        while i < n
            invariant
                n == self.tools.key_order().len(),
                i <= n,
                r@.len() == i,
                forall|j: int|
                    0 <= j < i ==> self.tools@.contains_key(self.tools.key_order()[j]) && (
                    #[trigger] r@[j])@ == declaration_json(
                        self.tools@[self.tools.key_order()[j]].name@,
                        self.tools@[self.tools.key_order()[j]].description@,
                        self.tools@[self.tools.key_order()[j]].parameters@,
                    ),
            decreases n - i,
        {
            let (_, t) = self.tools.entry_at(i);
            r.push(t.to_function_declaration());
            i = i + 1;
        }
        r
    }

    /// Answers a call of the tool named `name` on `args`: the handler's
    /// value, or an object whose "error" member says what went wrong.
    pub fn process_tool_call(&self, name: &str, args: JsonValue) -> (r: JsonValue)
        ensures
            tool_call_answer(self@, name@, args, r@),
    {
        proof {
            use_type_invariant(self);
        }
        match self.tools.get(name) {
            Some(tool) => {
                if tool.handler_available() {
                    proof {
                        assert(self.tools@.contains_key(name@));
                    }
                    let ghost a = args;
                    let res = tool.execute(args);
                    let answer = match res {
                        Ok(v) => v,
                        Err(e) => error_value(e),
                    };
                    proof {
                        assert(answer@ == call_answer(res));
                        assert(call_ensures(tool.handler().unwrap(), (a,), res));
                    }
                    answer
                } else {
                    let mut m = String::from_str("Tool handler not available: ");
                    m.append(name);
                    m.append(" (");
                    m.append(tool.handler_state_description());
                    m.append(")");
                    error_value(m)
                }
            },
            None => {
                let mut m = String::from_str("Tool not found: ");
                m.append(name);
                error_value(m)
            },
        }
    }
}

/// The schema of a parameter of the given type.
pub open spec fn param_json(kind: Seq<char>, description: Seq<char>) -> JsonModel {
    JsonModel::Object(
        seq![("type"@, JsonModel::Str(kind)), ("description"@, JsonModel::Str(description))],
    )
}

fn param_schema(kind: &str, description: &str) -> (v: JsonValue)
    ensures
        v@ == param_json(kind@, description@),
{
    let mut e: Vec<(String, JsonValue)> = Vec::new();
    e.push((String::from_str("type"), JsonValue::from_text(kind)));
    e.push((String::from_str("description"), JsonValue::from_text(description)));
    proof {
        lemma_entry_models_of(e@);
        assert(entry_models_of(e@) =~= param_json(kind@, description@)->Object_0);
    }
    JsonValue::Object(e)
}

/// The schema of a string parameter.
pub fn string_param(description: &str) -> (v: JsonValue)
    ensures
        v@ == param_json("string"@, description@),
{
    param_schema("string", description)
}

/// The schema of a number parameter.
pub fn number_param(description: &str) -> (v: JsonValue)
    ensures
        v@ == param_json("number"@, description@),
{
    param_schema("number", description)
}

/// The schema of a boolean parameter.
pub fn boolean_param(description: &str) -> (v: JsonValue)
    ensures
        v@ == param_json("boolean"@, description@),
{
    param_schema("boolean", description)
}

/// The JSON object that a map of values stands for, members in key order.
pub open spec fn object_model(m: StrMap<JsonValue>) -> JsonModel {
    JsonModel::Object(m.key_order().map_values(|k: Seq<char>| (k, m@[k]@)))
}

/// The schema of an object parameter with the given properties.
pub open spec fn object_param_json(description: Seq<char>, properties: JsonModel) -> JsonModel {
    JsonModel::Object(
        seq![
            ("type"@, JsonModel::Str("object"@)),
            ("description"@, JsonModel::Str(description)),
            ("properties"@, properties),
        ],
    )
}

/// The schema of an object parameter with the given properties.
pub fn object_param(description: &str, properties: StrMap<JsonValue>) -> (v: JsonValue)
    ensures
        v@ == object_param_json(description@, object_model(properties)),
{
    let ghost props = properties;
    let p = properties.into_entries();
    let mut e: Vec<(String, JsonValue)> = Vec::new();
    e.push((String::from_str("type"), JsonValue::from_text("object")));
    e.push((String::from_str("description"), JsonValue::from_text(description)));
    let pv = JsonValue::Object(p);
    proof {
        lemma_entry_models_of(p@);
        assert(entry_models_of(p@) =~= object_model(props)->Object_0);
    }
    e.push((String::from_str("properties"), pv));
    proof {
        lemma_entry_models_of(e@);
        assert(entry_models_of(e@) =~= object_param_json(description@, object_model(props))->Object_0);
    }
    JsonValue::Object(e)
}

/// The object `{"error": message}`.
fn error_value(message: String) -> (v: JsonValue)
    ensures
        v@ == error_object(message@),
{
    let mut e: Vec<(String, JsonValue)> = Vec::new();
    e.push((String::from_str("error"), JsonValue::String(message)));
    proof {
        lemma_entry_models_of(e@);
        assert(entry_models_of(e@) =~= error_object(message@)->Object_0);
    }
    JsonValue::Object(e)
}

/// An error object holds its message under "error".
pub proof fn lemma_error_object_members(message: Seq<char>)
    ensures
        error_object(message) is Object,
        model_get(error_object(message), "error"@) == Some(JsonModel::Str(message)),
{
    reveal_strlit("error");
    let e = error_object(message)->Object_0;
    assert(e[0].0 == "error"@);
    crate::json::lemma_object_members(e);
    assert(model_get(error_object(message), e[0].0) == Some(e[0].1));
}

/// A tool's declaration holds its name under "name", its description under
/// "description" and its parameters under "parameters".
pub proof fn lemma_declaration_members(name: Seq<char>, description: Seq<char>, parameters: JsonModel)
    ensures
        declaration_json(name, description, parameters) is Object,
        model_get(declaration_json(name, description, parameters), "name"@) == Some(JsonModel::Str(name)),
        model_get(declaration_json(name, description, parameters), "description"@) == Some(JsonModel::Str(description)),
        model_get(declaration_json(name, description, parameters), "parameters"@) == Some(parameters),
{
    reveal_strlit("name");
    reveal_strlit("description");
    reveal_strlit("parameters");
    let e = declaration_json(name, description, parameters)->Object_0;
    assert(e[0].0 == "name"@);
    assert(e[1].0 == "description"@);
    assert(e[2].0 == "parameters"@);
    assert("name"@ != "description"@);
    assert("name"@ != "parameters"@);
    assert("description"@ != "parameters"@);
    crate::json::lemma_object_members(e);
    assert(model_get(declaration_json(name, description, parameters), e[0].0) == Some(e[0].1));
    assert(model_get(declaration_json(name, description, parameters), e[1].0) == Some(e[1].1));
    assert(model_get(declaration_json(name, description, parameters), e[2].0) == Some(e[2].1));
}

/// A parameter's schema holds its type under "type" and its description
/// under "description".
pub proof fn lemma_param_members(kind: Seq<char>, description: Seq<char>)
    ensures
        param_json(kind, description) is Object,
        model_get(param_json(kind, description), "type"@) == Some(JsonModel::Str(kind)),
        model_get(param_json(kind, description), "description"@) == Some(JsonModel::Str(description)),
{
    reveal_strlit("type");
    reveal_strlit("description");
    let e = param_json(kind, description)->Object_0;
    assert(e[0].0 == "type"@);
    assert(e[1].0 == "description"@);
    assert("type"@ != "description"@);
    crate::json::lemma_object_members(e);
    assert(model_get(param_json(kind, description), e[0].0) == Some(e[0].1));
    assert(model_get(param_json(kind, description), e[1].0) == Some(e[1].1));
}

/// An object parameter's schema holds "object" under "type", its
/// description under "description" and its properties under "properties".
pub proof fn lemma_object_param_members(description: Seq<char>, properties: JsonModel)
    ensures
        object_param_json(description, properties) is Object,
        model_get(object_param_json(description, properties), "type"@) == Some(JsonModel::Str("object"@)),
        model_get(object_param_json(description, properties), "description"@) == Some(JsonModel::Str(description)),
        model_get(object_param_json(description, properties), "properties"@) == Some(properties),
{
    reveal_strlit("type");
    reveal_strlit("description");
    reveal_strlit("properties");
    let e = object_param_json(description, properties)->Object_0;
    assert(e[0].0 == "type"@);
    assert(e[1].0 == "description"@);
    assert(e[2].0 == "properties"@);
    assert("type"@ != "description"@);
    assert("type"@ != "properties"@);
    assert("description"@ != "properties"@);
    crate::json::lemma_object_members(e);
    assert(model_get(object_param_json(description, properties), e[0].0) == Some(e[0].1));
    assert(model_get(object_param_json(description, properties), e[1].0) == Some(e[1].1));
    assert(model_get(object_param_json(description, properties), e[2].0) == Some(e[2].1));
}

/// A handler's value is the answer itself; its error becomes an object whose
/// "error" member is the error's text.
pub proof fn lemma_call_answer(v: JsonValue, e: String)
    ensures
        call_answer(Ok(v)) == v@,
        call_answer(Err(e)) is Object,
        model_get(call_answer(Err(e)), "error"@) == Some(JsonModel::Str(e@)),
{
    lemma_error_object_members(e@);
}

/// Calling a tool that is not registered answers with an error object
/// saying "Tool not found: " and the name; calling one without a handler
/// answers with an error object that names the tool and says why.
pub proof fn lemma_tool_call_answer_errors<H: Fn(JsonValue) -> Result<JsonValue, String>>(
    tools: Map<Seq<char>, Tool<H>>,
    name: Seq<char>,
    args: JsonValue,
    answer: JsonModel,
)
    ensures
        !tools.contains_key(name) ==> (tool_call_answer(tools, name, args, answer) <==> answer
            == error_object("Tool not found: "@ + name)),
        !tools.contains_key(name) ==> model_get(error_object("Tool not found: "@ + name), "error"@)
            == Some(JsonModel::Str("Tool not found: "@ + name)),
        tools.contains_key(name) && tools[name].handler() is None ==> (tool_call_answer(
            tools,
            name,
            args,
            answer,
        ) <==> answer == error_object(
            "Tool handler not available: "@ + name + " ("@ + (if tools[name].lost_by_clone() {
                "removed during clone"@
            } else {
                "not set"@
            }) + ")"@,
        )),
{
    lemma_error_object_members("Tool not found: "@ + name);
}

} // verus!
