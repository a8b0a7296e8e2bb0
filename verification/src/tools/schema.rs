//! Tool definitions as the model sees them: a name, a description, and a
//! JSON schema of the parameters.
use vstd::prelude::*;
use crate::text::string_of;
use crate::types::value::Json;

verus! {

/// The function a tool offers: its name, what it does, and its parameters.
#[derive(Debug)]
pub struct FunctionDefinition {
    pub name: String,
    pub description: String,
    pub parameters: Json,
    pub strict: Option<bool>,
}

/// A tool as announced to the model; its type is always `function`.
#[derive(Debug)]
pub struct ToolDefinition {
    pub tool_type: String,
    pub function: FunctionDefinition,
}

impl ToolDefinition {
    pub fn new_function(name: &str, description: &str, parameters: Json) -> (d: ToolDefinition)
        ensures
            d.tool_type@ == "function"@,
            d.function.name@ == name@,
            d.function.description@ == description@,
            d.function.parameters == parameters,
            d.function.strict is None,
    {
        ToolDefinition {
            tool_type: string_of("function"),
            function: FunctionDefinition {
                name: string_of(name),
                description: string_of(description),
                parameters,
                strict: None,
            },
        }
    }
}

/// A parameter as a schema lists it: name, JSON type, description.
pub type Param = (Seq<char>, Seq<char>, Seq<char>);

pub open spec fn is_text(j: Json, t: Seq<char>) -> bool {
    j matches Json::Str(s) && s@ == t
}

/// `{"type": ty, "description": d}`, or `{"type": ty}` without description.
pub open spec fn is_field(j: Json, ty: Seq<char>, desc: Option<Seq<char>>) -> bool {
    &&& j matches Json::Object(fs)
    &&& fs@.len() == if desc is Some { 2int } else { 1int }
    &&& fs@[0].0@ == "type"@
    &&& is_text(fs@[0].1, ty)
    &&& desc matches Some(d) ==> fs@[1].0@ == "description"@ && is_text(fs@[1].1, d)
}

/// An object whose members are exactly the described parameters, in order.
pub open spec fn is_fields(j: Json, ps: Seq<Param>) -> bool {
    &&& j matches Json::Object(fs)
    &&& fs@.len() == ps.len()
    &&& forall|i: int|
        0 <= i < ps.len() ==> (#[trigger] fs@[i]).0@ == ps[i].0 && is_field(fs@[i].1, ps[i].1, Some(ps[i].2))
}

pub open spec fn is_text_list(j: Json, items: Seq<Seq<char>>) -> bool {
    &&& j matches Json::Array(a)
    &&& a@.len() == items.len()
    &&& forall|i: int| 0 <= i < items.len() ==> is_text(#[trigger] a@[i], items[i])
}

/// `{"type": "object", "properties": _, "required": required}`.
pub open spec fn is_object_schema(j: Json, required: Seq<Seq<char>>) -> bool {
    &&& j matches Json::Object(top)
    &&& top@.len() == 3
    &&& top@[0].0@ == "type"@
    &&& is_text(top@[0].1, "object"@)
    &&& top@[1].0@ == "properties"@
    &&& top@[2].0@ == "required"@
    &&& is_text_list(top@[2].1, required)
}

/// The `properties` member of an object schema.
pub open spec fn properties_of(j: Json) -> Json {
    match j {
        Json::Object(top) => if top@.len() == 3 {
            top@[1].1
        } else {
            Json::Null
        },
        _ => Json::Null,
    }
}

/// A flat object schema: every parameter a plain field.
pub open spec fn is_flat_schema(j: Json, ps: Seq<Param>, required: Seq<Seq<char>>) -> bool {
    is_object_schema(j, required) && is_fields(properties_of(j), ps)
}

pub open spec fn param_views(v: Seq<(&str, &str, &str)>) -> Seq<Param> {
    v.map_values(|p: (&str, &str, &str)| (p.0@, p.1@, p.2@))
}

pub open spec fn str_views(v: Seq<&str>) -> Seq<Seq<char>> {
    v.map_values(|s: &str| s@)
}

pub fn text(t: &str) -> (j: Json)
    ensures
        is_text(j, t@),
{
    Json::Str(string_of(t))
}

/// `{"type": ty, "description": desc}`.
pub fn field(ty: &str, desc: &str) -> (j: Json)
    ensures
        is_field(j, ty@, Some(desc@)),
{
    let mut fs: Vec<(String, Json)> = Vec::new();
    fs.push((string_of("type"), text(ty)));
    fs.push((string_of("description"), text(desc)));
    Json::Object(fs)
}

/// `{"type": ty}`.
pub fn typed(ty: &str) -> (j: Json)
    ensures
        is_field(j, ty@, None),
{
    let mut fs: Vec<(String, Json)> = Vec::new();
    fs.push((string_of("type"), text(ty)));
    Json::Object(fs)
}

/// An array of strings.
pub fn text_list(items: Vec<&str>) -> (j: Json)
    ensures
        is_text_list(j, str_views(items@)),
{
    let mut a: Vec<Json> = Vec::new();
    let mut i: usize = 0;
    while i < items.len()
        invariant
            i <= items.len(),
            a.len() == i,
            forall|k: int| 0 <= k < i ==> is_text(#[trigger] a@[k], items@[k]@),
        decreases items.len() - i,
    {
        a.push(text(items[i]));
        i += 1;
    }
    Json::Array(a)
}

/// The object of the given parameters, each `{"type", "description"}`.
pub fn fields(ps: Vec<(&str, &str, &str)>) -> (j: Json)
    ensures
        is_fields(j, param_views(ps@)),
{
    let mut fs: Vec<(String, Json)> = Vec::new();
    let mut i: usize = 0;
    while i < ps.len()
        invariant
            i <= ps.len(),
            fs.len() == i,
            forall|k: int|
                0 <= k < i ==> (#[trigger] fs@[k]).0@ == ps@[k].0@ && is_field(fs@[k].1, ps@[k].1@, Some(ps@[k].2@)),
        decreases ps.len() - i,
    {
        let (name, ty, desc) = ps[i];
        fs.push((string_of(name), field(ty, desc)));
        i += 1;
    }
    Json::Object(fs)
}

/// `{"type": "object", "properties": properties, "required": required}`.
pub fn object_schema(properties: Json, required: Vec<&str>) -> (j: Json)
    ensures
        is_object_schema(j, str_views(required@)),
        properties_of(j) == properties,
{
    let mut top: Vec<(String, Json)> = Vec::new();
    top.push((string_of("type"), text("object")));
    top.push((string_of("properties"), properties));
    top.push((string_of("required"), text_list(required)));
    Json::Object(top)
}

/// A flat schema of the given parameters.
pub fn flat_schema(ps: Vec<(&str, &str, &str)>, required: Vec<&str>) -> (j: Json)
    ensures
        is_flat_schema(j, param_views(ps@), str_views(required@)),
{
    object_schema(fields(ps), required)
}

/// `{"type": "array", "description": desc, "items": _}`.
pub open spec fn is_array_field(j: Json, desc: Seq<char>) -> bool {
    &&& j matches Json::Object(fs)
    &&& fs@.len() == 3
    &&& fs@[0].0@ == "type"@
    &&& is_text(fs@[0].1, "array"@)
    &&& fs@[1].0@ == "description"@
    &&& is_text(fs@[1].1, desc)
    &&& fs@[2].0@ == "items"@
}

/// The `items` member of an array field.
pub open spec fn items_of(j: Json) -> Json {
    match j {
        Json::Object(fs) => if fs@.len() == 3 {
            fs@[2].1
        } else {
            Json::Null
        },
        _ => Json::Null,
    }
}

/// `{"type": "array", "description": desc, "items": items}`.
pub fn array_field(desc: &str, items: Json) -> (j: Json)
    ensures
        is_array_field(j, desc@),
        items_of(j) == items,
{
    let mut fs: Vec<(String, Json)> = Vec::new();
    fs.push((string_of("type"), text("array")));
    fs.push((string_of("description"), text(desc)));
    fs.push((string_of("items"), items));
    Json::Object(fs)
}

/// An object of named members, in order.
pub fn members(entries: Vec<(&str, Json)>) -> (j: Json)
    ensures
        j matches Json::Object(fs) && fs@.len() == entries.len() && forall|k: int|
            0 <= k < entries.len() ==> (#[trigger] fs@[k]).0@ == entries@[k].0@ && fs@[k].1 == entries@[k].1,
{
    let mut fs: Vec<(String, Json)> = Vec::new();
    let mut rest = entries;
    let ghost all = rest@;
    let mut out_rev: Vec<(&str, Json)> = Vec::new();
    while rest.len() > 0
        invariant
            out_rev.len() + rest.len() == all.len(),
            forall|k: int| 0 <= k < rest.len() ==> rest@[k] == all[k],
            forall|k: int| 0 <= k < out_rev.len() ==> out_rev@[k] == all[all.len() - 1 - k],
        decreases rest.len(),
    {
        let e = rest.pop().unwrap();
        out_rev.push(e);
    }
    while out_rev.len() > 0
        invariant
            fs.len() + out_rev.len() == all.len(),
            forall|k: int| 0 <= k < out_rev.len() ==> out_rev@[k] == all[all.len() - 1 - k],
            forall|k: int| 0 <= k < fs.len() ==> (#[trigger] fs@[k]).0@ == all[k].0@ && fs@[k].1 == all[k].1,
        decreases out_rev.len(),
    {
        let (name, value) = out_rev.pop().unwrap();
        fs.push((string_of(name), value));
    }
    Json::Object(fs)
}

} // verus!
