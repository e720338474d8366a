//! The `show` and `list` queries: the human-readable lines, the
//! structured payload with every field always present, and the table rows
//! of the listing.

use crate::definition::DefinitionStore;
use crate::definition::SubagentDefinition;
use crate::definition::SubagentError;
use crate::text::append_clones;
use crate::text::join_comma;
use crate::text::lemma_views_of_concat;
use crate::text::spec_join;
use crate::text::views_of;
use vstd::prelude::*;
use vstd::string::StringExecFns;

verus! {

/// The output format of the `show` query.
#[derive(Clone, Copy, PartialEq, Eq, Structural, Debug)]
pub enum SubagentShowFormat {
    Human,
    Json,
}

impl Default for SubagentShowFormat {
    /// The format used when none is requested.
    fn default() -> (r: Self)
        ensures
            r == SubagentShowFormat::Human,
    {
        SubagentShowFormat::Human
    }
}

/// A `show` request: the subagent to inspect and the output format.
pub struct SubagentShowArgs {
    pub name: String,
    pub format: SubagentShowFormat,
}

/// One value of the structured payload: an explicit null marker, a text,
/// a boolean, or a list of texts.
pub enum FieldValue {
    Null,
    Text(String),
    Flag(bool),
    List(Vec<String>),
}

/// One field of the structured payload.
pub struct JsonField {
    pub key: String,
    pub value: FieldValue,
}

/// The result of a `show` query: the lines of the human-readable text, or
/// the fields of the structured payload.
pub enum ShowOutput {
    Human(Vec<String>),
    Json(Vec<JsonField>),
}

/// The human line for the display name, present only when one is set.
pub open spec fn human_display_lines(def: SubagentDefinition) -> Seq<Seq<char>> {
    match def.display_name {
        Some(d) => seq!["Display name: "@ + d@],
        None => Seq::empty(),
    }
}

/// The human line for the description, present only when one is set.
pub open spec fn human_description_lines(def: SubagentDefinition) -> Seq<Seq<char>> {
    match def.description {
        Some(d) => seq!["Description: "@ + d@],
        None => Seq::empty(),
    }
}

/// The human line for the system prompt, present only when one is set.
pub open spec fn human_prompt_lines(def: SubagentDefinition) -> Seq<Seq<char>> {
    match def.system_prompt {
        Some(p) => seq!["System prompt:\n"@ + p@],
        None => Seq::empty(),
    }
}

/// The human line for the tool allowlist: an explicit marker when it is
/// empty, the joined names otherwise.
pub open spec fn human_tools_line(def: SubagentDefinition) -> Seq<char> {
    if def.allowed_tools.deep_view().len() == 0 {
        "Allowed tools: (inherit default)"@
    } else {
        "Allowed tools: "@ + spec_join(def.allowed_tools.deep_view(), ", "@)
    }
}

/// The human line for the context sources: an explicit marker when the
/// list is empty, the joined names otherwise.
pub open spec fn human_sources_line(def: SubagentDefinition) -> Seq<char> {
    if def.context_sources.deep_view().len() == 0 {
        "Context sources: (none)"@
    } else {
        "Context sources: "@ + spec_join(def.context_sources.deep_view(), ", "@)
    }
}

/// The human line for the triggers: an explicit marker when the list is
/// empty, the joined phrases otherwise.
pub open spec fn human_triggers_line(def: SubagentDefinition) -> Seq<char> {
    if def.triggers.deep_view().len() == 0 {
        "Triggers: (manual)"@
    } else {
        "Triggers: "@ + spec_join(def.triggers.deep_view(), ", "@)
    }
}

/// The identity part of the human text: name, optional display name and
/// description, the enabled state, and the optional system prompt.
pub open spec fn spec_identity_lines(name: Seq<char>, def: SubagentDefinition) -> Seq<Seq<char>> {
    seq!["Name: "@ + name] + human_display_lines(def) + human_description_lines(def) + seq![
        "Enabled: "@ + (if def.enabled {
            "true"@
        } else {
            "false"@
        }),
    ] + human_prompt_lines(def)
}

/// The collections part of the human text: one line each for tools,
/// context sources and triggers, always present.
pub open spec fn spec_collection_lines(def: SubagentDefinition) -> Seq<Seq<char>> {
    seq![human_tools_line(def), human_sources_line(def), human_triggers_line(def)]
}

/// All lines of the human-readable `show` text, in order.
pub open spec fn spec_human_lines(name: Seq<char>, def: SubagentDefinition) -> Seq<Seq<char>> {
    spec_identity_lines(name, def) + spec_collection_lines(def)
}

/// A label directly followed by a value.
fn labeled(label: &str, value: &str) -> (r: String)
    ensures
        r@ == label@ + value@,
{
    let mut out = String::from_str(label);
    out.append(value);
    out
}

/// The line for a list field: the marker text when the list is empty, the
/// label followed by the joined items otherwise.
fn collection_line(label: &str, empty_text: &str, items: &Vec<String>) -> (r: String)
    ensures
        items.deep_view().len() == 0 ==> r@ == empty_text@,
        items.deep_view().len() > 0 ==> r@ == label@ + spec_join(items.deep_view(), ", "@),
{
    if items.len() == 0 {
        String::from_str(empty_text)
    } else {
        let joined = join_comma(items);
        labeled(label, joined.as_str())
    }
}

/// Builds the identity lines of the human text.
fn identity_lines(name: &String, def: &SubagentDefinition) -> (r: Vec<String>)
    ensures
        r.deep_view() == spec_identity_lines(name@, *def),
{
    let mut out: Vec<String> = Vec::new();
    out.push(labeled("Name: ", name.as_str()));
    if let Some(display) = &def.display_name {
        out.push(labeled("Display name: ", display.as_str()));
    }
    if let Some(description) = &def.description {
        out.push(labeled("Description: ", description.as_str()));
    }
    if def.enabled {
        out.push(labeled("Enabled: ", "true"));
    } else {
        out.push(labeled("Enabled: ", "false"));
    }
    if let Some(prompt) = &def.system_prompt {
        out.push(labeled("System prompt:\n", prompt.as_str()));
    }
    proof {
        assert(out.deep_view() =~= views_of(out@));
        assert(views_of(out@) =~= spec_identity_lines(name@, *def));
    }
    out
}

/// Builds the collection lines of the human text.
fn collection_lines(def: &SubagentDefinition) -> (r: Vec<String>)
    ensures
        r.deep_view() == spec_collection_lines(*def),
{
    let mut out: Vec<String> = Vec::new();
    out.push(collection_line("Allowed tools: ", "Allowed tools: (inherit default)", &def.allowed_tools));
    out.push(collection_line("Context sources: ", "Context sources: (none)", &def.context_sources));
    out.push(collection_line("Triggers: ", "Triggers: (manual)", &def.triggers));
    proof {
        assert(out.deep_view() =~= views_of(out@));
        assert(views_of(out@) =~= spec_collection_lines(*def));
    }
    out
}

/// Builds every line of the human-readable `show` text.
pub fn human_lines(name: &String, def: &SubagentDefinition) -> (r: Vec<String>)
    ensures
        r.deep_view() == spec_human_lines(name@, *def),
{
    let mut out = identity_lines(name, def);
    let ghost head = out@;
    let mut rest = collection_lines(def);
    let ghost tail = rest@;
    proof {
        assert(views_of(head) =~= out.deep_view());
        assert(views_of(tail) =~= rest.deep_view());
    }
    out.append(&mut rest);
    proof {
        assert(out@ == head + tail);
        lemma_views_of_concat(head, tail);
        assert(out.deep_view() =~= views_of(out@));
        assert(out.deep_view() =~= spec_human_lines(name@, *def));
    }
    out
}

/// The keys of the structured payload, in payload order; every one of
/// them is present in every payload.
pub open spec fn spec_json_keys() -> Seq<Seq<char>> {
    seq![
        "name"@,
        "display_name"@,
        "description"@,
        "enabled"@,
        "system_prompt"@,
        "allowed_tools"@,
        "context_sources"@,
        "triggers"@,
    ]
}

/// The value stands for an optional text: the text when present, the
/// explicit null marker when absent.
pub open spec fn field_is_opt_text(v: FieldValue, o: Option<Seq<char>>) -> bool {
    match o {
        Some(s) => v matches FieldValue::Text(t) && t@ == s,
        None => v is Null,
    }
}

/// The value is the given list of texts.
pub open spec fn field_is_list(v: FieldValue, items: Seq<Seq<char>>) -> bool {
    v matches FieldValue::List(l) && l.deep_view() == items
}

/// The structured payload of a `show` query: all eight fields, in payload
/// order, with explicit null markers for absent optional texts and empty
/// lists for absent sequences.
pub open spec fn spec_json_payload_matches(
    fields: Seq<JsonField>,
    name: Seq<char>,
    def: SubagentDefinition,
) -> bool {
    &&& fields.len() == spec_json_keys().len()
    &&& forall|i: int|
        0 <= i < fields.len() ==> (#[trigger] fields[i]).key@ == spec_json_keys()[i]
    &&& fields[0].value matches FieldValue::Text(t) && t@ == name
    &&& field_is_opt_text(fields[1].value, def.display_name.deep_view())
    &&& field_is_opt_text(fields[2].value, def.description.deep_view())
    &&& fields[3].value matches FieldValue::Flag(b) && b == def.enabled
    &&& field_is_opt_text(fields[4].value, def.system_prompt.deep_view())
    &&& field_is_list(fields[5].value, def.allowed_tools.deep_view())
    &&& field_is_list(fields[6].value, def.context_sources.deep_view())
    &&& field_is_list(fields[7].value, def.triggers.deep_view())
}

/// An optional text as a payload value: the text, or the null marker.
fn opt_text_value(o: &Option<String>) -> (r: FieldValue)
    ensures
        field_is_opt_text(r, o.deep_view()),
{
    match o {
        Some(s) => FieldValue::Text(s.clone()),
        None => FieldValue::Null,
    }
}

/// A list of texts as a payload value.
fn list_value(items: &Vec<String>) -> (r: FieldValue)
    ensures
        field_is_list(r, items.deep_view()),
{
    let mut copy: Vec<String> = Vec::new();
    append_clones(&mut copy, items);
    proof {
        assert(copy.deep_view() =~= items.deep_view());
    }
    FieldValue::List(copy)
}

/// Builds the structured payload: every field present, absent optional
/// texts as explicit null markers, absent sequences as empty lists.
pub fn json_payload(name: &String, def: &SubagentDefinition) -> (r: Vec<JsonField>)
    ensures
        spec_json_payload_matches(r@, name@, *def),
{
    let mut fields: Vec<JsonField> = Vec::new();
    fields.push(JsonField { key: String::from_str("name"), value: FieldValue::Text(name.clone()) });
    fields.push(
        JsonField {
            key: String::from_str("display_name"),
            value: opt_text_value(&def.display_name),
        },
    );
    fields.push(
        JsonField {
            key: String::from_str("description"),
            value: opt_text_value(&def.description),
        },
    );
    fields.push(
        JsonField { key: String::from_str("enabled"), value: FieldValue::Flag(def.enabled) },
    );
    fields.push(
        JsonField {
            key: String::from_str("system_prompt"),
            value: opt_text_value(&def.system_prompt),
        },
    );
    fields.push(
        JsonField {
            key: String::from_str("allowed_tools"),
            value: list_value(&def.allowed_tools),
        },
    );
    fields.push(
        JsonField {
            key: String::from_str("context_sources"),
            value: list_value(&def.context_sources),
        },
    );
    fields.push(
        JsonField { key: String::from_str("triggers"), value: list_value(&def.triggers) },
    );
    fields
}

/// Resolves a `show` request: an unknown name fails with that name; a
/// known one yields the human lines or the structured payload, per the
/// requested format.
pub fn show_subagent(store: &DefinitionStore, args: &SubagentShowArgs) -> (r: Result<
    ShowOutput,
    SubagentError,
>)
    ensures
        r is Ok <==> store.contains_name(args.name@),
        r matches Err(SubagentError::UnknownSubagent { name }) ==> name@ == args.name@,
        r matches Ok(out) ==> (out is Human <==> args.format == SubagentShowFormat::Human),
        r matches Ok(ShowOutput::Human(lines)) ==> lines.deep_view() == spec_human_lines(
            args.name@,
            store.spec_get(args.name@).unwrap(),
        ),
        r matches Ok(ShowOutput::Json(fields)) ==> spec_json_payload_matches(
            fields@,
            args.name@,
            store.spec_get(args.name@).unwrap(),
        ),
{
    match store.get(&args.name) {
        None => Err(SubagentError::UnknownSubagent { name: args.name.clone() }),
        Some(definition) => {
            match args.format {
                SubagentShowFormat::Human => Ok(
                    ShowOutput::Human(human_lines(&args.name, definition)),
                ),
                SubagentShowFormat::Json => Ok(
                    ShowOutput::Json(json_payload(&args.name, definition)),
                ),
            }
        },
    }
}

/// One row of the `list` table: the name, the enabled state as `yes` or
/// `no`, and the display name when one is set.
pub struct SubagentListRow {
    pub name: String,
    pub status: String,
    pub display_name: Option<String>,
}

/// Builds the `list` rows, one per definition, in store order: the
/// listing is sorted by name whenever the store is well formed.
pub fn subagent_list_rows(store: &DefinitionStore) -> (r: Vec<SubagentListRow>)
    ensures
        r@.len() == store.defs_seq().len(),
        forall|i: int|
            0 <= i < r@.len() ==> {
                &&& (#[trigger] r@[i]).name@ == store.defs_seq()[i].name@
                &&& r@[i].status@ == (if store.defs_seq()[i].enabled {
                    "yes"@
                } else {
                    "no"@
                })
                &&& r@[i].display_name.deep_view() == store.defs_seq()[i].display_name.deep_view()
            },
{
    let defs = store.list();
    let mut rows: Vec<SubagentListRow> = Vec::new();
    let mut i: usize = 0;
    while i < defs.len()
        invariant
            i <= defs.len(),
            defs@ == store.defs_seq(),
            rows@.len() == i,
            forall|k: int|
                0 <= k < i ==> {
                    &&& (#[trigger] rows@[k]).name@ == store.defs_seq()[k].name@
                    &&& rows@[k].status@ == (if store.defs_seq()[k].enabled {
                        "yes"@
                    } else {
                        "no"@
                    })
                    &&& rows@[k].display_name.deep_view()
                        == store.defs_seq()[k].display_name.deep_view()
                },
        decreases defs.len() - i,
    {
        let status = if defs[i].enabled {
            String::from_str("yes")
        } else {
            String::from_str("no")
        };
        let display_name = match &defs[i].display_name {
            Some(d) => Some(d.clone()),
            None => None,
        };
        rows.push(
            SubagentListRow { name: defs[i].name.clone(), status, display_name },
        );
        i = i + 1;
    }
    rows
}

/// The two `show` formats expose the same field set: the structured
/// payload always carries all eight fields under fixed keys; an optional
/// text is a line in the human text exactly when it is not the explicit
/// null marker in the payload, and then both carry the same text; a
/// sequence field is always one human line, which is the explicit
/// empty-marker exactly by the same emptiness that makes the payload
/// list empty, and otherwise joins the payload list's items.
pub proof fn lemma_show_formats_agree(
    name: Seq<char>,
    def: SubagentDefinition,
    fields: Seq<JsonField>,
)
    requires
        spec_json_payload_matches(fields, name, def),
    ensures
        fields.len() == spec_json_keys().len(),
        forall|i: int|
            0 <= i < fields.len() ==> (#[trigger] fields[i]).key@ == spec_json_keys()[i],
        spec_human_lines(name, def)[0] == "Name: "@ + name,
        fields[0].value matches FieldValue::Text(t) && t@ == name,
        fields[1].value is Null <==> human_display_lines(def).len() == 0,
        fields[1].value matches FieldValue::Text(t) ==> human_display_lines(def).len() == 1
            && human_display_lines(def)[0] == "Display name: "@ + t@,
        fields[2].value is Null <==> human_description_lines(def).len() == 0,
        fields[2].value matches FieldValue::Text(t) ==> human_description_lines(def).len() == 1
            && human_description_lines(def)[0] == "Description: "@ + t@,
        fields[3].value matches FieldValue::Flag(b) && b == def.enabled,
        fields[4].value is Null <==> human_prompt_lines(def).len() == 0,
        fields[4].value matches FieldValue::Text(t) ==> human_prompt_lines(def).len() == 1
            && human_prompt_lines(def)[0] == "System prompt:\n"@ + t@,
        fields[5].value matches FieldValue::List(l) && (l.deep_view().len() == 0
            ==> human_tools_line(def) == "Allowed tools: (inherit default)"@) && (
        l.deep_view().len() > 0 ==> human_tools_line(def) == "Allowed tools: "@ + spec_join(
            l.deep_view(),
            ", "@,
        )),
        fields[6].value matches FieldValue::List(l) && (l.deep_view().len() == 0
            ==> human_sources_line(def) == "Context sources: (none)"@) && (l.deep_view().len() > 0
            ==> human_sources_line(def) == "Context sources: "@ + spec_join(l.deep_view(), ", "@)),
        fields[7].value matches FieldValue::List(l) && (l.deep_view().len() == 0
            ==> human_triggers_line(def) == "Triggers: (manual)"@) && (l.deep_view().len() > 0
            ==> human_triggers_line(def) == "Triggers: "@ + spec_join(l.deep_view(), ", "@)),
{
    assert(spec_human_lines(name, def)[0] == "Name: "@ + name);
}

} // verus!
