//! The settings as an operator sees them, and the other answers to an operator.

use crate::json;
use crate::json::{
    array_text, json_string, list_text, object_text, some_member, text_or_null, truth_text, Member,
};
use crate::text;
use crate::text::{decimal, ends_in, option_view, signed_decimal, texts};
use vstd::prelude::*;

verus! {

/// The value that a setting has until another is stored.
#[derive(Debug)]
pub enum DefaultValue<S = String, L = Vec<String>> {
    Bool(bool),
    Int(i64),
    Str(S),
    List(L),
}

impl View for DefaultValue {
    type V = DefaultValue<Seq<char>, Seq<Seq<char>>>;

    open spec fn view(&self) -> DefaultValue<Seq<char>, Seq<Seq<char>>> {
        match self {
            DefaultValue::Bool(value) => DefaultValue::Bool(*value),
            DefaultValue::Int(value) => DefaultValue::Int(*value),
            DefaultValue::Str(value) => DefaultValue::Str(value@),
            DefaultValue::List(value) => DefaultValue::List(texts(value@)),
        }
    }
}

/// A default as JSON.
pub open spec fn default_text(value: DefaultValue<Seq<char>, Seq<Seq<char>>>) -> Seq<char> {
    match value {
        DefaultValue::Bool(value) => truth_text(value),
        DefaultValue::Int(value) => signed_decimal(value as int),
        DefaultValue::Str(value) => json_string(value),
        DefaultValue::List(value) => array_text(value),
    }
}

/// A default as JSON.
pub fn default_json(value: &DefaultValue) -> (json: String)
    ensures
        json@ == default_text(value@),
{
    match value {
        DefaultValue::Bool(value) => json::truth(*value),
        DefaultValue::Int(value) => text::signed_of(*value as i128),
        DefaultValue::Str(value) => json::string(value.as_str()),
        DefaultValue::List(value) => json::array(value),
    }
}

/// What a setting is. `kind` is the word for its type, and `reload` the word for when a
/// change takes effect.
#[derive(Debug)]
pub struct SettingDef<S = String, L = Vec<String>> {
    pub name: S,
    pub kind: S,
    pub is_int: bool,
    pub description: S,
    pub secret: bool,
    pub reload: S,
    pub default_value: DefaultValue<S, L>,
    pub min: Option<i64>,
    pub max: Option<i64>,
    pub allowed: Option<L>,
}

/// A setting's definition, over sequences.
pub type DefModel = SettingDef<Seq<char>, Seq<Seq<char>>>;

impl View for SettingDef {
    type V = DefModel;

    open spec fn view(&self) -> DefModel {
        SettingDef {
            name: self.name@,
            kind: self.kind@,
            is_int: self.is_int,
            description: self.description@,
            secret: self.secret,
            reload: self.reload@,
            default_value: self.default_value@,
            min: self.min,
            max: self.max,
            allowed: match self.allowed {
                Some(allowed) => Some(texts(allowed@)),
                None => None,
            },
        }
    }
}

/// What a number counts, told by the end of its setting's name.
pub open spec fn unit(name: Seq<char>) -> Seq<char> {
    if ends_in(name, "_bytes"@) {
        "bytes"@
    } else if ends_in(name, "_ms"@) {
        "milliseconds"@
    } else if ends_in(name, "_seconds"@) {
        "seconds"@
    } else if ends_in(name, "_pages"@) {
        "pages"@
    } else if ends_in(name, "_kib"@) {
        "kibibytes"@
    } else {
        "count"@
    }
}

/// What a number counts, told by the end of its setting's name.
pub fn unit_hint(name: &str) -> (hint: &'static str)
    ensures
        hint@ == unit(name@),
{
    if text::ends_with(name, "_bytes") {
        "bytes"
    } else if text::ends_with(name, "_ms") {
        "milliseconds"
    } else if text::ends_with(name, "_seconds") {
        "seconds"
    } else if text::ends_with(name, "_pages") {
        "pages"
    } else if text::ends_with(name, "_kib") {
        "kibibytes"
    } else {
        "count"
    }
}

/// The JSON of a bound, if there is one.
pub open spec fn bound_text(bound: Option<i64>) -> Option<Seq<char>> {
    match bound {
        Some(n) => Some(signed_decimal(n as int)),
        None => None,
    }
}

fn bound_json(bound: Option<i64>) -> (json: Option<String>)
    ensures
        option_view(json) == bound_text(bound),
{
    match bound {
        Some(n) => Some(text::signed_of(n as i128)),
        None => None,
    }
}

/// The value that is shown: for a secret, nothing.
pub open spec fn shown_value(def: DefModel, stored: Option<Seq<char>>) -> Seq<char> {
    if def.secret {
        "null"@
    } else {
        match stored {
            Some(value) => value,
            None => default_text(def.default_value),
        }
    }
}

/// What limits a setting, whether it is configured if it is a secret, and its default.
pub open spec fn leading_members(def: DefModel, secret_form: Seq<char>) -> Seq<
    (Seq<char>, Seq<char>),
> {
    some_member(
        "allowed"@,
        match def.allowed {
            Some(allowed) => Some(array_text(allowed)),
            None => None,
        },
    ) + some_member(
        "configured"@,
        if def.secret {
            Some(truth_text(secret_form != "unset"@))
        } else {
            None
        },
    ) + seq![
        ("default"@, default_text(def.default_value)),
        ("description"@, json_string(def.description)),
    ] + some_member("maximum"@, bound_text(def.max)) + some_member("minimum"@, bound_text(def.min))
}

/// A setting's name and kind, and its value.
pub open spec fn closing_members(
    def: DefModel,
    secret_form: Seq<char>,
    stored: Option<Seq<char>>,
) -> Seq<(Seq<char>, Seq<char>)> {
    seq![
        ("name"@, json_string(def.name)),
        ("reload"@, json_string(def.reload)),
        ("secret"@, truth_text(def.secret)),
    ] + some_member(
        "secret_form"@,
        if def.secret {
            Some(json_string(secret_form))
        } else {
            None
        },
    ) + seq![("type"@, json_string(def.kind))] + some_member(
        "unit_hint"@,
        if def.is_int {
            Some(json_string(unit(def.name)))
        } else {
            None
        },
    ) + seq![("value"@, shown_value(def, stored))]
}

/// The members of a setting's description.
pub open spec fn setting_members(
    def: DefModel,
    secret_form: Seq<char>,
    stored: Option<Seq<char>>,
) -> Seq<(Seq<char>, Seq<char>)> {
    leading_members(def, secret_form) + closing_members(def, secret_form, stored)
}

fn leading(def: &SettingDef, secret_form: &str) -> (list: Vec<Member>)
    ensures
        json::member_views(list@) == leading_members(def@, secret_form@),
{
    let allowed: Option<String> = match &def.allowed {
        Some(allowed) => Some(json::array(allowed)),
        None => None,
    };
    let configured: Option<String> = if def.secret {
        Some(json::truth(!text::same(secret_form, "unset")))
    } else {
        None
    };
    let mut list: Vec<Member> = Vec::new();
    json::push_some(&mut list, "allowed", allowed);
    json::push_some(&mut list, "configured", configured);
    let own = vec![
        json::member("default", default_json(&def.default_value)),
        json::member("description", json::string(def.description.as_str())),
    ];
    assert(json::member_views(own@) =~= seq![
        ("default"@, default_text(def@.default_value)),
        ("description"@, json_string(def@.description)),
    ]);
    json::extend(&mut list, own);
    json::push_some(&mut list, "maximum", bound_json(def.max));
    json::push_some(&mut list, "minimum", bound_json(def.min));
    list
}

fn closing(def: &SettingDef, secret_form: &str, stored: &Option<String>) -> (list: Vec<Member>)
    ensures
        json::member_views(list@) == closing_members(def@, secret_form@, option_view(*stored)),
{
    let form: Option<String> = if def.secret {
        Some(json::string(secret_form))
    } else {
        None
    };
    let hint: Option<String> = if def.is_int {
        Some(json::string(unit_hint(def.name.as_str())))
    } else {
        None
    };
    let value: String = if def.secret {
        "null".to_owned()
    } else {
        match stored {
            Some(value) => value.as_str().to_owned(),
            None => default_json(&def.default_value),
        }
    };
    let mut list = vec![
        json::member("name", json::string(def.name.as_str())),
        json::member("reload", json::string(def.reload.as_str())),
        json::member("secret", json::truth(def.secret)),
    ];
    assert(json::member_views(list@) =~= seq![
        ("name"@, json_string(def@.name)),
        ("reload"@, json_string(def@.reload)),
        ("secret"@, truth_text(def@.secret)),
    ]);
    json::push_some(&mut list, "secret_form", form);
    json::push_some(&mut list, "type", Some(json::string(def.kind.as_str())));
    json::push_some(&mut list, "unit_hint", hint);
    json::push_some(&mut list, "value", Some(value));
    list
}

/// Describes one setting. `stored` is its value, as JSON, if one is stored; `secret_form`
/// says how a secret is configured, `unset` where it is not. A secret's value is left
/// out: only whether, and how, it is configured is told.
pub fn setting_json(def: &SettingDef, secret_form: &str, stored: &Option<String>) -> (json: String)
    ensures
        json@ == object_text(setting_members(def@, secret_form@, option_view(*stored))),
{
    let mut list = leading(def, secret_form);
    json::extend(&mut list, closing(def, secret_form, stored));
    json::object(&list)
}

/// What is shown of a secret does not depend on its value.
pub proof fn law_secret_values_are_never_shown(
    def: DefModel,
    secret_form: Seq<char>,
    one: Option<Seq<char>>,
    other: Option<Seq<char>>,
)
    requires
        def.secret,
    ensures
        setting_members(def, secret_form, one) == setting_members(def, secret_form, other),
        shown_value(def, one) == "null"@,
{
}

/// A setting in the state that it is in: how it is configured if it is a secret, and the
/// value, as JSON, that is stored for it.
#[derive(Debug)]
pub struct Setting {
    pub def: SettingDef,
    pub secret_form: String,
    pub stored: Option<String>,
}

impl View for Setting {
    type V = (DefModel, Seq<char>, Option<Seq<char>>);

    open spec fn view(&self) -> (DefModel, Seq<char>, Option<Seq<char>>) {
        (self.def@, self.secret_form@, option_view(self.stored))
    }
}

/// The descriptions of settings, in their order.
pub open spec fn described(list: Seq<Setting>) -> Seq<Seq<char>> {
    list.map_values(
        |setting: Setting| object_text(setting_members(setting@.0, setting@.1, setting@.2)),
    )
}

/// Describes settings, in their order.
pub fn settings_json(list: &Vec<Setting>) -> (json: String)
    ensures
        json@ == list_text(described(list@)),
{
    let mut all: Vec<String> = Vec::new();
    let mut index: usize = 0;
    while index < list.len()
        invariant
            index <= list@.len(),
            texts(all@) == described(list@.take(index as int)),
        decreases list@.len() - index,
    {
        let setting = &list[index];
        all.push(
            setting_json(&setting.def, setting.secret_form.as_str(), &setting.stored),
        );
        proof {
            let front = list@.take(index + 1);
            assert(front.drop_last() =~= list@.take(index as int));
            assert(described(front) =~= described(front.drop_last()).push(
                object_text(setting_members(setting@.0, setting@.1, setting@.2)),
            ));
            assert(texts(all@) =~= described(front));
        }
        index = index + 1;
    }
    assert(list@.take(list@.len() as int) =~= list@);
    json::list(&all)
}

/// The committed revision as far as it is known.
pub open spec fn known_revision(revision: i64, committed: Option<i64>) -> i64 {
    match committed {
        Some(committed) => committed,
        None => revision,
    }
}

/// The answer to an operator who asks for the settings. The committed revision is told
/// too, so that a lag can be seen; where it cannot be read, the revision in force stands
/// for it.
pub fn get_settings(
    revision: i64,
    committed: Option<i64>,
    schema_version: i64,
    instance_id: &str,
    settings: &Vec<Setting>,
) -> (json: String)
    ensures
        json@ == object_text(
            seq![
                (
                    "committed_revision"@,
                    signed_decimal(known_revision(revision, committed) as int),
                ),
                ("instance_id"@, json_string(instance_id@)),
                ("revision"@, signed_decimal(revision as int)),
                ("schema_version"@, signed_decimal(schema_version as int)),
                ("settings"@, list_text(described(settings@))),
            ],
        ),
{
    let known: i64 = match committed {
        Some(committed) => committed,
        None => revision,
    };
    let list = vec![
        json::member("committed_revision", text::signed_of(known as i128)),
        json::member("instance_id", json::string(instance_id)),
        json::member("revision", text::signed_of(revision as i128)),
        json::member("schema_version", text::signed_of(schema_version as i128)),
        json::member("settings", settings_json(settings)),
    ];
    assert(json::member_views(list@) =~= seq![
        ("committed_revision"@, signed_decimal(known_revision(revision, committed) as int)),
        ("instance_id"@, json_string(instance_id@)),
        ("revision"@, signed_decimal(revision as int)),
        ("schema_version"@, signed_decimal(schema_version as int)),
        ("settings"@, list_text(described(settings@))),
    ]);
    json::object(&list)
}

/// The answer to an operator whose change of the settings was applied.
pub fn patch_settings(revision: i64, changed: &Vec<String>, settings: &Vec<Setting>) -> (json:
    String)
    ensures
        json@ == object_text(
            seq![
                ("changed"@, array_text(texts(changed@))),
                ("revision"@, signed_decimal(revision as int)),
                ("settings"@, list_text(described(settings@))),
            ],
        ),
{
    let list = vec![
        json::member("changed", json::array(changed)),
        json::member("revision", text::signed_of(revision as i128)),
        json::member("settings", settings_json(settings)),
    ];
    assert(json::member_views(list@) =~= seq![
        ("changed"@, array_text(texts(changed@))),
        ("revision"@, signed_decimal(revision as int)),
        ("settings"@, list_text(described(settings@))),
    ]);
    json::object(&list)
}

/// The answer to an operator who asked for a checkpoint.
pub fn flush_now(flushed_bytes: u64, storage_failing: bool) -> (json: String)
    ensures
        json@ == object_text(
            seq![
                ("flushed_bytes"@, decimal(flushed_bytes as nat)),
                ("storage_healthy"@, truth_text(!storage_failing)),
            ],
        ),
{
    let list = vec![
        json::member("flushed_bytes", text::decimal_of(flushed_bytes)),
        json::member("storage_healthy", json::truth(!storage_failing)),
    ];
    assert(json::member_views(list@) =~= seq![
        ("flushed_bytes"@, decimal(flushed_bytes as nat)),
        ("storage_healthy"@, truth_text(!storage_failing)),
    ]);
    json::object(&list)
}

/// What is on record of a change to a setting. The values themselves are not: only what
/// they hash to.
#[derive(Debug)]
pub struct AuditEntry<S = String> {
    pub revision: i64,
    pub at: S,
    pub operator: S,
    pub setting: S,
    pub old_value_hash: Option<S>,
    pub new_value_hash: Option<S>,
    pub outcome: S,
    pub detail: Option<S>,
}

impl View for AuditEntry {
    type V = AuditEntry<Seq<char>>;

    open spec fn view(&self) -> AuditEntry<Seq<char>> {
        AuditEntry {
            revision: self.revision,
            at: self.at@,
            operator: self.operator@,
            setting: self.setting@,
            old_value_hash: option_view(self.old_value_hash),
            new_value_hash: option_view(self.new_value_hash),
            outcome: self.outcome@,
            detail: option_view(self.detail),
        }
    }
}

/// The members of an entry's description.
pub open spec fn entry_members(entry: AuditEntry<Seq<char>>) -> Seq<(Seq<char>, Seq<char>)> {
    seq![
        ("at"@, json_string(entry.at)),
        ("detail"@, text_or_null(entry.detail)),
        ("new_value_hash"@, text_or_null(entry.new_value_hash)),
        ("old_value_hash"@, text_or_null(entry.old_value_hash)),
        ("operator"@, json_string(entry.operator)),
        ("outcome"@, json_string(entry.outcome)),
        ("revision"@, signed_decimal(entry.revision as int)),
        ("setting"@, json_string(entry.setting)),
    ]
}

fn entry_json(entry: &AuditEntry) -> (json: String)
    ensures
        json@ == object_text(entry_members(entry@)),
{
    let list = vec![
        json::member("at", json::string(entry.at.as_str())),
        json::member("detail", json::optional(&entry.detail)),
        json::member("new_value_hash", json::optional(&entry.new_value_hash)),
        json::member("old_value_hash", json::optional(&entry.old_value_hash)),
        json::member("operator", json::string(entry.operator.as_str())),
        json::member("outcome", json::string(entry.outcome.as_str())),
        json::member("revision", text::signed_of(entry.revision as i128)),
        json::member("setting", json::string(entry.setting.as_str())),
    ];
    assert(json::member_views(list@) =~= entry_members(entry@));
    json::object(&list)
}

/// The descriptions of entries, in their order.
pub open spec fn recorded(list: Seq<AuditEntry>) -> Seq<Seq<char>> {
    list.map_values(|entry: AuditEntry| object_text(entry_members(entry@)))
}

/// The answer to an operator who asks what was changed.
pub fn get_audit(entries: &Vec<AuditEntry>) -> (json: String)
    ensures
        json@ == object_text(seq![("entries"@, list_text(recorded(entries@)))]),
{
    let mut all: Vec<String> = Vec::new();
    let mut index: usize = 0;
    while index < entries.len()
        invariant
            index <= entries@.len(),
            texts(all@) == recorded(entries@.take(index as int)),
        decreases entries@.len() - index,
    {
        all.push(entry_json(&entries[index]));
        proof {
            let front = entries@.take(index + 1);
            assert(front.drop_last() =~= entries@.take(index as int));
            assert(recorded(front) =~= recorded(front.drop_last()).push(
                object_text(entry_members(entries@[index as int]@)),
            ));
            assert(texts(all@) =~= recorded(front));
        }
        index = index + 1;
    }
    assert(entries@.take(entries@.len() as int) =~= entries@);
    let list = vec![json::member("entries", json::list(&all))];
    assert(json::member_views(list@) =~= seq![("entries"@, list_text(recorded(entries@)))]);
    json::object(&list)
}

} // verus!
