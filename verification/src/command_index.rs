//! Reading the application command index Discord answers with: the commands
//! a guild (or the user) can run, their options, and the name of the
//! application each belongs to.
use crate::application_commands::{
    interaction_nonce, nonce_of_millis, ApplicationCommandChoiceInfo, ApplicationCommandInfo,
    ApplicationCommandInteraction, ApplicationCommandInteractionOption,
    ApplicationCommandOptionInfo,
};
use crate::ids::Id;
use crate::json::{
    entries_view, json_array, json_array_value, json_as_array, json_as_bool, json_as_str,
    json_as_u64, json_get, json_get_field, json_null, json_null_value, json_object,
    json_object_value, json_str_of, json_string, json_string_value, json_to_value, json_u64,
    json_u64_value, json_value_of, json_value_str_field, value_str_field, Json, JsonNumber,
};
use serde_json::Value;
use crate::marker::ApplicationMarker;
use crate::numbers::{parse_u64, parse_u64_chars};
use crate::text::{chars_of, decimal, decimal_string, trim, trim_chars};
use vstd::prelude::*;

verus! {

/// `Value::get` on an optional value.
pub open spec fn opt_get(j: Option<Json>, key: Seq<char>) -> Option<Json> {
    match j {
        Some(v) => json_get(v, key),
        None => None,
    }
}

/// The items of the array under `key`, none when it is missing or not an array.
pub open spec fn items_of(j: Json, key: Seq<char>) -> Seq<Json> {
    match json_as_array(json_get(j, key)) {
        Some(items) => items,
        None => seq![],
    }
}

/// A text, or the empty text when there is none.
pub open spec fn text_or_empty(t: Option<Seq<char>>) -> Seq<char> {
    match t {
        Some(s) => s,
        None => seq![],
    }
}

/// A flag, false when there is none.
pub open spec fn flag_or_false(b: Option<bool>) -> bool {
    match b {
        Some(v) => v,
        None => false,
    }
}

/// The text of a source, when it has something besides white space.
pub open spec fn named_source(j: Option<Json>) -> Option<Seq<char>> {
    match json_as_str(j) {
        Some(s) => if trim(s).len() > 0 {
            Some(s)
        } else {
            None
        },
        None => None,
    }
}

/// The first source's text when it names something, else `rest`.
pub open spec fn or_named(j: Option<Json>, rest: Option<Seq<char>>) -> Option<Seq<char>> {
    match named_source(j) {
        Some(s) => Some(s),
        None => rest,
    }
}

/// The name shown for a command's application: the first text with
/// something besides white space among, in order, the command's own
/// application name, the listed application's name, the bot's global name
/// and user name, the listed application's bot's global name and user name,
/// the user's global name and user name, the display name and the
/// application name.
pub open spec fn application_name_of(raw: Json, application: Option<Json>) -> Option<Seq<char>> {
    or_named(
        opt_get(json_get(raw, "application"@), "name"@),
        or_named(
            opt_get(application, "name"@),
            or_named(
                opt_get(json_get(raw, "bot"@), "global_name"@),
                or_named(
                    opt_get(json_get(raw, "bot"@), "username"@),
                    or_named(
                        opt_get(opt_get(application, "bot"@), "global_name"@),
                        or_named(
                            opt_get(opt_get(application, "bot"@), "username"@),
                            or_named(
                                opt_get(json_get(raw, "user"@), "global_name"@),
                                or_named(
                                    opt_get(json_get(raw, "user"@), "username"@),
                                    or_named(
                                        json_get(raw, "display_name"@),
                                        or_named(json_get(raw, "application_name"@), None),
                                    ),
                                ),
                            ),
                        ),
                    ),
                ),
            ),
        ),
    )
}

/// The view of an optional text.
pub open spec fn opt_text(s: Option<String>) -> Option<Seq<char>> {
    match s {
        Some(t) => Some(t@),
        None => None,
    }
}

/// The value an optional reference points to.
pub open spec fn deref_opt(j: Option<&Json>) -> Option<Json> {
    match j {
        Some(x) => Some(*x),
        None => None,
    }
}

fn get_opt<'a>(j: Option<&'a Json>, key: &str) -> (r: Option<&'a Json>)
    ensures
        deref_opt(r) == opt_get(deref_opt(j), key@),
{
    match j {
        Some(v) => json_get_field(v, key),
        None => None,
    }
}

fn named_text(j: Option<&Json>) -> (r: Option<String>)
    ensures
        opt_text(r) == named_source(deref_opt(j)),
{
    match json_str_of(j) {
        Some(text) => {
            let chars = chars_of(text.as_str());
            let trimmed = trim_chars(&chars);
            if trimmed.len() > 0 {
                Some(text.clone())
            } else {
                None
            }
        },
        None => None,
    }
}

/// The name shown for the application a command belongs to, from the
/// command and the application listed with the same id.
pub fn parse_application_command_application_name(raw: &Json, application: Option<&Json>) -> (r: Option<
    String,
>)
    ensures
        opt_text(r) == application_name_of(*raw, deref_opt(application)),
{
    let bot = json_get_field(raw, "bot");
    let app_bot = get_opt(application, "bot");
    let user = json_get_field(raw, "user");
    if let Some(n) = named_text(get_opt(json_get_field(raw, "application"), "name")) {
        return Some(n);
    }
    if let Some(n) = named_text(get_opt(application, "name")) {
        return Some(n);
    }
    if let Some(n) = named_text(get_opt(bot, "global_name")) {
        return Some(n);
    }
    if let Some(n) = named_text(get_opt(bot, "username")) {
        return Some(n);
    }
    if let Some(n) = named_text(get_opt(app_bot, "global_name")) {
        return Some(n);
    }
    if let Some(n) = named_text(get_opt(app_bot, "username")) {
        return Some(n);
    }
    if let Some(n) = named_text(get_opt(user, "global_name")) {
        return Some(n);
    }
    if let Some(n) = named_text(get_opt(user, "username")) {
        return Some(n);
    }
    if let Some(n) = named_text(json_get_field(raw, "display_name")) {
        return Some(n);
    }
    named_text(json_get_field(raw, "application_name"))
}

/// A choice is read when it has a text name and a value.
pub open spec fn choice_parses(c: Json) -> bool {
    json_as_str(json_get(c, "name"@)) is Some && json_get(c, "value"@) is Some
}

/// An option is read when it has a numeric type and a text name.
pub open spec fn option_parses(o: Json) -> bool {
    json_as_u64(json_get(o, "type"@)) is Some && json_as_str(json_get(o, "name"@)) is Some
}

/// A choice read from its JSON.
pub open spec fn choice_matches(c: ApplicationCommandChoiceInfo, j: Json) -> bool {
    &&& json_as_str(json_get(j, "name"@)) == Some(c.name@)
    &&& json_get(j, "value"@) matches Some(v) && c.value == json_value_of(v)
}

/// Choices read, in order, from the JSON choices that can be read.
pub open spec fn choices_match(cs: Seq<ApplicationCommandChoiceInfo>, js: Seq<Json>) -> bool {
    cs.len() == js.len() && forall|i: int| 0 <= i < cs.len() ==> choice_matches(#[trigger] cs[i], js[i])
}

/// An option read from its JSON: its type, name, description (empty when
/// missing), required and autocomplete flags (false when missing), the
/// choices and nested options that can be read.
pub open spec fn option_info_matches(o: ApplicationCommandOptionInfo, j: Json) -> bool
    decreases o,
{
    options_match_json(o.options@, option_children(j)) && option_fields_match(o, j)
}

/// The fields of an option other than its nested options, read from JSON.
#[verifier::opaque]
pub open spec fn option_fields_match(o: ApplicationCommandOptionInfo, j: Json) -> bool {
    &&& json_as_u64(json_get(j, "type"@)) == Some(o.kind)
    &&& json_as_str(json_get(j, "name"@)) == Some(o.name@)
    &&& o.description@ == text_or_empty(json_as_str(json_get(j, "description"@)))
    &&& o.required == flag_or_false(json_as_bool(json_get(j, "required"@)))
    &&& o.autocomplete == flag_or_false(json_as_bool(json_get(j, "autocomplete"@)))
    &&& choices_match(o.choices@, items_of(j, "choices"@).filter(|c: Json| choice_parses(c)))
}

/// The nested options of an option's JSON that can be read.
pub open spec fn option_children(j: Json) -> Seq<Json> {
    items_of(j, "options"@).filter(|x: Json| option_parses(x))
}

/// Options read, in order, from JSON options that can be read.
pub open spec fn options_match_json(os: Seq<ApplicationCommandOptionInfo>, js: Seq<Json>) -> bool
    decreases os,
{
    if os.len() == 0 {
        js.len() == 0
    } else {
        &&& os.len() == js.len()
        &&& option_info_matches(os[os.len() - 1], js.last())
        &&& options_match_json(os.drop_last(), js.drop_last())
    }
}

proof fn lemma_options_match_push(
    os: Seq<ApplicationCommandOptionInfo>,
    js: Seq<Json>,
    o: ApplicationCommandOptionInfo,
    x: Json,
)
    requires
        options_match_json(os, js),
        option_info_matches(o, x),
    ensures
        options_match_json(os.push(o), js.push(x)),
{
    assert(os.push(o).drop_last() =~= os);
    assert(js.push(x).drop_last() =~= js);
    assert(os.push(o)[os.len() as int] == o);
    assert(js.push(x).last() == x);
    assert(os.len() == js.len());
}

fn text_field<'a>(j: &'a Json, key: &str) -> (r: Option<&'a String>)
    ensures
        match r {
            Some(s) => json_as_str(json_get(*j, key@)) == Some(s@),
            None => json_as_str(json_get(*j, key@)) is None,
        },
{
    json_str_of(json_get_field(j, key))
}

fn flag_field(j: &Json, key: &str) -> (r: bool)
    ensures
        r == flag_or_false(json_as_bool(json_get(*j, key@))),
{
    match json_get_field(j, key) {
        Some(Json::Bool(b)) => *b,
        _ => false,
    }
}

fn items_field<'a>(j: &'a Json, key: &str) -> (r: &'a [Json])
    ensures
        r@ == items_of(*j, key@),
        forall|k: int| 0 <= k < r@.len() ==> decreases_to!(*j => r@[k]),
{
    match json_get_field(j, key) {
        Some(v) => match v {
            Json::Array(items) => {
                proof {
                    assert forall|k: int| 0 <= k < items@.len() implies decreases_to!(*j => items@[k]) by {
                        assert(decreases_to!(*v => (*v)->Array_0));
                        assert(decreases_to!(*items => items@));
                        assert(decreases_to!(items@ => items@[k]));
                    }
                }
                items.as_slice()
            },
            _ => &[],
        },
        None => &[],
    }
}

fn parse_choice(j: &Json) -> (r: Option<ApplicationCommandChoiceInfo>)
    ensures
        match r {
            Some(c) => choice_parses(*j) && choice_matches(c, *j),
            None => !choice_parses(*j),
        },
{
    let name = match text_field(j, "name") {
        Some(n) => n.clone(),
        None => return None,
    };
    let value = match json_get_field(j, "value") {
        Some(v) => json_to_value(v),
        None => return None,
    };
    Some(ApplicationCommandChoiceInfo { name, value })
}

proof fn lemma_filter_step<A>(s: Seq<A>, pred: spec_fn(A) -> bool, i: int)
    requires
        0 <= i < s.len(),
    ensures
        s.take(i + 1).filter(pred) == if pred(s[i]) {
            s.take(i).filter(pred).push(s[i])
        } else {
            s.take(i).filter(pred)
        },
{
    reveal_with_fuel(Seq::filter, 1);
    assert(s.take(i + 1).drop_last() =~= s.take(i));
}

fn parse_choices(raw_choices: &[Json]) -> (r: Vec<ApplicationCommandChoiceInfo>)
    ensures
        choices_match(r@, raw_choices@.filter(|c: Json| choice_parses(c))),
{
    let ghost choice_pred = |c: Json| choice_parses(c);
    let mut choices: Vec<ApplicationCommandChoiceInfo> = Vec::new();
    let mut i: usize = 0;
    proof {
        reveal_with_fuel(Seq::filter, 1);
        assert(raw_choices@.take(0) =~= Seq::<Json>::empty());
    }
    while i < raw_choices.len()
        invariant
            i <= raw_choices@.len(),
            choice_pred == (|c: Json| choice_parses(c)),
            choices_match(choices@, raw_choices@.take(i as int).filter(choice_pred)),
        decreases raw_choices@.len() - i,
    {
        proof {
            lemma_filter_step(raw_choices@, choice_pred, i as int);
        }
        match parse_choice(&raw_choices[i]) {
            Some(c) => {
                choices.push(c);
            },
            None => {},
        }
        i = i + 1;
    }
    proof {
        assert(raw_choices@.take(raw_choices@.len() as int) =~= raw_choices@);
    }
    choices
}

/// Reads one option of a command, its choices and nested options; `None`
/// when it has no numeric type or no text name.
pub fn parse_application_command_option_info(j: &Json) -> (r: Option<ApplicationCommandOptionInfo>)
    ensures
        match r {
            Some(o) => option_parses(*j) && option_info_matches(o, *j),
            None => !option_parses(*j),
        },
    decreases j,
{
    let kind = match json_get_field(j, "type") {
        Some(Json::Number(JsonNumber::PosInt(u))) => *u,
        _ => return None,
    };
    let name = match text_field(j, "name") {
        Some(n) => n.clone(),
        None => return None,
    };
    let description = match text_field(j, "description") {
        Some(d) => d.clone(),
        None => String::new(),
    };
    let required = flag_field(j, "required");
    let autocomplete = flag_field(j, "autocomplete");
    let choices = parse_choices(items_field(j, "choices"));
    let raw_options = items_field(j, "options");
    let ghost option_pred = |x: Json| option_parses(x);
    let mut options: Vec<ApplicationCommandOptionInfo> = Vec::new();
    let mut k: usize = 0;
    proof {
        reveal_with_fuel(Seq::filter, 1);
        assert(raw_options@.take(0) =~= Seq::<Json>::empty());
    }
    while k < raw_options.len()
        invariant
            k <= raw_options@.len(),
            option_pred == (|x: Json| option_parses(x)),
            forall|m: int| 0 <= m < raw_options@.len() ==> decreases_to!(*j => raw_options@[m]),
            options_match_json(options@, raw_options@.take(k as int).filter(option_pred)),
            option_children(*j) == raw_options@.filter(option_pred),
        decreases raw_options@.len() - k,
    {
        proof {
            lemma_filter_step(raw_options@, option_pred, k as int);
        }
        let ghost before = options@;
        let ghost done = raw_options@.take(k as int).filter(option_pred);
        match parse_application_command_option_info(&raw_options[k]) {
            Some(o) => {
                options.push(o);
                proof {
                    assert(options@.drop_last() =~= before);
                    assert(options@.last() == o);
                    assert(done.push(raw_options@[k as int]).drop_last() =~= done);
                    lemma_options_match_push(before, done, o, raw_options@[k as int]);
                    assert(options@ =~= before.push(o));
                }
            },
            None => {},
        }
        k = k + 1;
    }
    proof {
        assert(raw_options@.take(raw_options@.len() as int) =~= raw_options@);
    }
    let info = ApplicationCommandOptionInfo {
        kind,
        name,
        description,
        required,
        autocomplete,
        choices,
        options,
    };
    proof {
        reveal(option_fields_match);
    }
    Some(info)
}

/// Reads the options of a list, in order, leaving out those that cannot be read.
fn parse_option_list(raw_options: &[Json]) -> (r: Vec<ApplicationCommandOptionInfo>)
    ensures
        options_match_json(r@, raw_options@.filter(|x: Json| option_parses(x))),
{
    let ghost option_pred = |x: Json| option_parses(x);
    let mut options: Vec<ApplicationCommandOptionInfo> = Vec::new();
    let mut k: usize = 0;
    proof {
        reveal_with_fuel(Seq::filter, 1);
        assert(raw_options@.take(0) =~= Seq::<Json>::empty());
    }
    while k < raw_options.len()
        invariant
            k <= raw_options@.len(),
            option_pred == (|x: Json| option_parses(x)),
            options_match_json(options@, raw_options@.take(k as int).filter(option_pred)),
        decreases raw_options@.len() - k,
    {
        proof {
            lemma_filter_step(raw_options@, option_pred, k as int);
        }
        let ghost before = options@;
        let ghost done = raw_options@.take(k as int).filter(option_pred);
        match parse_application_command_option_info(&raw_options[k]) {
            Some(o) => {
                options.push(o);
                proof {
                    lemma_options_match_push(before, done, o, raw_options@[k as int]);
                    assert(options@ =~= before.push(o));
                }
            },
            None => {},
        }
        k = k + 1;
    }
    proof {
        assert(raw_options@.take(raw_options@.len() as int) =~= raw_options@);
    }
    options
}

/// The snowflake a text field holds, when it is a non-zero unsigned number.
pub open spec fn snowflake_field(j: Json, key: Seq<char>) -> Option<u64> {
    match json_as_str(json_get(j, key)) {
        Some(t) => match parse_u64(t) {
            Some(v) => if v != 0 {
                Some(v)
            } else {
                None
            },
            None => None,
        },
        None => None,
    }
}

/// A command is read when its id and application id are snowflakes in text
/// and it has a text name and version.
pub open spec fn command_parses(raw: Json) -> bool {
    &&& snowflake_field(raw, "id"@) is Some
    &&& snowflake_field(raw, "application_id"@) is Some
    &&& json_as_str(json_get(raw, "name"@)) is Some
    &&& json_as_str(json_get(raw, "version"@)) is Some
}

/// The listed application with the given id: the last one listed with it.
pub open spec fn application_with_id(apps: Seq<Json>, id: Seq<char>) -> Option<Json>
    decreases apps.len(),
{
    if apps.len() == 0 {
        None
    } else if json_as_str(json_get(apps.last(), "id"@)) == Some(id) {
        Some(apps.last())
    } else {
        application_with_id(apps.drop_last(), id)
    }
}

/// A command read from its JSON and the listed applications: ids, version,
/// name, the name of its application, its description (empty when
/// missing), the options that can be read, and the JSON itself.
pub open spec fn command_info_matches(c: ApplicationCommandInfo, raw: Json, apps: Seq<Json>) -> bool {
    &&& snowflake_field(raw, "id"@) == Some(c.id@)
    &&& snowflake_field(raw, "application_id"@) == Some(c.application_id@)
    &&& json_as_str(json_get(raw, "version"@)) == Some(c.version@)
    &&& json_as_str(json_get(raw, "name"@)) == Some(c.name@)
    &&& opt_text(c.application_name) == application_name_of(
        raw,
        application_with_id(apps, json_as_str(json_get(raw, "application_id"@))->0),
    )
    &&& c.description@ == text_or_empty(json_as_str(json_get(raw, "description"@)))
    &&& options_match_json(c.options@, items_of(raw, "options"@).filter(|x: Json| option_parses(x)))
    &&& c.raw == json_value_of(raw)
}

fn snowflake_of(j: &Json, key: &str) -> (r: Option<u64>)
    ensures
        r == snowflake_field(*j, key@),
{
    match text_field(j, key) {
        Some(t) => {
            let chars = chars_of(t.as_str());
            match parse_u64_chars(&chars) {
                Some(v) => if v != 0 {
                    Some(v)
                } else {
                    None
                },
                None => None,
            }
        },
        None => None,
    }
}

fn find_application<'a>(apps: &'a [Json], id: &String) -> (r: Option<&'a Json>)
    ensures
        deref_opt(r) == application_with_id(apps@, id@),
{
    let mut i: usize = apps.len();
    proof {
        assert(apps@.take(apps@.len() as int) =~= apps@);
    }
    while i > 0
        invariant
            i <= apps@.len(),
            application_with_id(apps@, id@) == application_with_id(apps@.take(i as int), id@),
        decreases i,
    {
        proof {
            assert(apps@.take(i as int).drop_last() =~= apps@.take(i - 1));
            assert(apps@.take(i as int).last() == apps@[i - 1]);
        }
        let matches = match text_field(&apps[i - 1], "id") {
            Some(t) => {
                let a = chars_of(t.as_str());
                let b = chars_of(id.as_str());
                crate::text::chars_eq(&a, &b)
            },
            None => false,
        };
        if matches {
            return Some(&apps[i - 1]);
        }
        i = i - 1;
    }
    None
}

/// Reads one command of the index; `None` when its ids, name or version
/// cannot be read.
pub fn parse_application_command_info(raw: &Json, applications: &[Json]) -> (r: Option<
    ApplicationCommandInfo,
>)
    ensures
        match r {
            Some(c) => command_parses(*raw) && command_info_matches(c, *raw, applications@),
            None => !command_parses(*raw),
        },
{
    let id = match snowflake_of(raw, "id") {
        Some(v) => Id::<ApplicationMarker>::new(v),
        None => return None,
    };
    let application_id_raw = match text_field(raw, "application_id") {
        Some(t) => t,
        None => return None,
    };
    let application_id = match snowflake_of(raw, "application_id") {
        Some(v) => Id::<ApplicationMarker>::new(v),
        None => return None,
    };
    let name = match text_field(raw, "name") {
        Some(n) => n.clone(),
        None => return None,
    };
    let version = match text_field(raw, "version") {
        Some(v) => v.clone(),
        None => return None,
    };
    let application = find_application(applications, application_id_raw);
    let application_name = parse_application_command_application_name(raw, application);
    let description = match text_field(raw, "description") {
        Some(d) => d.clone(),
        None => String::new(),
    };
    let options = parse_option_list(items_field(raw, "options"));
    let value = json_to_value(raw);
    Some(
        ApplicationCommandInfo {
            id,
            application_id,
            version,
            name,
            application_name,
            description,
            options,
            raw: value,
        },
    )
}

/// The commands of an index that can be read, in order.
pub open spec fn index_commands(raw: Json) -> Seq<Json> {
    items_of(raw, "application_commands"@).filter(|c: Json| command_parses(c))
}

/// Commands read, in order, from the JSON commands that can be read.
pub open spec fn commands_match(cs: Seq<ApplicationCommandInfo>, js: Seq<Json>, apps: Seq<Json>) -> bool {
    cs.len() == js.len() && forall|i: int| 0 <= i < cs.len() ==> command_info_matches(#[trigger] cs[i], js[i], apps)
}

/// Reads an application command index: every command that can be read,
/// in order, each with the name of the application listed for it.
pub fn parse_application_command_index(raw: &Json) -> (r: Vec<ApplicationCommandInfo>)
    ensures
        commands_match(r@, index_commands(*raw), items_of(*raw, "applications"@)),
{
    let applications = items_field(raw, "applications");
    let commands = items_field(raw, "application_commands");
    let ghost pred = |c: Json| command_parses(c);
    let mut out: Vec<ApplicationCommandInfo> = Vec::new();
    let mut i: usize = 0;
    proof {
        reveal_with_fuel(Seq::filter, 1);
        assert(commands@.take(0) =~= Seq::<Json>::empty());
    }
    while i < commands.len()
        invariant
            i <= commands@.len(),
            pred == (|c: Json| command_parses(c)),
            applications@ == items_of(*raw, "applications"@),
            commands_match(out@, commands@.take(i as int).filter(pred), applications@),
        decreases commands@.len() - i,
    {
        proof {
            lemma_filter_step(commands@, pred, i as int);
        }
        match parse_application_command_info(&commands[i], applications) {
            Some(c) => {
                out.push(c);
            },
            None => {},
        }
        i = i + 1;
    }
    proof {
        assert(commands@.take(commands@.len() as int) =~= commands@);
    }
    out
}

/// The JSON an interaction option is sent as: its type and name, then its
/// value, or else its nested options when it has some.
pub open spec fn option_body_value(o: ApplicationCommandInteractionOption) -> Value
    decreases o,
{
    let base = seq![("type"@, json_u64(o.kind)), ("name"@, json_string(o.name@))];
    match o.value {
        Some(v) => json_object(base.push(("value"@, v))),
        None => if o.options@.len() > 0 {
            json_object(base.push(("options"@, json_array(option_bodies(o.options@)))))
        } else {
            json_object(base)
        },
    }
}

/// The JSON of each option, in order.
pub open spec fn option_bodies(os: Seq<ApplicationCommandInteractionOption>) -> Seq<Value>
    decreases os,
{
    if os.len() == 0 {
        seq![]
    } else {
        option_bodies(os.drop_last()).push(option_body_value(os[os.len() - 1]))
    }
}

fn push_entry(entries: &mut Vec<(String, Value)>, key: &str, value: Value)
    ensures
        entries_view(final(entries)@) == entries_view(old(entries)@).push((key@, value)),
{
    entries.push((key.to_string(), value));
    proof {
        assert(entries_view(entries@) =~= entries_view(old(entries)@).push((key@, value)));
    }
}

/// The JSON an interaction option is sent as.
pub fn application_command_option_body(option: &ApplicationCommandInteractionOption) -> (r: Value)
    ensures
        r == option_body_value(*option),
    decreases option,
{
    let mut entries: Vec<(String, Value)> = Vec::new();
    push_entry(&mut entries, "type", json_u64_value(option.kind));
    push_entry(&mut entries, "name", json_string_value(option.name.clone()));
    let ghost base = entries_view(entries@);
    proof {
        assert(base =~= seq![("type"@, json_u64(option.kind)), ("name"@, json_string(option.name@))]);
    }
    match &option.value {
        Some(v) => {
            push_entry(&mut entries, "value", v.clone());
        },
        None => {
            if option.options.len() > 0 {
                let mut bodies: Vec<Value> = Vec::new();
                let mut i: usize = 0;
                proof {
                    assert(option.options@.take(0) =~= Seq::<ApplicationCommandInteractionOption>::empty());
                }
                while i < option.options.len()
                    invariant
                        i <= option.options@.len(),
                        bodies@ == option_bodies(option.options@.take(i as int)),
                    decreases option.options@.len() - i,
                {
                    proof {
                        assert(option.options@.take(i + 1).drop_last() =~= option.options@.take(i as int));
                        assert(decreases_to!(option.options => option.options@));
                        assert(decreases_to!(option.options@ => option.options@[i as int]));
                    }
                    let body = application_command_option_body(&option.options[i]);
                    bodies.push(body);
                    i = i + 1;
                }
                proof {
                    assert(option.options@.take(option.options@.len() as int) =~= option.options@);
                }
                push_entry(&mut entries, "options", json_array_value(bodies));
            }
        },
    }
    json_object_value(entries)
}

/// The JSON body that runs a slash command, sent with the given session id
/// and nonce: the interaction's target and the command's identity, the
/// options, the command itself, and the command's own guild when it has one.
pub open spec fn interaction_body_value(i: ApplicationCommandInteraction, session_id: Seq<char>, nonce: Seq<char>) -> Value {
    let data = seq![
        ("version"@, json_string(i.command.version@)),
        ("id"@, json_string(decimal(i.command.id@ as nat))),
        ("name"@, json_string(i.command.name@)),
        ("type"@, json_u64(1)),
        ("options"@, json_array(option_bodies(i.options@))),
        ("application_command"@, i.command.raw),
        ("attachments"@, json_array(seq![])),
    ];
    let data = match value_str_field(i.command.raw, "guild_id"@) {
        Some(g) => data.push(("guild_id"@, json_string(g))),
        None => data,
    };
    json_object(
        seq![
            ("type"@, json_u64(2)),
            ("application_id"@, json_string(decimal(i.command.application_id@ as nat))),
            ("guild_id"@, match i.guild_id {
                Some(g) => json_string(decimal(g@ as nat)),
                None => json_null(),
            }),
            ("channel_id"@, json_string(decimal(i.channel_id@ as nat))),
            ("session_id"@, json_string(session_id)),
            ("data"@, json_object(data)),
            ("nonce"@, json_string(nonce)),
            ("analytics_location"@, json_string("slash_ui"@)),
        ],
    )
}

/// The JSON body that runs a slash command, with the given nonce.
pub fn application_command_interaction_body_with_nonce(
    interaction: &ApplicationCommandInteraction,
    session_id: &str,
    nonce: String,
) -> (r: Value)
    ensures
        r == interaction_body_value(*interaction, session_id@, nonce@),
{
    let mut bodies: Vec<Value> = Vec::new();
    let mut i: usize = 0;
    proof {
        assert(interaction.options@.take(0) =~= Seq::<ApplicationCommandInteractionOption>::empty());
    }
    while i < interaction.options.len()
        invariant
            i <= interaction.options@.len(),
            bodies@ == option_bodies(interaction.options@.take(i as int)),
        decreases interaction.options@.len() - i,
    {
        proof {
            assert(interaction.options@.take(i + 1).drop_last() =~= interaction.options@.take(i as int));
        }
        bodies.push(application_command_option_body(&interaction.options[i]));
        i = i + 1;
    }
    proof {
        assert(interaction.options@.take(interaction.options@.len() as int) =~= interaction.options@);
    }
    let mut data: Vec<(String, Value)> = Vec::new();
    push_entry(&mut data, "version", json_string_value(interaction.command.version.clone()));
    push_entry(&mut data, "id", json_string_value(decimal_string(interaction.command.id.get())));
    push_entry(&mut data, "name", json_string_value(interaction.command.name.clone()));
    push_entry(&mut data, "type", json_u64_value(1));
    push_entry(&mut data, "options", json_array_value(bodies));
    push_entry(&mut data, "application_command", interaction.command.raw.clone());
    let no_attachments: Vec<Value> = Vec::new();
    proof {
        assert(no_attachments@ =~= Seq::<Value>::empty());
    }
    push_entry(&mut data, "attachments", json_array_value(no_attachments));
    let ghost plain = seq![
        ("version"@, json_string(interaction.command.version@)),
        ("id"@, json_string(decimal(interaction.command.id@ as nat))),
        ("name"@, json_string(interaction.command.name@)),
        ("type"@, json_u64(1)),
        ("options"@, json_array(option_bodies(interaction.options@))),
        ("application_command"@, interaction.command.raw),
        ("attachments"@, json_array(seq![])),
    ];
    proof {
        assert(entries_view(data@) =~= plain);
    }
    match json_value_str_field(&interaction.command.raw, "guild_id") {
        Some(g) => push_entry(&mut data, "guild_id", json_string_value(g)),
        None => {},
    }
    proof {
        assert(entries_view(data@) == match value_str_field(interaction.command.raw, "guild_id"@) {
            Some(g) => plain.push(("guild_id"@, json_string(g))),
            None => plain,
        });
    }
    let mut body: Vec<(String, Value)> = Vec::new();
    push_entry(&mut body, "type", json_u64_value(2));
    push_entry(&mut body, "application_id", json_string_value(decimal_string(interaction.command.application_id.get())));
    let guild = match interaction.guild_id {
        Some(g) => json_string_value(decimal_string(g.get())),
        None => json_null_value(),
    };
    push_entry(&mut body, "guild_id", guild);
    push_entry(&mut body, "channel_id", json_string_value(decimal_string(interaction.channel_id.get())));
    push_entry(&mut body, "session_id", json_string_value(session_id.to_string()));
    push_entry(&mut body, "data", json_object_value(data));
    push_entry(&mut body, "nonce", json_string_value(nonce));
    push_entry(&mut body, "analytics_location", json_string_value("slash_ui".to_string()));
    proof {
        assert(entries_view(body@) =~= seq![
            ("type"@, json_u64(2)),
            ("application_id"@, json_string(decimal(interaction.command.application_id@ as nat))),
            ("guild_id"@, match interaction.guild_id {
                Some(g) => json_string(decimal(g@ as nat)),
                None => json_null(),
            }),
            ("channel_id"@, json_string(decimal(interaction.channel_id@ as nat))),
            ("session_id"@, json_string(session_id@)),
            ("data"@, json_object(entries_view(data@))),
            ("nonce"@, json_string(nonce@)),
            ("analytics_location"@, json_string("slash_ui"@)),
        ]);
    }
    json_object_value(body)
}

/// The JSON body that runs a slash command now, with a fresh nonce.
pub fn application_command_interaction_body(interaction: &ApplicationCommandInteraction, session_id: &str) -> (r:
    Value)
    ensures
        exists|millis: u64| r == interaction_body_value(*interaction, session_id@, nonce_of_millis(millis)),
{
    let nonce = interaction_nonce();
    let ghost millis = choose|millis: u64| nonce@ == nonce_of_millis(millis);
    let r = application_command_interaction_body_with_nonce(interaction, session_id, nonce);
    proof {
        assert(r == interaction_body_value(*interaction, session_id@, nonce_of_millis(millis)));
    }
    r
}

} // verus!
